use vstd::prelude::*;
use crate::error::ContractError;
use crate::msg::{HandleMsg, InitMsg, QueryMsg, QueryResponse, RefDataResponse, ReferenceData};
use crate::state::{RefData, State};

verus! {

/// The fixed-point scale of stored rates: one reference unit.
pub const E9: u64 = 1_000_000_000;

/// The fixed-point scale of cross-rates.
pub const E18: u128 = 1_000_000_000_000_000_000;

/// Creates the empty store that the system starts from. Running it again
/// would discard existing data; the surrounding environment must call it
/// exactly once.
pub fn init(_msg: InitMsg) -> (r: State)
    ensures
        r.wf(),
        r@ == Map::<Seq<char>, RefData>::empty(),
{
    State::new()
}

/// The mapping after a relay batch: each entry is upserted in input order,
/// so for a symbol duplicated within the batch the last entry wins.
pub open spec fn apply_batch(
    m: Map<Seq<char>, RefData>,
    symbols: Seq<String>,
    rates: Seq<u64>,
    resolve_times: Seq<u64>,
    request_ids: Seq<u64>,
) -> Map<Seq<char>, RefData>
    decreases symbols.len(),
{
    if symbols.len() == 0 {
        m
    } else {
        apply_batch(
            m,
            symbols.drop_last(),
            rates.drop_last(),
            resolve_times.drop_last(),
            request_ids.drop_last(),
        ).insert(
            symbols.last()@,
            RefData {
                rate: rates.last(),
                resolve_time: resolve_times.last(),
                request_id: request_ids.last(),
            },
        )
    }
}

/// Upserts a whole batch of records, all or nothing: with arrays of equal
/// length every record is applied in input order; otherwise the store is
/// left untouched and the batch is rejected.
pub fn update_refs(
    state: &mut State,
    symbols: &Vec<String>,
    new_rates: &Vec<u64>,
    new_resolve_times: &Vec<u64>,
    new_request_ids: &Vec<u64>,
) -> (r: Result<(), ContractError>)
    requires
        old(state).wf(),
    ensures
        final(state).wf(),
        r is Ok <==> (new_rates@.len() == symbols@.len() && new_resolve_times@.len()
            == symbols@.len() && new_request_ids@.len() == symbols@.len()),
        r is Ok ==> final(state)@ == apply_batch(
            old(state)@,
            symbols@,
            new_rates@,
            new_resolve_times@,
            new_request_ids@,
        ),
        r is Err ==> *final(state) == *old(state) && r == Result::<(), ContractError>::Err(
            ContractError::DifferentArrayLength {},
        ),
{
    let len = symbols.len();
    if new_rates.len() != len || new_request_ids.len() != len || new_resolve_times.len() != len {
        return Err(ContractError::DifferentArrayLength {});
    }
    for idx in 0..len
        invariant
            len == symbols@.len(),
            new_rates@.len() == len,
            new_resolve_times@.len() == len,
            new_request_ids@.len() == len,
            state.wf(),
            state@ == apply_batch(
                old(state)@,
                symbols@.take(idx as int),
                new_rates@.take(idx as int),
                new_resolve_times@.take(idx as int),
                new_request_ids@.take(idx as int),
            ),
    {
        state.insert(
            symbols[idx].clone(),
            RefData {
                rate: new_rates[idx],
                resolve_time: new_resolve_times[idx],
                request_id: new_request_ids[idx],
            },
        );
        proof {
            let i = idx + 1;
            assert(symbols@.take(i).drop_last() =~= symbols@.take(idx as int));
            assert(new_rates@.take(i).drop_last() =~= new_rates@.take(idx as int));
            assert(new_resolve_times@.take(i).drop_last() =~= new_resolve_times@.take(idx as int));
            assert(new_request_ids@.take(i).drop_last() =~= new_request_ids@.take(idx as int));
        }
    }
    proof {
        assert(symbols@.take(len as int) =~= symbols@);
        assert(new_rates@.take(len as int) =~= new_rates@);
        assert(new_resolve_times@.take(len as int) =~= new_resolve_times@);
        assert(new_request_ids@.take(len as int) =~= new_request_ids@);
    }
    Ok(())
}

/// Applies a command to the store: `Relay` upserts its batch, all or
/// nothing, exactly as `update_refs` does.
pub fn handle(state: &mut State, msg: HandleMsg) -> (r: Result<(), ContractError>)
    requires
        old(state).wf(),
    ensures
        final(state).wf(),
        match msg {
            HandleMsg::Relay { symbols, rates, resolve_times, request_ids } => {
                &&& (r is Ok <==> (rates@.len() == symbols@.len() && resolve_times@.len()
                    == symbols@.len() && request_ids@.len() == symbols@.len()))
                &&& (r is Ok ==> final(state)@ == apply_batch(
                    old(state)@,
                    symbols@,
                    rates@,
                    resolve_times@,
                    request_ids@,
                ))
                &&& (r is Err ==> *final(state) == *old(state) && r == Result::<
                    (),
                    ContractError,
                >::Err(ContractError::DifferentArrayLength {}))
            },
        },
{
    match msg {
        HandleMsg::Relay { symbols, rates, resolve_times, request_ids } => update_refs(
            state,
            &symbols,
            &rates,
            &resolve_times,
            &request_ids,
        ),
    }
}

/// Returns a copy of the full current mapping; the store is not changed.
pub fn query_refs(state: &State) -> (r: State)
    requires
        state.wf(),
    ensures
        r.wf(),
        r@ == state@,
{
    let mut refs: Vec<(String, RefData)> = Vec::new();
    let n = state.refs.len();
    for i in 0..n
        invariant
            n == state.refs@.len(),
            refs@.len() == i,
            forall|j: int| 0 <= j < i ==> refs@[j] == state.refs@[j],
    {
        let symbol = state.refs[i].0.clone();
        let data = state.refs[i].1;
        refs.push((symbol, data));
    }
    proof {
        assert(refs@ =~= state.refs@);
    }
    State { refs }
}

/// The record that a query resolves for a symbol at query time `now`: the
/// numeraire "USD" is synthesized fresh with rate 10^9, and a stored
/// record counts only if its resolve time is nonzero.
pub open spec fn resolve_ref(m: Map<Seq<char>, RefData>, symbol: Seq<char>, now: u64) -> Option<
    RefDataResponse,
> {
    if symbol == "USD"@ {
        Some(RefDataResponse { rate: E9, last_update: now })
    } else if m.contains_key(symbol) && m[symbol].resolve_time != 0 {
        Some(RefDataResponse { rate: m[symbol].rate, last_update: m[symbol].resolve_time })
    } else {
        None
    }
}

/// The cross-rate of two resolved rates: base over quote, scaled by 10^18,
/// with floor division.
pub open spec fn cross_rate(base_rate: u64, quote_rate: u64) -> int {
    (base_rate * E18) / (quote_rate as int)
}

/// What a cross-rate query returns: both symbols resolved independently at
/// the same query time, the base symbol's failure reported first, and a
/// zero quote rate rejected rather than divided by.
pub open spec fn reference_data_of(
    m: Map<Seq<char>, RefData>,
    base: Seq<char>,
    quote: Seq<char>,
    now: u64,
) -> Result<ReferenceData, ContractError> {
    match resolve_ref(m, base, now) {
        None => Err(ContractError::RefDataNotAvailable {}),
        Some(b) => match resolve_ref(m, quote, now) {
            None => Err(ContractError::RefDataNotAvailable {}),
            Some(q) => if q.rate == 0 {
                Err(ContractError::InvalidQuoteRate {})
            } else {
                Ok(
                    ReferenceData {
                        rate: cross_rate(b.rate, q.rate) as u128,
                        last_updated_base: b.last_update,
                        last_updated_quote: q.last_update,
                    },
                )
            },
        },
    }
}

/// Resolves one symbol: "USD" always succeeds with rate 10^9 and `now` as
/// its update time; any other symbol succeeds exactly when the store holds
/// a record for it whose resolve time is nonzero.
pub fn get_ref_data(state: &State, symbol: &String, now: u64) -> (r: Result<
    RefDataResponse,
    ContractError,
>)
    requires
        state.wf(),
    ensures
        match r {
            Ok(d) => resolve_ref(state@, symbol@, now) == Some(d),
            Err(e) => e == (ContractError::RefDataNotAvailable {}) && resolve_ref(
                state@,
                symbol@,
                now,
            ) is None,
        },
{
    let usd: String = "USD".to_owned();
    if symbol.eq(&usd) {
        return Ok(RefDataResponse { rate: E9, last_update: now });
    }
    match state.get(symbol) {
        Some(d) => {
            if d.resolve_time == 0 {
                Err(ContractError::RefDataNotAvailable {})
            } else {
                Ok(RefDataResponse { rate: d.rate, last_update: d.resolve_time })
            }
        },
        None => Err(ContractError::RefDataNotAvailable {}),
    }
}

/// Answers a query against the store at query time `now`: `GetRefs`
/// returns a copy of the full mapping; `GetReferenceData` returns the
/// cross-rate of base over quote as `reference_data_of` states it.
pub fn query(state: &State, msg: QueryMsg, now: u64) -> (r: Result<QueryResponse, ContractError>)
    requires
        state.wf(),
    ensures
        match msg {
            QueryMsg::GetRefs {} => match r {
                Ok(QueryResponse::Refs(s)) => s.wf() && s@ == state@,
                _ => false,
            },
            QueryMsg::GetReferenceData { base, quote } => match r {
                Ok(QueryResponse::ReferenceData(d)) => reference_data_of(
                    state@,
                    base@,
                    quote@,
                    now,
                ) == Result::<ReferenceData, ContractError>::Ok(d),
                Err(e) => reference_data_of(state@, base@, quote@, now) == Result::<
                    ReferenceData,
                    ContractError,
                >::Err(e),
                _ => false,
            },
        },
{
    match msg {
        QueryMsg::GetRefs {} => Ok(QueryResponse::Refs(query_refs(state))),
        QueryMsg::GetReferenceData { base, quote } => {
            let base_ref = match get_ref_data(state, &base, now) {
                Ok(d) => d,
                Err(e) => {
                    return Err(e);
                },
            };
            let quote_ref = match get_ref_data(state, &quote, now) {
                Ok(d) => d,
                Err(e) => {
                    return Err(e);
                },
            };
            if quote_ref.rate == 0 {
                return Err(ContractError::InvalidQuoteRate {});
            }
            assert((base_ref.rate as int) * (E18 as int) <= (u64::MAX as int) * (E18 as int))
                by (nonlinear_arith)
                requires
                    base_ref.rate <= u64::MAX,
            ;
            let numerator: u128 = (base_ref.rate as u128) * E18;
            let rate: u128 = numerator / (quote_ref.rate as u128);
            Ok(
                QueryResponse::ReferenceData(
                    ReferenceData {
                        rate,
                        last_updated_base: base_ref.last_update,
                        last_updated_quote: quote_ref.last_update,
                    },
                ),
            )
        },
    }
}

/// Law: within one relayed batch the last write wins — the record a symbol
/// maps to afterwards is exactly the one at its last occurrence in the
/// batch.
pub proof fn lemma_apply_batch_last_wins(
    m: Map<Seq<char>, RefData>,
    symbols: Seq<String>,
    rates: Seq<u64>,
    resolve_times: Seq<u64>,
    request_ids: Seq<u64>,
    i: int,
)
    requires
        rates.len() == symbols.len(),
        resolve_times.len() == symbols.len(),
        request_ids.len() == symbols.len(),
        0 <= i < symbols.len(),
        forall|j: int| i < j < symbols.len() ==> symbols[j]@ != symbols[i]@,
    ensures
        apply_batch(m, symbols, rates, resolve_times, request_ids).contains_key(symbols[i]@),
        apply_batch(m, symbols, rates, resolve_times, request_ids)[symbols[i]@] == (RefData {
            rate: rates[i],
            resolve_time: resolve_times[i],
            request_id: request_ids[i],
        }),
    decreases symbols.len(),
{
    if i < symbols.len() - 1 {
        lemma_apply_batch_last_wins(
            m,
            symbols.drop_last(),
            rates.drop_last(),
            resolve_times.drop_last(),
            request_ids.drop_last(),
            i,
        );
    }
}

/// Law: a relayed batch touches no symbol outside it — any other key keeps
/// exactly the record it had before, present or absent.
pub proof fn lemma_apply_batch_untouched(
    m: Map<Seq<char>, RefData>,
    symbols: Seq<String>,
    rates: Seq<u64>,
    resolve_times: Seq<u64>,
    request_ids: Seq<u64>,
    k: Seq<char>,
)
    requires
        rates.len() == symbols.len(),
        resolve_times.len() == symbols.len(),
        request_ids.len() == symbols.len(),
        forall|j: int| 0 <= j < symbols.len() ==> symbols[j]@ != k,
    ensures
        apply_batch(m, symbols, rates, resolve_times, request_ids).contains_key(k)
            == m.contains_key(k),
        m.contains_key(k) ==> apply_batch(m, symbols, rates, resolve_times, request_ids)[k]
            == m[k],
    decreases symbols.len(),
{
    if symbols.len() > 0 {
        lemma_apply_batch_untouched(
            m,
            symbols.drop_last(),
            rates.drop_last(),
            resolve_times.drop_last(),
            request_ids.drop_last(),
            k,
        );
    }
}

/// Law: re-relaying a symbol fully replaces its record — after two
/// single-entry batches for the same symbol, only the second record
/// remains; nothing of the first is merged in.
pub proof fn lemma_rerelay_replaces(
    m: Map<Seq<char>, RefData>,
    s1: String,
    s2: String,
    d1: RefData,
    d2: RefData,
)
    requires
        s1@ == s2@,
    ensures
        apply_batch(
            apply_batch(m, seq![s1], seq![d1.rate], seq![d1.resolve_time], seq![d1.request_id]),
            seq![s2],
            seq![d2.rate],
            seq![d2.resolve_time],
            seq![d2.request_id],
        ) == m.insert(s2@, d2),
{
    let empty_s = Seq::<String>::empty();
    let empty_u = Seq::<u64>::empty();
    assert(seq![s1].drop_last() =~= empty_s);
    assert(seq![s2].drop_last() =~= empty_s);
    assert(seq![d1.rate].drop_last() =~= empty_u);
    assert(seq![d1.resolve_time].drop_last() =~= empty_u);
    assert(seq![d1.request_id].drop_last() =~= empty_u);
    assert(seq![d2.rate].drop_last() =~= empty_u);
    assert(seq![d2.resolve_time].drop_last() =~= empty_u);
    assert(seq![d2.request_id].drop_last() =~= empty_u);
    let m1 = apply_batch(m, seq![s1], seq![d1.rate], seq![d1.resolve_time], seq![d1.request_id]);
    assert(apply_batch(m, empty_s, empty_u, empty_u, empty_u) == m);
    assert(m1 == m.insert(s1@, d1));
    assert(apply_batch(m1, empty_s, empty_u, empty_u, empty_u) == m1);
    assert(apply_batch(m1, seq![s2], seq![d2.rate], seq![d2.resolve_time], seq![d2.request_id])
        == m1.insert(s2@, d2));
    assert(m.insert(s1@, d1).insert(s2@, d2) =~= m.insert(s2@, d2));
}

/// Law: the cross-rate of the numeraire against itself is exactly one unit
/// in the 10^18 scale, whatever the store holds and whenever it is asked.
pub proof fn lemma_usd_identity(m: Map<Seq<char>, RefData>, now: u64)
    ensures
        reference_data_of(m, "USD"@, "USD"@, now) == Result::<ReferenceData, ContractError>::Ok(
            ReferenceData { rate: E18, last_updated_base: now, last_updated_quote: now },
        ),
{
    assert((E9 as int) * (E18 as int) == 1_000_000_000_000_000_000_000_000_000int);
    assert(1_000_000_000_000_000_000_000_000_000int / (E9 as int) == E18 as int);
}

} // verus!
