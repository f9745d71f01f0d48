use std_reference::contract::{get_ref_data, handle, init, query, update_refs, E18, E9};
use std_reference::error::ContractError;
use std_reference::msg::{HandleMsg, InitMsg, QueryMsg, QueryResponse, RefDataResponse, ReferenceData};
use std_reference::state::{RefData, State};

const NOW: u64 = 1625119856;

fn relay(state: &mut State, symbols: &[&str], rates: &[u64], resolve_times: &[u64], request_ids: &[u64]) -> Result<(), ContractError> {
    let msg = HandleMsg::Relay {
        symbols: symbols.iter().map(|s| s.to_string()).collect(),
        rates: rates.to_vec(),
        resolve_times: resolve_times.to_vec(),
        request_ids: request_ids.to_vec(),
    };
    handle(state, msg)
}

fn read_all(state: &State) -> State {
    match query(state, QueryMsg::GetRefs {}, NOW) {
        Ok(QueryResponse::Refs(s)) => s,
        _ => panic!("reading the full mapping must succeed"),
    }
}

fn cross(state: &State, base: &str, quote: &str, now: u64) -> Result<ReferenceData, ContractError> {
    let msg = QueryMsg::GetReferenceData { base: base.to_string(), quote: quote.to_string() };
    match query(state, msg, now) {
        Ok(QueryResponse::ReferenceData(d)) => Ok(d),
        Ok(_) => panic!("a cross-rate query must answer with reference data"),
        Err(e) => Err(e),
    }
}

#[test]
fn proper_initialization() {
    let state = init(InitMsg {});

    let value = read_all(&state);
    assert_eq!(0, value.refs.len());
}

#[test]
fn insert_one() {
    let mut state = init(InitMsg {});

    relay(&mut state, &["ETH"], &[1], &[2], &[3]).unwrap();

    let value = read_all(&state);
    assert_eq!(1, value.refs.len());
    assert_eq!(
        Some(RefData { rate: 1, resolve_time: 2, request_id: 3 }),
        value.get(&String::from("ETH"))
    );
}

#[test]
fn insert_batch() {
    let mut state = init(InitMsg {});

    relay(&mut state, &["ETH", "BAND"], &[1, 100], &[2, 200], &[3, 300]).unwrap();

    let value = read_all(&state);
    assert_eq!(2, value.refs.len());
    assert_eq!(
        Some(RefData { rate: 1, resolve_time: 2, request_id: 3 }),
        value.get(&String::from("ETH"))
    );
    assert_eq!(
        Some(RefData { rate: 100, resolve_time: 200, request_id: 300 }),
        value.get(&String::from("BAND"))
    );
}

#[test]
fn update_rate() {
    let mut state = init(InitMsg {});

    relay(&mut state, &["MATIC"], &[12], &[124824], &[69]).unwrap();

    let value = read_all(&state);
    assert_eq!(1, value.refs.len());
    assert_eq!(
        Some(RefData { rate: 12, resolve_time: 124824, request_id: 69 }),
        value.get(&String::from("MATIC"))
    );

    relay(&mut state, &["MATIC"], &[24], &[124824], &[69]).unwrap();

    let value = read_all(&state);
    assert_eq!(1, value.refs.len());
    assert_eq!(
        Some(RefData { rate: 24, resolve_time: 124824, request_id: 69 }),
        value.get(&String::from("MATIC"))
    );
}

#[test]
fn query_test_valid() {
    let mut state = init(InitMsg {});

    relay(&mut state, &["MATIC"], &[112], &[1625108298], &[124]).unwrap();

    let value = cross(&state, "MATIC", "USD", NOW).unwrap();
    assert_eq!(
        ReferenceData {
            rate: 112_000_000_000,
            last_updated_base: 1625108298,
            last_updated_quote: NOW,
        },
        value
    );
}

#[test]
fn mismatched_lengths_leave_store_unchanged() {
    let mut state = init(InitMsg {});
    relay(&mut state, &["ETH"], &[1], &[2], &[3]).unwrap();

    let r = relay(&mut state, &["ETH", "BAND"], &[5], &[6, 7], &[8, 9]);
    assert_eq!(Err(ContractError::DifferentArrayLength {}), r);

    let value = read_all(&state);
    assert_eq!(1, value.refs.len());
    assert_eq!(
        Some(RefData { rate: 1, resolve_time: 2, request_id: 3 }),
        value.get(&String::from("ETH"))
    );
}

#[test]
fn duplicate_symbol_in_batch_last_wins() {
    let mut state = init(InitMsg {});

    relay(&mut state, &["ETH", "ETH"], &[1, 5], &[2, 6], &[3, 7]).unwrap();

    let value = read_all(&state);
    assert_eq!(1, value.refs.len());
    assert_eq!(
        Some(RefData { rate: 5, resolve_time: 6, request_id: 7 }),
        value.get(&String::from("ETH"))
    );
}

#[test]
fn empty_batch_is_accepted() {
    let mut state = init(InitMsg {});

    relay(&mut state, &[], &[], &[], &[]).unwrap();

    let value = read_all(&state);
    assert_eq!(0, value.refs.len());
}

#[test]
fn usd_resolves_fresh() {
    let state = init(InitMsg {});

    let r = get_ref_data(&state, &String::from("USD"), NOW);
    assert_eq!(Ok(RefDataResponse { rate: E9, last_update: NOW }), r);
}

#[test]
fn unresolved_record_is_not_available() {
    let mut state = init(InitMsg {});
    relay(&mut state, &["ETH"], &[42], &[0], &[3]).unwrap();

    let r = get_ref_data(&state, &String::from("ETH"), NOW);
    assert_eq!(Err(ContractError::RefDataNotAvailable {}), r);
}

#[test]
fn unknown_symbol_is_not_available() {
    let state = init(InitMsg {});

    let r = cross(&state, "DOGE", "USD", NOW);
    assert_eq!(Err(ContractError::RefDataNotAvailable {}), r);
}

#[test]
fn usd_identity_cross_rate() {
    let state = init(InitMsg {});

    let value = cross(&state, "USD", "USD", NOW).unwrap();
    assert_eq!(
        ReferenceData { rate: E18, last_updated_base: NOW, last_updated_quote: NOW },
        value
    );
    assert_eq!(1_000_000_000_000_000_000, value.rate);
}

#[test]
fn cross_rate_between_two_relayed_symbols() {
    let mut state = init(InitMsg {});
    relay(&mut state, &["ETH", "BAND"], &[2_000_000_000, 500_000_000], &[10, 20], &[1, 2]).unwrap();

    let value = cross(&state, "ETH", "BAND", NOW).unwrap();
    assert_eq!(
        ReferenceData { rate: 4_000_000_000_000_000_000, last_updated_base: 10, last_updated_quote: 20 },
        value
    );
}

#[test]
fn cross_rate_divides_with_floor() {
    let mut state = init(InitMsg {});
    relay(&mut state, &["A", "B"], &[1, 3], &[10, 20], &[1, 2]).unwrap();

    let value = cross(&state, "A", "B", NOW).unwrap();
    assert_eq!(333_333_333_333_333_333, value.rate);
}

#[test]
fn zero_quote_rate_is_rejected() {
    let mut state = init(InitMsg {});
    relay(&mut state, &["ETH", "ZERO"], &[1, 0], &[2, 3], &[4, 5]).unwrap();

    let r = cross(&state, "ETH", "ZERO", NOW);
    assert_eq!(Err(ContractError::InvalidQuoteRate {}), r);
}

#[test]
fn relay_with_direct_call_matches_handle() {
    let mut state = init(InitMsg {});

    let symbols = vec![String::from("ETH")];
    let r = update_refs(&mut state, &symbols, &vec![1], &vec![2], &vec![3]);
    assert_eq!(Ok(()), r);
    assert_eq!(
        Some(RefData { rate: 1, resolve_time: 2, request_id: 3 }),
        state.get(&String::from("ETH"))
    );
}

#[test]
fn largest_rate_crosses_without_overflow() {
    let mut state = init(InitMsg {});
    relay(&mut state, &["MAX"], &[u64::MAX], &[7], &[8]).unwrap();

    let value = cross(&state, "MAX", "USD", NOW).unwrap();
    let expected = (u64::MAX as u128) * E18 / (E9 as u128);
    assert_eq!(expected, value.rate);
    assert_eq!(7, value.last_updated_base);
    assert_eq!(NOW, value.last_updated_quote);
}

#[test]
fn relayed_usd_record_is_ignored() {
    let mut state = init(InitMsg {});
    relay(&mut state, &["USD"], &[5], &[77], &[9]).unwrap();

    let r = get_ref_data(&state, &String::from("USD"), NOW);
    assert_eq!(Ok(RefDataResponse { rate: E9, last_update: NOW }), r);

    let value = cross(&state, "USD", "USD", NOW).unwrap();
    assert_eq!(E18, value.rate);
}
