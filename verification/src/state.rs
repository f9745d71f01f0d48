use vstd::prelude::*;
use vstd::pervasive::VecAdditionalExecFns;

verus! {

/// The latest attested rate record for one symbol.
///
/// `rate` is a fixed-point value scaled by 10^9; `resolve_time` is the
/// attestation time in seconds since the epoch, with 0 meaning "never
/// resolved"; `request_id` is a relayer-assigned correlation id, stored
/// verbatim.
#[derive(Clone, Copy, Debug, PartialEq, Eq, Structural)]
pub struct RefData {
    pub rate: u64,
    pub resolve_time: u64,
    pub request_id: u64,
}

/// The persisted store: a mapping from symbol to its latest rate record,
/// kept as a vector of entries with pairwise-distinct keys.
#[derive(Debug)]
pub struct State {
    pub refs: Vec<(String, RefData)>,
}

/// The mapping that a sequence of entries denotes: entries are folded in
/// order, so for a duplicated key the later entry wins.
pub open spec fn entries_map(s: Seq<(String, RefData)>) -> Map<Seq<char>, RefData>
    decreases s.len(),
{
    if s.len() == 0 {
        Map::empty()
    } else {
        entries_map(s.drop_last()).insert(s.last().0@, s.last().1)
    }
}

/// A key that occurs in no entry is absent from the denoted mapping.
proof fn lemma_entries_map_no_key(s: Seq<(String, RefData)>, k: Seq<char>)
    requires
        forall|j: int| 0 <= j < s.len() ==> s[j].0@ != k,
    ensures
        !entries_map(s).contains_key(k),
    decreases s.len(),
{
    if s.len() > 0 {
        lemma_entries_map_no_key(s.drop_last(), k);
    }
}

/// An entry whose key has no later occurrence gives the denoted mapping's
/// value at that key.
proof fn lemma_entries_map_found(s: Seq<(String, RefData)>, i: int, k: Seq<char>)
    requires
        0 <= i < s.len(),
        s[i].0@ == k,
        forall|j: int| i < j < s.len() ==> s[j].0@ != k,
    ensures
        entries_map(s).contains_key(k),
        entries_map(s)[k] == s[i].1,
    decreases s.len(),
{
    if i < s.len() - 1 {
        lemma_entries_map_found(s.drop_last(), i, k);
    }
}

/// Replacing the one entry that holds a key denotes the same mapping as
/// inserting the replacement into the denoted mapping.
proof fn lemma_entries_map_update(s: Seq<(String, RefData)>, i: int, e: (String, RefData))
    requires
        0 <= i < s.len(),
        e.0@ == s[i].0@,
        forall|j: int| 0 <= j < s.len() && j != i ==> s[j].0@ != s[i].0@,
    ensures
        entries_map(s.update(i, e)) == entries_map(s).insert(e.0@, e.1),
    decreases s.len(),
{
    let t = s.drop_last();
    if i == s.len() - 1 {
        assert(s.update(i, e).drop_last() =~= t);
        assert(entries_map(t).insert(s.last().0@, s.last().1).insert(e.0@, e.1)
            =~= entries_map(t).insert(e.0@, e.1));
    } else {
        assert(s.update(i, e).drop_last() =~= t.update(i, e));
        lemma_entries_map_update(t, i, e);
        assert(entries_map(t).insert(e.0@, e.1).insert(s.last().0@, s.last().1)
            =~= entries_map(t).insert(s.last().0@, s.last().1).insert(e.0@, e.1));
    }
}

/// Appending an entry denotes inserting it into the denoted mapping.
proof fn lemma_entries_map_push(s: Seq<(String, RefData)>, e: (String, RefData))
    ensures
        entries_map(s.push(e)) == entries_map(s).insert(e.0@, e.1),
{
    assert(s.push(e).drop_last() =~= s);
}

impl View for State {
    type V = Map<Seq<char>, RefData>;

    open spec fn view(&self) -> Map<Seq<char>, RefData> {
        entries_map(self.refs@)
    }
}

impl State {
    /// Well-formedness: no symbol occurs twice among the entries.
    pub open spec fn wf(&self) -> bool {
        forall|i: int, j: int|
            0 <= i < j < self.refs@.len() ==> self.refs@[i].0@ != self.refs@[j].0@
    }

    /// Creates an empty store.
    pub fn new() -> (r: State)
        ensures
            r.wf(),
            r@ == Map::<Seq<char>, RefData>::empty(),
    {
        State { refs: Vec::new() }
    }

    /// Finds the position of the entry that holds the symbol, if any.
    fn find(&self, symbol: &String) -> (r: Option<usize>)
        ensures
            match r {
                Some(i) => i < self.refs@.len() && self.refs@[i as int].0@ == symbol@,
                None => forall|j: int| 0 <= j < self.refs@.len() ==> self.refs@[j].0@ != symbol@,
            },
    {
        let n = self.refs.len();
        for i in 0..n
            invariant
                n == self.refs@.len(),
                forall|j: int| 0 <= j < i ==> self.refs@[j].0@ != symbol@,
        {
            if self.refs[i].0.eq(symbol) {
                return Some(i);
            }
        }
        None
    }

    /// Looks the symbol up in the mapping.
    pub fn get(&self, symbol: &String) -> (r: Option<RefData>)
        requires
            self.wf(),
        ensures
            match r {
                Some(d) => self@.contains_key(symbol@) && self@[symbol@] == d,
                None => !self@.contains_key(symbol@),
            },
    {
        match self.find(symbol) {
            Some(i) => {
                let d = self.refs[i].1;
                proof {
                    lemma_entries_map_found(self.refs@, i as int, symbol@);
                }
                Some(d)
            },
            None => {
                proof {
                    lemma_entries_map_no_key(self.refs@, symbol@);
                }
                None
            },
        }
    }

    /// Inserts or fully replaces the record for the symbol: no merge, the
    /// new record stands alone.
    pub fn insert(&mut self, symbol: String, data: RefData)
        requires
            old(self).wf(),
        ensures
            final(self).wf(),
            final(self)@ == old(self)@.insert(symbol@, data),
    {
        match self.find(&symbol) {
            Some(i) => {
                proof {
                    lemma_entries_map_update(self.refs@, i as int, (symbol, data));
                }
                self.refs.set(i, (symbol, data));
            },
            None => {
                proof {
                    lemma_entries_map_push(self.refs@, (symbol, data));
                }
                self.refs.push((symbol, data));
            },
        }
    }
}

} // verus!
