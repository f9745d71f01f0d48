use vstd::prelude::*;
use crate::state::{RefData, State};

verus! {

/// The initialization command: it carries no parameters.
#[derive(Clone, Debug, PartialEq, Eq, Structural)]
pub struct InitMsg {}

/// Commands on the write path.
#[derive(Clone, Debug)]
pub enum HandleMsg {
    Relay {
        symbols: Vec<String>,
        rates: Vec<u64>,
        resolve_times: Vec<u64>,
        request_ids: Vec<u64>,
    },
}

/// Queries on the read path.
#[derive(Clone, Debug)]
pub enum QueryMsg {
    GetRefs {},
    GetReferenceData { base: String, quote: String },
}

/// One resolved point rate: a fixed-point rate scaled by 10^9 and the
/// time at which it was last updated.
#[derive(Clone, Copy, Debug, PartialEq, Eq, Structural)]
pub struct RefDataResponse {
    pub rate: u64,
    pub last_update: u64,
}

/// A resolved cross-rate, scaled by 10^18, with the update times of the
/// base and quote records it was computed from.
#[derive(Clone, Copy, Debug, PartialEq, Eq, Structural)]
pub struct ReferenceData {
    pub rate: u128,
    pub last_updated_base: u64,
    pub last_updated_quote: u64,
}

/// The answer to a query: the full store for `GetRefs`, a cross-rate for
/// `GetReferenceData`.
#[derive(Debug)]
pub enum QueryResponse {
    Refs(State),
    ReferenceData(ReferenceData),
}

} // verus!
