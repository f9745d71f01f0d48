use vstd::prelude::*;

verus! {

/// Typed failures of the reference store and the resolver.
#[derive(Clone, Copy, Debug, PartialEq, Eq, Structural)]
pub enum ContractError {
    Unauthorized {},
    /// The four batch arrays handed to a relay do not all have the same length.
    DifferentArrayLength {},
    /// A queried symbol was never relayed, or its record was never resolved.
    RefDataNotAvailable {},
    /// The quote side of a cross-rate query carries a rate of zero.
    InvalidQuoteRate {},
}

} // verus!
