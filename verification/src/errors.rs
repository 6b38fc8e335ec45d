use vstd::prelude::*;

verus! {

/// Domain failures that the core surfaces to its callers.
#[derive(Clone, Copy, Debug, PartialEq, Eq, Structural)]
pub enum Error {
    /// A referenced account or strategy is absent.
    NotFound,
    /// An invest amount exceeds the account's free balance.
    InsufficientFunds,
}

} // verus!
