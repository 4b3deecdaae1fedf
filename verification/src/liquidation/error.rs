//! Error taxonomy of the liquidation filterer.

use vstd::prelude::*;

verus! {

#[derive(Debug, PartialEq, Eq)]
pub enum ContractError {
    /// The caller may not perform this action.
    Unauthorized,
    /// The funds sent in do not cover the batch; the reason names the first
    /// missing or short denomination.
    InvalidFunds { reason: String },
}

} // verus!
