//! Error taxonomy of the delegator.

use vstd::prelude::*;

verus! {

#[derive(Debug, PartialEq, Eq)]
pub enum ContractError {
    /// The contract holds no coin to be bonded.
    NothingToBond,
    /// The contract holds no coin to be refunded.
    NothingToRefund,
    /// Unbonding attempted before the ending time.
    EndingTimeNotReached { ending_time: u64, current_time: u64 },
    /// A migration addressed a different contract.
    IncorrectContract { expect: String, found: String },
    /// A migration started from a different version.
    IncorrectVersion { expect: String, found: String },
}

impl ContractError {
    pub fn ending_time_not_reached(ending_time: u64, current_time: u64) -> (r: Self)
        ensures
            r matches ContractError::EndingTimeNotReached { ending_time: e, current_time: c } && e
                == ending_time && c == current_time,
    {
        ContractError::EndingTimeNotReached { ending_time, current_time }
    }

    pub fn incorrect_contract(expect: String, found: String) -> (r: Self)
        ensures
            r matches ContractError::IncorrectContract { expect: e, found: f } && e == expect && f
                == found,
    {
        ContractError::IncorrectContract { expect, found }
    }

    pub fn incorrect_version(expect: String, found: String) -> (r: Self)
        ensures
            r matches ContractError::IncorrectVersion { expect: e, found: f } && e == expect && f
                == found,
    {
        ContractError::IncorrectVersion { expect, found }
    }
}

} // verus!
