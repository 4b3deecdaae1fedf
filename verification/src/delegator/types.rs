//! Instruction values the delegator hands back to its host for execution.

use vstd::prelude::*;
use crate::coin::Coin;

verus! {

/// Instruction to the host chain's staking module.
#[derive(Debug)]
pub enum StakingMsg {
    Delegate { validator: String, amount: Coin },
    Undelegate { validator: String, amount: Coin },
    Redelegate { src_validator: String, dst_validator: String, amount: Coin },
}

/// One existing delegation, as reported by the host.
#[derive(Debug)]
pub struct Delegation {
    pub validator: String,
    pub amount: Coin,
}

/// Instruction to the host chain's distribution module.
#[derive(Debug)]
pub enum MarsMsg {
    /// Move `amount` into the community pool.
    FundCommunityPool { amount: Vec<Coin> },
}

} // verus!
