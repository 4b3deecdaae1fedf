//! Boundary messages of the delegator.

use vstd::prelude::*;

verus! {

pub struct InstantiateMsg {
    /// Denomination of the coin that will be staked.
    pub bond_denom: String,
}

/// The contract's configuration.
pub struct Config {
    /// Denomination of the coin that will be staked.
    pub bond_denom: String,
    /// The ending time for the delegation program, as UNIX timestamp; once
    /// elapsed, anyone can unbond the delegations.
    pub ending_time: u64,
}

/// Privileged calls.
pub enum SudoMsg {
    /// Delegate the tokens the contract holds evenly to the validator set.
    Bond {},
    /// Forcibly unbond the delegations, ignoring the ending time.
    ForceUnbond {},
}

/// State-changing calls.
pub enum ExecuteMsg {
    /// Unbond the delegations; open to anyone once the ending time is
    /// reached.
    Unbond {},
    /// Donate all coins held by the contract to the community pool.
    Refund {},
}

/// Read-only calls.
pub enum QueryMsg {
    /// The contract's configuration; answered with `ConfigResponse`.
    Config {},
}

pub struct ConfigResponse {
    /// Denomination of the coin that will be staked.
    pub bond_denom: String,
    /// The ending time for the delegation program; absent until set.
    pub ending_time: Option<u64>,
}

} // verus!
