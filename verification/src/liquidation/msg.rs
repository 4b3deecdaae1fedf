//! Boundary messages of the liquidation filterer.

use vstd::prelude::*;
use crate::liquidation::types::Liquidate;

verus! {

pub struct InstantiateMsg {
    /// Contract owner.
    pub owner: String,
    /// Address provider; returns addresses for all protocol contracts.
    pub address_provider: String,
}

/// State-changing calls.
pub enum ExecuteMsg {
    /// Update the contract config. Owner only.
    UpdateConfig { owner: Option<String>, address_provider: Option<String> },
    /// Liquidate many positions in one batch.
    LiquidateMany { liquidations: Vec<Liquidate> },
    /// Withdraw all coins held by the contract to the designated recipient.
    Refund { recipient: String },
}

/// Read-only calls.
pub enum QueryMsg {
    /// The contract config; answered with `Config`.
    Config {},
}

} // verus!
