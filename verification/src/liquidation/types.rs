//! Data model of the liquidation filterer and the instruction values it
//! hands back to its host.

use vstd::prelude::*;
use crate::coin::Coin;

verus! {

/// Global configuration.
pub struct Config {
    /// Contract owner.
    pub owner: String,
    /// Address provider; returns addresses for all protocol contracts.
    pub address_provider: String,
}

/// Liquidate one under-collateralized native loan. The coins used to repay
/// must be sent along with the batch this is part of.
#[derive(Debug)]
pub struct Liquidate {
    /// Denom of the collateral asset the liquidator gets from the borrower.
    pub collateral_denom: String,
    /// Denom of the debt asset.
    pub debt_denom: String,
    /// The borrower being liquidated.
    pub user_address: String,
    /// The amount of debt repaid.
    pub amount: u128,
}

/// One liquidation call to the red bank, funded with `amount` of the debt
/// asset; replies are requested under `reply_id`.
#[derive(Debug)]
pub struct LiquidateInstruction {
    /// The red bank contract to call.
    pub red_bank: String,
    pub collateral_denom: String,
    pub user_address: String,
    /// Receiver of the underlying collateral.
    pub recipient: String,
    pub debt_denom: String,
    pub amount: u128,
    pub reply_id: u64,
}

/// Instruction to the host chain's bank module.
#[derive(Debug)]
pub struct BankSend {
    pub to_address: String,
    pub amount: Vec<Coin>,
}

} // verus!
