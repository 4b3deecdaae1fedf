//! Data model and boundary messages of the vesting contract.

use vstd::prelude::*;

verus! {

/// A linear schedule with a cliff.
#[derive(Clone, Copy, Debug, PartialEq, Eq, Structural)]
pub struct Schedule {
    /// Time when vesting/unlocking starts.
    pub start_time: u64,
    /// Seconds from `start_time` before which nothing is vested/unlocked.
    pub cliff: u64,
    /// Seconds from `start_time` until the tokens are vested/unlocked in
    /// full.
    pub duration: u64,
}

/// One recipient's vesting position.
#[derive(Clone, Copy, Debug, PartialEq, Eq, Structural)]
pub struct Position {
    /// Total amount of tokens allocated.
    pub total: u128,
    /// Amount already withdrawn.
    pub withdrawn: u128,
    /// The recipient's vesting schedule.
    pub vest_schedule: Schedule,
}

/// The contract's configuration.
#[derive(Debug)]
pub struct Config {
    /// The contract's owner.
    pub owner: String,
    /// Denomination of the token being vested.
    pub denom: String,
    /// Schedule on which tokens unlock; the same for all recipients.
    pub unlock_schedule: Schedule,
}

/// Schema migrations, one per historical version step.
pub enum MigrateMsg {
    /// The configuration gains its own record, assembled from the fields
    /// the first layout kept separately.
    V1_0_0ToV1_1_0 {},
    /// Position totals are corrected downwards and the difference is
    /// reclaimed by the owner.
    V1_1_0ToV1_1_1(V1_1_1Updates),
}

/// The corrections one migration applies.
pub struct V1_1_1Updates {
    /// The positions to alter.
    pub position_alterations: Vec<PositionAlteration>,
    /// Total amount expected to be reclaimed over all alterations.
    pub total_reclaim: u128,
}

/// One position's correction.
#[derive(Debug)]
pub struct PositionAlteration {
    /// The recipient whose position is altered.
    pub addr: String,
    /// Total allocated before; must match the stored position.
    pub total_old: u128,
    /// Total allocated after.
    pub total_new: u128,
    /// Amount reclaimed; must equal `total_old - total_new`.
    pub reclaim: u128,
}

/// Why a payment attached to a call was refused.
#[derive(Debug, PartialEq, Eq)]
pub enum PaymentError {
    /// No coin, or a coin of amount zero, was attached.
    NoFunds,
    /// More than one coin was attached.
    MultipleDenoms,
    /// The attached coin has the wrong denomination.
    MissingDenom(String),
}

/// Why a vesting operation was refused.
#[derive(Debug, PartialEq, Eq)]
pub enum Error {
    /// The caller is not the owner.
    NotOwner,
    /// A vesting position already exists for this user.
    PositionExists,
    /// No vesting position exists for this user.
    PositionNotFound,
    /// The withdrawable amount is zero.
    ZeroWithdrawable,
    /// The attached payment was refused.
    Payment(PaymentError),
    /// A migration addressed the wrong contract or version.
    Version(crate::version::VersionError),
    /// Checked arithmetic in a migration overflowed.
    Overflow,
}

/// State-changing calls.
pub enum ExecuteMsg {
    /// Replace the contract's configuration. Owner only.
    UpdateConfig { new_cfg: Config },
    /// Create a vesting position for `user`, funded by the attached
    /// payment. Owner only.
    CreatePosition { user: String, vest_schedule: Schedule },
    /// Terminate `user`'s position, reclaiming the unvested tokens. Owner
    /// only.
    TerminatePosition { user: String },
    /// Withdraw the caller's vested and unlocked tokens.
    Withdraw {},
}

/// Read-only calls.
pub enum QueryMsg {
    /// The contract's configuration; answered with `Config`.
    Config {},
    /// Tokens of one recipient still locked in the contract; answered with
    /// `VotingPowerResponse`.
    VotingPower { user: String },
    /// Enumerate recipients with their locked tokens; answered with
    /// `Vec<VotingPowerResponse>`.
    VotingPowers { start_after: Option<String>, limit: Option<u32> },
    /// Details of one position at a given time; answered with
    /// `PositionResponse`.
    Position { user: String },
    /// Enumerate positions with their details; answered with
    /// `Vec<PositionResponse>`.
    Positions { start_after: Option<String>, limit: Option<u32> },
}

/// A recipient and the tokens still locked for them.
pub struct VotingPowerResponse {
    pub user: String,
    /// `total - withdrawn` of the recipient's position.
    pub voting_power: u128,
}

/// One position with its amounts computed at a given time.
#[derive(Debug)]
pub struct PositionResponse {
    pub user: String,
    /// Total amount allocated.
    pub total: u128,
    /// Amount vested so far under the position's schedule.
    pub vested: u128,
    /// Amount unlocked so far under the global schedule.
    pub unlocked: u128,
    /// Amount already withdrawn.
    pub withdrawn: u128,
    /// Amount withdrawable now: the smaller of vested and unlocked, minus
    /// what was withdrawn.
    pub withdrawable: u128,
    /// The position's vesting schedule.
    pub vest_schedule: Schedule,
}

} // verus!
