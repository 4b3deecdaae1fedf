//! Error taxonomy and the instruction values the airdrop hands back to its
//! host for execution.

use vstd::prelude::*;
use crate::coin::Coin;

verus! {

/// Why an airdrop operation was refused.
#[derive(Clone, Copy, Debug, PartialEq, Eq, Structural)]
pub enum AirdropError {
    /// Malformed hex input, or a byte length that does not fit the expected
    /// encoding.
    DecodeError,
    /// The source account already holds a claim record.
    AlreadyClaimed,
    /// The signature is well-formed but does not verify.
    InvalidSignature,
    /// The Merkle proof is well-formed but does not reach the root.
    InvalidProof,
    /// Clawback attempted before the deadline.
    DeadlineNotReached,
}

/// Instruction to the host chain's distribution module.
#[derive(Debug)]
pub enum MarsMsg {
    /// Move `amount` into the community pool.
    FundCommunityPool { amount: Vec<Coin> },
}

} // verus!
