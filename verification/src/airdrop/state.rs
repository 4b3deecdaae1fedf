//! Persistent state of the airdrop: the committed Merkle root, the clawback
//! deadline, and the claim ledger keyed by source account.

use vstd::prelude::*;
use crate::table::StrTable;

verus! {

/// The whole persistent state; owned exclusively by the contract.
pub struct AirdropState {
    /// Root of the Merkle tree, in hex encoding. Set once; immutable.
    pub merkle_root: String,
    /// UNIX timestamp after which unclaimed tokens can be swept to the
    /// community pool. Set once; immutable.
    pub deadline: u64,
    /// The amount each source account has claimed. Records are created on
    /// first attempt and never removed or changed.
    pub claimed: StrTable<u128>,
}

impl AirdropState {
    pub open spec fn wf(&self) -> bool {
        self.claimed.wf()
    }
}

} // verus!
