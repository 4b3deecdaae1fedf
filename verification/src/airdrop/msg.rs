//! Boundary messages of the airdrop, and the two canonical encodings every
//! claim is checked against: the signed message and the Merkle leaf.

use vstd::prelude::*;
use vstd::string::StringExecFns;
use crate::num::{dec_chars, u128_to_string};

verus! {

/// Parameters fixed once at creation.
pub struct InstantiateMsg {
    /// Root of the Merkle tree, in hex encoding; each leaf is the SHA-256
    /// hash of the string `{terra_acct}:{amount}`.
    pub merkle_root: String,
    /// Seconds from creation until unclaimed tokens become sweepable.
    pub claim_period: u64,
}

/// State-changing calls.
pub enum ExecuteMsg {
    /// Claim an airdrop.
    ///
    /// - `terra_acct_pk`: public key of the source-chain token holder, hex
    ///   encoded
    /// - `mars_acct`: destination account the claimed tokens go to
    /// - `amount`: amount of tokens claimed
    /// - `proof`: sibling hashes showing leaf `{terra_acct}:{amount}` under
    ///   the committed root, hex encoded
    /// - `signature`: signature of the canonical claim message by the source
    ///   account's key, hex encoded
    Claim {
        terra_acct_pk: String,
        mars_acct: String,
        amount: u128,
        proof: Vec<String>,
        signature: String,
    },
}

/// Privileged calls.
pub enum SudoMsg {
    /// Reclaim unclaimed tokens to the community pool once the deadline has
    /// passed.
    Clawback {},
}

/// Read-only calls.
pub enum QueryMsg {
    /// The contract's config; answered with `ConfigResponse`.
    Config {},
    /// The amount a given account has claimed; answered with
    /// `ClaimedResponse`.
    Claimed { terra_acct: String },
    /// Enumerate accounts that have claimed, in ascending key order;
    /// answered with `Vec<ClaimedResponse>`.
    AllClaimed { start_after: Option<String>, limit: Option<u32> },
    /// Dry-run of the signature check; answered with `bool`.
    VerifySignature { terra_acct_pk: String, mars_acct: String, amount: u128, signature: String },
    /// Dry-run of the Merkle proof check; answered with `bool`.
    VerifyProof { terra_acct: String, amount: u128, proof: Vec<String> },
}

/// The committed root and the clawback deadline.
#[derive(Debug)]
pub struct ConfigResponse {
    pub merkle_root: String,
    /// UNIX timestamp after which unclaimed tokens can be swept.
    pub deadline: u64,
}

/// One claim record.
#[derive(Debug)]
pub struct ClaimedResponse {
    /// The source-chain account address.
    pub terra_acct: String,
    /// The amount this account has claimed.
    pub amount: u128,
}

/// The canonical message that must carry the claimer's signature.
pub open spec fn spec_claim_msg(terra_acct: Seq<char>, mars_acct: Seq<char>, amount: u128) -> Seq<
    char,
> {
    "airdrop for "@ + terra_acct + " of "@ + dec_chars(amount as nat)
        + " umars shall be released to "@ + mars_acct
}

/// Builds the message that needs to be signed by the source account's key.
pub fn msg(terra_acct: &str, mars_acct: &str, amount: u128) -> (r: String)
    ensures
        r@ == spec_claim_msg(terra_acct@, mars_acct@, amount),
{
    let mut s = String::new();
    s.append("airdrop for ");
    s.append(terra_acct);
    s.append(" of ");
    let dec = u128_to_string(amount);
    s.append(dec.as_str());
    s.append(" umars shall be released to ");
    s.append(mars_acct);
    s
}

/// The canonical encoding of one entitlement entry; its SHA-256 hash is the
/// Merkle leaf.
pub open spec fn spec_leaf(terra_acct: Seq<char>, amount: u128) -> Seq<char> {
    terra_acct + ":"@ + dec_chars(amount as nat)
}

/// Builds the string whose hash is the Merkle leaf for one entry.
pub fn leaf(terra_acct: &str, amount: u128) -> (r: String)
    ensures
        r@ == spec_leaf(terra_acct@, amount),
{
    let mut s = String::new();
    s.append(terra_acct);
    s.append(":");
    let dec = u128_to_string(amount);
    s.append(dec.as_str());
    s
}

} // verus!
