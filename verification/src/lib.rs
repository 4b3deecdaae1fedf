//! Verified core of the Mars periphery contracts: a Merkle-proof airdrop with
//! a signature check and an at-most-once claim ledger, token vesting math, a
//! delegation splitter, and a liquidation funds filter.
//!
//! Storage, message dispatch and asset transfers live outside this crate; the
//! functions here take plain values (balances, timestamps, validator lists)
//! and return the decisions and instructions the host is meant to carry out.

pub mod airdrop;
pub mod bytes;
pub mod coin;
pub mod crypto;
pub mod delegator;
pub mod hex;
pub mod liquidation;
pub mod num;
pub mod table;
pub mod version;
pub mod vesting;
