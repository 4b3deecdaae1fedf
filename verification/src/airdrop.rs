//! The airdrop: holders of a source-chain account prove, by signature and by
//! Merkle inclusion, that they are entitled to an allocation, and claim it at
//! most once; after a deadline the residual balance can be swept to the
//! community pool.

pub mod contract;
pub mod crypto;
pub mod msg;
pub mod state;
pub mod types;
