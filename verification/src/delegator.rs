//! The delegator: stakes the tokens the contract holds evenly across the
//! validator set, unbonds them after an ending time (or early by
//! governance), and refunds leftovers to the community pool.

pub mod error;
pub mod execute;
pub mod msg;
pub mod state;
pub mod types;
