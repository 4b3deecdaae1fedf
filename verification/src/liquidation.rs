//! The liquidation filterer: batches liquidation calls to the red bank,
//! checking that the funds sent in cover every batched repayment, and
//! refunds whatever the contract holds afterwards.

pub mod contract;
pub mod error;
pub mod msg;
pub mod state;
pub mod types;
