//! Token vesting: positions vest linearly after a cliff, unlock on a global
//! schedule, and can be withdrawn up to the smaller of the two, terminated
//! by the owner, and enumerated.

pub mod contract;
pub mod helpers;
pub mod migrations;
pub mod msg;
pub mod state;
