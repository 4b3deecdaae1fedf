//! One module per historical version step; each migration first asserts
//! the exact contract and version it transforms.

pub mod v1_1_0;
pub mod v1_1_1;
