//! An amount of a native token, the unit every transfer instruction is
//! denominated in.

use vstd::prelude::*;

verus! {

#[derive(Clone, Debug)]
pub struct Coin {
    pub denom: String,
    pub amount: u128,
}

} // verus!
