//! Persistent state of the liquidation filterer: its configuration.

use vstd::prelude::*;
use crate::liquidation::types::Config;

verus! {

pub struct LiquidationState {
    pub config: Config,
}

} // verus!
