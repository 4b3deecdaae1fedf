//! Persistent state of the delegator: its configuration.

use vstd::prelude::*;
use crate::delegator::msg::Config;

verus! {

pub struct DelegatorState {
    pub config: Config,
}

} // verus!
