//! Persistent state of the vesting contract: the configuration and the
//! positions keyed by recipient.

use vstd::prelude::*;
use crate::table::{spec_lookup, StrTable};
use crate::vesting::msg::{Config, Position};

verus! {

pub struct VestingState {
    pub config: Config,
    pub positions: StrTable<Position>,
}

impl VestingState {
    /// Positions sorted by key, and no position over-withdrawn.
    pub open spec fn wf(&self) -> bool {
        self.positions.wf() && forall|i: int|
            0 <= i < self.positions@.len() ==> (#[trigger] self.positions@[i].1).withdrawn
                <= self.positions@[i].1.total
    }

    /// The position of `user`, if any.
    pub open spec fn spec_position(&self, user: Seq<char>) -> Option<Position> {
        spec_lookup(self.positions@, user)
    }
}

} // verus!
