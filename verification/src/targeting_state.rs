//! The targeting sub-mode: while an ability awaits a target, directional
//! movement input is suppressed and only confirmation or cancel is accepted.

use vstd::prelude::*;

verus! {

#[derive(Clone, Copy, Debug, PartialEq, Eq, Structural)]
pub enum TargetingState {
    Inactive,
    SelectingDashTarget,
    SelectingFireballTarget,
}

impl TargetingState {
    pub open spec fn spec_is_targeting(self) -> bool {
        self != TargetingState::Inactive
    }

    /// Whether an ability currently awaits a target.
    pub fn is_targeting(&self) -> (r: bool)
        ensures
            r == self.spec_is_targeting(),
    {
        *self != TargetingState::Inactive
    }
}

} // verus!
