//! The life cycle that every stage follows.
use vstd::prelude::*;

verus! {

/// A stage runs, then drains, then is stopped; it never goes back.
#[derive(Debug, Clone, Copy, PartialEq, Eq, Structural)]
pub enum Phase {
    /// The stage handles items.
    Running,
    /// The stage hands out no further item and is about to end.
    Draining,
    /// The stage has ended.
    Stopped,
}

impl Phase {
    /// The place of a phase in the life cycle.
    pub open spec fn rank(self) -> nat {
        match self {
            Phase::Running => 0,
            Phase::Draining => 1,
            Phase::Stopped => 2,
        }
    }
}

} // verus!
