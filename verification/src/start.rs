//! How far the start of a source or a sink has come.

use vstd::prelude::*;

verus! {

/// A source or a sink is started once, before anything else is asked of it.
#[derive(Clone, Copy, Debug, PartialEq, Eq, Structural)]
pub enum StartPhase {
    NotBegun,
    Running,
    Succeeded,
    Failed,
}

impl StartPhase {
    /// Whether the start is over, for better or worse.
    pub open spec fn is_over(self) -> bool {
        self == StartPhase::Succeeded || self == StartPhase::Failed
    }

    /// The phase after a start that came to this.
    pub open spec fn after<E>(outcome: Result<(), E>) -> Self {
        match outcome {
            Ok(_) => StartPhase::Succeeded,
            Err(_) => StartPhase::Failed,
        }
    }

    /// Whether the start is over, for better or worse.
    pub fn over(self) -> (over: bool)
        ensures
            over == self.is_over(),
    {
        self == StartPhase::Succeeded || self == StartPhase::Failed
    }
}

/// A start that came to something is over, and has succeeded if and only if that was a success; one
/// that has not begun or is running is not over.
pub proof fn law_a_start_is_over_once_it_came_to_something<E>(outcome: Result<(), E>)
    ensures
        StartPhase::after(outcome).is_over(),
        StartPhase::after(outcome) == StartPhase::Succeeded <==> outcome is Ok,
        StartPhase::after(outcome) == StartPhase::Failed <==> outcome is Err,
        !StartPhase::NotBegun.is_over(),
        !StartPhase::Running.is_over(),
{
}

} // verus!
