use vstd::prelude::*;

use crate::protocol::text::same_text;

verus! {

/// The lifecycle state of a component.
#[derive(Debug, Clone, Copy, PartialEq, Eq, Structural)]
pub enum LifecycleState {
    /// The component is in the `RUNNING` state.
    Running,
    /// The component is in the `ERRORED` state.
    Errored,
}

impl LifecycleState {
    /// The name that stands for the state in a payload.
    pub open spec fn spec_name(self) -> Seq<char> {
        match self {
            LifecycleState::Running => "RUNNING"@,
            LifecycleState::Errored => "ERRORED"@,
        }
    }

    /// The state that `name` stands for, if it stands for one.
    pub open spec fn of_name(name: Seq<char>) -> Option<LifecycleState> {
        if name == "RUNNING"@ {
            Some(LifecycleState::Running)
        } else if name == "ERRORED"@ {
            Some(LifecycleState::Errored)
        } else {
            None
        }
    }

    /// The name that stands for the state in a payload.
    pub fn name(&self) -> (r: &'static str)
        ensures
            r@ == self.spec_name(),
    {
        match self {
            LifecycleState::Running => "RUNNING",
            LifecycleState::Errored => "ERRORED",
        }
    }

    /// The state that `name` stands for, if it stands for one.
    pub fn from_name(name: &str) -> (r: Option<LifecycleState>)
        ensures
            r == LifecycleState::of_name(name@),
    {
        if same_text(name, "RUNNING") {
            Some(LifecycleState::Running)
        } else if same_text(name, "ERRORED") {
            Some(LifecycleState::Errored)
        } else {
            None
        }
    }
}

/// Every state is the one that its name stands for.
pub proof fn lemma_lifecycle_state_name(state: LifecycleState)
    ensures
        LifecycleState::of_name(state.spec_name()) == Some(state),
{
    reveal_strlit("RUNNING");
    reveal_strlit("ERRORED");
    assert("RUNNING"@[0] == 'R');
    assert("ERRORED"@[0] == 'E');
}

} // verus!
