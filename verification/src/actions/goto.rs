//! Changing the state of a state machine.
use vstd::prelude::*;

verus! {

/// Makes a state machine go to one of its states. The machine is named by
/// its place in the list of machines, the state by its place in the machine.
#[derive(Debug, Clone, Copy, PartialEq, Eq, Structural)]
pub struct GotoAction {
    pub state_index: usize,
    pub state_machine: usize,
}

/// A change of state that an action asks for.
#[derive(Debug, Clone, Copy, PartialEq, Eq, Structural)]
pub struct GotoRequest {
    pub state_machine: usize,
    pub state_index: usize,
}

impl GotoAction {
    pub fn new(state_index: usize, state_machine: usize) -> (r: GotoAction)
        ensures
            r.state_index == state_index,
            r.state_machine == state_machine,
    {
        GotoAction { state_index, state_machine }
    }

    /// The change of state to ask for.
    pub fn run(&self) -> (r: GotoRequest)
        ensures
            r.state_machine == self.state_machine,
            r.state_index == self.state_index,
    {
        GotoRequest { state_machine: self.state_machine, state_index: self.state_index }
    }
}

} // verus!
