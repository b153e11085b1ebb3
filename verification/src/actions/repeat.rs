//! Running an action again and again.
use crate::actions::action::Action;
use crate::event_limit::EventLimit;
use vstd::prelude::*;

verus! {

/// Runs an action a number of times, or without end if no number is given.
/// Without a number, every round counts as an event of the limiter, and the
/// action fails when the rounds follow each other too fast.
pub struct RepeatAction {
    pub action: Box<Action>,
    pub count: Option<u32>,
    pub repeat_limit: EventLimit,
}

impl RepeatAction {
    pub fn new(action: Action, count: Option<u32>, repeat_limit: EventLimit) -> (r: RepeatAction)
        ensures
            *r.action == action,
            r.count == count,
            r.repeat_limit@ == repeat_limit@,
    {
        RepeatAction { action: Box::new(action), count, repeat_limit }
    }
}

} // verus!
