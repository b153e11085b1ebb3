//! Waiting for a time to pass.
use vstd::prelude::*;

verus! {

/// Waits for a time, given in milliseconds.
#[derive(Debug, Clone, Copy, PartialEq, Eq, Structural)]
pub struct WaitAction {
    pub timeout: u64,
}

/// The time at which a wait that starts at `now` is over; the end of time
/// if that lies beyond it.
pub open spec fn deadline_after(now: u64, timeout: u64) -> u64 {
    if now + timeout > u64::MAX {
        u64::MAX
    } else {
        (now + timeout) as u64
    }
}

impl WaitAction {
    pub fn new(timeout: u64) -> (r: WaitAction)
        ensures
            r.timeout == timeout,
    {
        WaitAction { timeout }
    }

    /// The time at which a wait that starts at `now` is over.
    pub fn run(&self, now: u64) -> (deadline: u64)
        ensures
            deadline == deadline_after(now, self.timeout),
    {
        now.saturating_add(self.timeout)
    }
}

} // verus!
