//! Kinds of alarm events and the description of a set of alarms by class,
//! id and priority.
use std::ops::Range;
use vstd::prelude::*;

verus! {

/// What happens to the alarms as a whole when one alarm changes.
#[derive(Debug, Clone, Copy, PartialEq, Eq, Structural)]
pub enum AlarmEvent {
    /// An alarm is raised when no other alarm is raised.
    FirstRaised,
    /// An alarm is raised.
    Raised,
    /// An alarm is cleared.
    Cleared,
    /// The last raised alarm is cleared.
    LastCleared,
    /// An alarm is acknowledged.
    Acked,
    /// The last unacknowledged alarm is acknowledged.
    LastAcked,
}

/// A set of alarms described by their classes, their ids and a range of
/// priorities.
#[derive(Debug)]
pub struct AlarmFilter {
    pub class: Vec<u32>,
    pub id: Vec<u32>,
    pub priority: Range<u32>,
}

} // verus!
