//! Waiting for the count of an alarm filter to meet a condition.
use vstd::prelude::*;

verus! {

/// What the count of an alarm filter is waited to do.
#[derive(Debug, Clone, Copy, PartialEq, Eq, Structural)]
pub enum AlarmCondition {
    /// No alarm is counted.
    NoAlarm,
    /// At least one alarm is counted.
    Any,
    /// More alarms are counted than before.
    Inc,
    /// Fewer alarms are counted than before.
    Dec,
}

impl AlarmCondition {
    /// Whether a count meets the condition, given the count seen before, if
    /// any. Without an earlier count `Inc` and `Dec` are not met.
    pub open spec fn holds(self, new_count: u32, old_count: Option<u32>) -> bool {
        match self {
            AlarmCondition::NoAlarm => new_count == 0,
            AlarmCondition::Any => new_count > 0,
            AlarmCondition::Inc => old_count matches Some(v) && new_count > v,
            AlarmCondition::Dec => old_count matches Some(v) && new_count < v,
        }
    }

    /// Whether a count meets the condition, given the count seen before, if
    /// any.
    pub fn check(&self, new_count: u32, old_count: Option<u32>) -> (r: bool)
        ensures
            r == self.holds(new_count, old_count),
    {
        match self {
            AlarmCondition::NoAlarm => new_count == 0,
            AlarmCondition::Any => new_count > 0,
            AlarmCondition::Inc => match old_count {
                Some(v) => new_count > v,
                None => false,
            },
            AlarmCondition::Dec => match old_count {
                Some(v) => new_count < v,
                None => false,
            },
        }
    }
}

/// Waits until the count of an alarm filter meets a condition.
#[derive(Debug)]
pub struct WaitAlarmAction {
    pub filter_name: String,
    pub condition: AlarmCondition,
}

impl WaitAlarmAction {
    pub fn new(filter_name: String, condition: AlarmCondition) -> (r: WaitAlarmAction)
        ensures
            r.filter_name == filter_name,
            r.condition == condition,
    {
        WaitAlarmAction { filter_name, condition }
    }
}

} // verus!
