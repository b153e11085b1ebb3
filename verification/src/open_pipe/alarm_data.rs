//! Alarm records as the reactive core sees them, and their conversion from
//! and to the form in which they travel.
use crate::open_pipe::connection::NotifyAlarm;
use crate::text::{decimal_text, i64_to_string, parse_i32, spec_parse_i32};
use vstd::prelude::*;

verus! {

/// A point in time: whole seconds since the start of 1970 in UTC, and the
/// nanoseconds within that second.
#[derive(Debug, Clone, Copy, PartialEq, Eq, Structural)]
pub struct Timestamp {
    pub secs: i64,
    pub nanos: u32,
}

/// One alarm as last reported by the runtime.
#[derive(Debug)]
pub struct AlarmData {
    pub name: String,
    pub id: i32,
    pub alarm_class_name: String,
    pub alarm_class_symbol: String,
    pub event_text: String,
    pub instance_id: i32,
    pub priority: i32,
    pub state: i32,
    pub state_text: String,
    pub state_machine: i32,
    pub modification_time: Timestamp,
}

/// The part of an alarm record that identifies the alarm.
#[derive(Debug, Clone, Copy, PartialEq, Eq, Hash, Structural)]
pub struct AlarmId {
    pub id: i32,
}

impl AlarmId {
    /// The identity of an alarm record.
    pub fn from_alarm(alarm: &AlarmData) -> (r: AlarmId)
        ensures
            r.id == alarm.id,
    {
        AlarmId { id: alarm.id }
    }
}

/// The time that `chrono` reads from a text in the form
/// `YYYY-MM-DD HH:MM:SS[.fraction]`, as seconds and nanoseconds, if the text
/// has that form.
pub uninterp spec fn spec_parse_time(text: Seq<char>) -> Option<(i64, u32)>;

/// The text that `chrono` writes for a time given as seconds and
/// nanoseconds, in the form `YYYY-MM-DD HH:MM:SS[.fraction]`, if the time can
/// be represented.
pub uninterp spec fn spec_format_time(secs: i64, nanos: u32) -> Option<Seq<char>>;

/// Calls `chrono::NaiveDateTime::parse_from_str` with the format
/// `%Y-%m-%d %H:%M:%S%.f` and takes the result as a time in UTC. The outcome
/// depends on the text alone and is named by `spec_parse_time`.
#[verifier::external_body]
fn parse_time(text: &str) -> (r: Option<Timestamp>)
    ensures
        match r {
            Some(t) => spec_parse_time(text@) == Some((t.secs, t.nanos)),
            None => spec_parse_time(text@) is None,
        },
{
    match chrono::NaiveDateTime::parse_from_str(text, "%Y-%m-%d %H:%M:%S%.f") {
        Ok(t) => Some(
            Timestamp { secs: t.and_utc().timestamp(), nanos: t.and_utc().timestamp_subsec_nanos() },
        ),
        Err(_) => None,
    }
}

/// Calls `chrono::DateTime::from_timestamp` and writes the time with the
/// format `%Y-%m-%d %H:%M:%S%.f`. The outcome depends on the time alone and is
/// named by `spec_format_time`.
#[verifier::external_body]
fn format_time(t: Timestamp) -> (r: Option<String>)
    ensures
        match r {
            Some(s) => spec_format_time(t.secs, t.nanos) == Some(s@),
            None => spec_format_time(t.secs, t.nanos) is None,
        },
{
    match chrono::DateTime::from_timestamp(t.secs, t.nanos) {
        Some(d) => Some(d.format("%Y-%m-%d %H:%M:%S%.f").to_string()),
        None => None,
    }
}

/// Calls `chrono::Utc::now`. Nothing is known of the result.
#[verifier::external_body]
fn current_time() -> (r: Timestamp) {
    let now = chrono::Utc::now();
    Timestamp { secs: now.timestamp(), nanos: now.timestamp_subsec_nanos() }
}

/// The number that a text field of a travelling alarm stands for: its value
/// as a 32 bit decimal number, or zero.
pub open spec fn number_or_zero(text: Seq<char>) -> i32 {
    match spec_parse_i32(text) {
        Some(v) => v,
        None => 0,
    }
}

fn read_number_or_zero(text: &str) -> (r: i32)
    ensures
        r == number_or_zero(text@),
{
    match parse_i32(text) {
        Some(v) => v,
        None => 0,
    }
}

/// The text that a time travels as; empty for a time that has none.
pub open spec fn time_text(t: Timestamp) -> Seq<char> {
    match spec_format_time(t.secs, t.nanos) {
        Some(s) => s,
        None => Seq::empty(),
    }
}

impl AlarmData {
    /// The record agrees with the travelling alarm in every field but the
    /// modification time: texts are taken as they are, and a number that
    /// cannot be read is zero.
    pub open spec fn fields_from(&self, notify: &NotifyAlarm) -> bool {
        &&& self.name == notify.name
        &&& self.id == number_or_zero(notify.id@)
        &&& self.alarm_class_name == notify.alarm_class_name
        &&& self.alarm_class_symbol == notify.alarm_class_symbol
        &&& self.event_text == notify.event_text
        &&& self.instance_id == number_or_zero(notify.instance_id@)
        &&& self.priority == number_or_zero(notify.priority@)
        &&& self.state == number_or_zero(notify.state@)
        &&& self.state_text == notify.state_text
        &&& self.state_machine == number_or_zero(notify.state_machine@)
    }

    /// The record for a travelling alarm, where `read_time` is what was read
    /// from its modification time and `now` is the current time, which
    /// stands in where nothing could be read.
    pub fn from_parts(notify: NotifyAlarm, read_time: Option<Timestamp>, now: Timestamp) -> (r:
        AlarmData)
        ensures
            r.fields_from(&notify),
            r.modification_time == match read_time {
                Some(t) => t,
                None => now,
            },
    {
        let modification_time = match read_time {
            Some(t) => t,
            None => now,
        };
        AlarmData {
            id: read_number_or_zero(notify.id.as_str()),
            instance_id: read_number_or_zero(notify.instance_id.as_str()),
            priority: read_number_or_zero(notify.priority.as_str()),
            state: read_number_or_zero(notify.state.as_str()),
            state_machine: read_number_or_zero(notify.state_machine.as_str()),
            name: notify.name,
            alarm_class_name: notify.alarm_class_name,
            alarm_class_symbol: notify.alarm_class_symbol,
            event_text: notify.event_text,
            state_text: notify.state_text,
            modification_time,
        }
    }

    /// The record for a travelling alarm. Where the modification time cannot
    /// be read, the current time stands in.
    pub fn from_notify(notify: NotifyAlarm) -> (r: AlarmData)
        ensures
            r.fields_from(&notify),
            spec_parse_time(notify.modification_time@) matches Some((secs, nanos))
                ==> r.modification_time == (Timestamp { secs, nanos }),
    {
        let read_time = parse_time(notify.modification_time.as_str());
        let now = match read_time {
            Some(t) => t,
            None => current_time(),
        };
        AlarmData::from_parts(notify, read_time, now)
    }

    /// The form in which the record travels.
    pub fn to_notify(&self) -> (r: NotifyAlarm)
        ensures
            r.name == self.name,
            r.id@ == decimal_text(self.id as int),
            r.alarm_class_name == self.alarm_class_name,
            r.alarm_class_symbol == self.alarm_class_symbol,
            r.event_text == self.event_text,
            r.instance_id@ == decimal_text(self.instance_id as int),
            r.priority@ == decimal_text(self.priority as int),
            r.state@ == decimal_text(self.state as int),
            r.state_text == self.state_text,
            r.state_machine@ == decimal_text(self.state_machine as int),
            r.modification_time@ == time_text(self.modification_time),
    {
        let modification_time = match format_time(self.modification_time) {
            Some(s) => s,
            None => String::new(),
        };
        NotifyAlarm {
            name: self.name.clone(),
            id: i64_to_string(self.id as i64),
            alarm_class_name: self.alarm_class_name.clone(),
            alarm_class_symbol: self.alarm_class_symbol.clone(),
            event_text: self.event_text.clone(),
            instance_id: i64_to_string(self.instance_id as i64),
            priority: i64_to_string(self.priority as i64),
            state: i64_to_string(self.state as i64),
            state_text: self.state_text.clone(),
            state_machine: i64_to_string(self.state_machine as i64),
            modification_time,
        }
    }

    /// A copy of the record.
    pub fn duplicate(&self) -> (r: AlarmData)
        ensures
            r == *self,
    {
        AlarmData {
            name: self.name.clone(),
            id: self.id,
            alarm_class_name: self.alarm_class_name.clone(),
            alarm_class_symbol: self.alarm_class_symbol.clone(),
            event_text: self.event_text.clone(),
            instance_id: self.instance_id,
            priority: self.priority,
            state: self.state,
            state_text: self.state_text.clone(),
            state_machine: self.state_machine,
            modification_time: self.modification_time,
        }
    }
}

impl Clone for AlarmData {
    fn clone(&self) -> (r: AlarmData)
        ensures
            r == *self,
    {
        self.duplicate()
    }
}

/// A number that fits 32 bits is read back from its decimal text: an alarm
/// record that travels and returns keeps its numbers.
pub proof fn lemma_number_round_trip(v: i32)
    ensures
        number_or_zero(decimal_text(v as int)) == v,
{
    crate::text::lemma_decimal_text_round_trip(v as int);
}

} // verus!
