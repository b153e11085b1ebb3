//! The actions that a state of a state machine can run, and the decisions
//! that each of them takes while it runs.
pub mod action;
pub mod alarm_dispatcher;
pub mod alarm_function;
pub mod alarm_functions;
pub mod debug;
pub mod goto;
pub mod laws;
pub mod parallel;
pub mod play;
pub mod poll;
pub mod repeat;
pub mod sequence;
pub mod set_tag;
pub mod set_volume;
pub mod tag_dispatcher;
pub mod tag_setter;
pub mod wait;
pub mod wait_alarm;
pub mod wait_tag;
