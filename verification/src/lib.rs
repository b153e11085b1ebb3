//! Reactive core of an audio annunciator for an industrial operator panel.
//!
//! The panel's runtime reports changes of tags and of alarms over an Open
//! Pipe connection. State machines react to them: their actions play
//! clips, wait for tags and alarms, set tags and change the volume. One
//! audio output serves all of them; a clip of higher priority takes it from
//! a clip of lower priority.
//!
//! Nothing here waits, reads a clock or touches a device. Every function
//! takes the current time in milliseconds where it needs one, does one
//! step, and tells the caller what is left to do. The caller owns the loop:
//! it hands in what arrives, polls the state machines, and carries out what
//! they ask for.
//!
//! - `priority_scheduler`, `clip_player`, `clip_queue`: who may use the
//!   audio output, and what the output renders.
//! - `app_config`: the tag and the alarm dispatcher, and building the state
//!   machines from a configuration.
//! - `alarm_filter`: the language of the alarm filters.
//! - `actions`, `state_machine`: the action tree, its runs, and the
//!   machines that start and give up the runs.
//! - `event_limit`: the limit on how fast states may change.
//! - `ingress`, `open_pipe`: the messages of the runtime, and a server that
//!   stands in for it.
//! - `read_config`: the configuration and how it is read from its tree of
//!   nodes.
//!
//! Numbers with a fraction are never computed with: they are kept as bit
//! patterns, and where one has to be read or compared, the library asks the
//! caller.
pub mod actions;
pub mod alarm_filter;
pub mod alarms;
pub mod app_config;
pub mod clip_player;
pub mod clip_queue;
pub mod event_limit;
pub mod id_set;
pub mod ingress;
pub mod name_set;
pub mod open_pipe;
pub mod priority_scheduler;
pub mod read_config;
pub mod sample_buffer;
pub mod state_machine;
pub mod text;
pub mod volume_control;
