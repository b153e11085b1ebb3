//! The configuration of the player.
//!
//! Numbers that are not whole are kept as bit patterns of floating point
//! numbers, and times in milliseconds.
use crate::actions::set_volume::TagOrConst;
use crate::actions::wait_alarm::AlarmCondition;
use crate::actions::wait_tag::TagCondition;
use crate::alarm_filter::BoolOp;
use crate::clip_player::SampleFormat;
use vstd::prelude::*;

pub mod action_reader;
pub mod document;
pub mod error;
pub mod number;
pub mod reader;
pub mod settle;
pub mod view;
pub mod xml;

pub use error::{ConfigError, ConfigErrorKind, ReadError};

verus! {

/// Where a clip comes from.
#[derive(Debug)]
#[allow(inconsistent_fields)]
pub enum ClipType {
    /// A sound file. The amplitude is the bit pattern of a 32 bit floating
    /// point number.
    File { file_name: String, amplitude: u32 },
    /// A sine tone. Amplitude and frequency are bit patterns of 64 bit
    /// floating point numbers, the duration is in milliseconds.
    Sine { amplitude: u64, frequency: u64, duration: u64 },
}

/// An action as the configuration describes it: states, clips, tags and
/// filters are given by their names.
#[derive(Debug)]
#[allow(inconsistent_fields)]
pub enum ActionType {
    Sequence(Vec<ActionType>),
    Parallel(Vec<ActionType>),
    Play { priority: i32, timeout: Option<u64>, sound: String },
    Wait(u64),
    WaitTag { tag_name: String, condition: TagCondition },
    WaitAlarm { filter_name: String, condition: AlarmCondition },
    Debug(String),
    /// No count means forever.
    Repeat { count: Option<u32>, action: Box<ActionType> },
    /// The state to go to: `state` for a state of the same machine,
    /// `machine:state` for a state of another.
    Goto(String),
    SetTag { tag_name: String, value: String },
    IgnoreAlarms { filter: String, permanent: bool },
    RestoreAlarms { filter: String },
    SetVolume { control: String, value: TagOrConst },
}

/// A state of a state machine.
#[derive(Debug)]
pub struct StateConfig {
    pub id: String,
    pub action: ActionType,
}

/// A state machine.
#[derive(Debug)]
pub struct StateMachineConfig {
    pub id: String,
    pub states: Vec<StateConfig>,
}

/// A named alarm filter and the tags that are told its numbers.
#[derive(Debug)]
pub struct AlarmFilterConfig {
    pub filter_predicate: BoolOp,
    pub tag_matching: Option<String>,
    pub tag_ignored: Option<String>,
}

/// A volume control. The initial volume is the bit pattern of a 32 bit
/// floating point number.
#[derive(Debug)]
pub struct VolumeConfig {
    pub id: String,
    pub device: String,
    pub initial_volume: Option<u32>,
}

/// A clip with its name.
#[derive(Debug)]
pub struct NamedClip {
    pub id: String,
    pub clip: ClipType,
}

/// An alarm filter with its name.
#[derive(Debug)]
pub struct NamedAlarmFilter {
    pub id: String,
    pub filter: AlarmFilterConfig,
}

/// The whole configuration.
#[derive(Debug)]
pub struct PlayerConfig {
    pub bind: String,
    pub playback_device: String,
    pub rate: u32,
    pub channels: u8,
    pub sample_format: SampleFormat,
    pub clip_root: String,
    pub clips: Vec<NamedClip>,
    pub tags: Vec<String>,
    pub named_alarm_filters: Vec<NamedAlarmFilter>,
    pub state_machines: Vec<StateMachineConfig>,
    pub volume_config: Vec<VolumeConfig>,
}

} // verus!
