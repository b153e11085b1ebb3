//! What the daemon builds from its configuration: the dispatchers of tags
//! and alarms, and the actions of the state machines.
pub mod alarm_context;
pub mod bind;
pub mod setup;
pub mod tag_context;

pub use bind::{
    action_conf_to_action, ActionBuildData, BindError, NamedSamples, VolumeControlContext,
};
pub use alarm_context::{AlarmContext, AlarmFilterState, AlarmWait};
pub use setup::{
    setup_alarms, setup_state_machines, setup_tags, setup_volume_control, PlaybackContext,
    PlaybackError, StateMachineContext,
};
pub use tag_context::{SetTagWait, TagContext, TagSetRequest, TagWait};
