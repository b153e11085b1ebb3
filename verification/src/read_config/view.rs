//! The configuration as a mathematical value: texts are sequences of
//! characters and lists are sequences.
use crate::actions::set_volume::TagOrConst;
use crate::actions::wait_alarm::AlarmCondition;
use crate::actions::wait_tag::TagCondition;
use crate::alarm_filter::BoolExpr;
use crate::clip_player::SampleFormat;
use crate::name_set::texts;
use crate::read_config::{
    ActionType, AlarmFilterConfig, ClipType, NamedAlarmFilter, NamedClip, PlayerConfig,
    StateConfig, StateMachineConfig, VolumeConfig,
};
use vstd::prelude::*;

verus! {

/// The model of `TagCondition`.
pub enum ConditionView {
    Less(u64),
    LessEqual(u64),
    Greater(u64),
    GreaterEqual(u64),
    EqualNumber(u64),
    NotEqualNumber(u64),
    EqualString(Seq<char>),
    NotEqualString(Seq<char>),
    Changed,
}

impl View for TagCondition {
    type V = ConditionView;

    open spec fn view(&self) -> ConditionView {
        match self {
            TagCondition::Less(l) => ConditionView::Less(*l),
            TagCondition::LessEqual(l) => ConditionView::LessEqual(*l),
            TagCondition::Greater(l) => ConditionView::Greater(*l),
            TagCondition::GreaterEqual(l) => ConditionView::GreaterEqual(*l),
            TagCondition::EqualNumber(l) => ConditionView::EqualNumber(*l),
            TagCondition::NotEqualNumber(l) => ConditionView::NotEqualNumber(*l),
            TagCondition::EqualString(s) => ConditionView::EqualString(s@),
            TagCondition::NotEqualString(s) => ConditionView::NotEqualString(s@),
            TagCondition::Changed => ConditionView::Changed,
        }
    }
}

/// The model of `TagOrConst`.
#[allow(inconsistent_fields)]
pub enum LevelView {
    Tag { tag_name: Seq<char> },
    Const(u32),
}

impl View for TagOrConst {
    type V = LevelView;

    open spec fn view(&self) -> LevelView {
        match self {
            TagOrConst::Tag { tag_name } => LevelView::Tag { tag_name: tag_name@ },
            TagOrConst::Const(b) => LevelView::Const(*b),
        }
    }
}

/// The model of `ClipType`.
#[allow(inconsistent_fields)]
pub enum ClipTypeView {
    File { file_name: Seq<char>, amplitude: u32 },
    Sine { amplitude: u64, frequency: u64, duration: u64 },
}

impl View for ClipType {
    type V = ClipTypeView;

    open spec fn view(&self) -> ClipTypeView {
        match self {
            ClipType::File { file_name, amplitude } => ClipTypeView::File {
                file_name: file_name@,
                amplitude: *amplitude,
            },
            ClipType::Sine { amplitude, frequency, duration } => ClipTypeView::Sine {
                amplitude: *amplitude,
                frequency: *frequency,
                duration: *duration,
            },
        }
    }
}

/// The model of `NamedClip`.
pub struct NamedClipView {
    pub id: Seq<char>,
    pub clip: ClipTypeView,
}

impl View for NamedClip {
    type V = NamedClipView;

    open spec fn view(&self) -> NamedClipView {
        NamedClipView { id: self.id@, clip: self.clip@ }
    }
}

/// The model of `ActionType`.
#[allow(inconsistent_fields)]
pub enum ActionTypeView {
    Sequence(Seq<ActionTypeView>),
    Parallel(Seq<ActionTypeView>),
    Play { priority: i32, timeout: Option<u64>, sound: Seq<char> },
    Wait(u64),
    WaitTag { tag_name: Seq<char>, condition: ConditionView },
    WaitAlarm { filter_name: Seq<char>, condition: AlarmCondition },
    Debug(Seq<char>),
    Repeat { count: Option<u32>, action: Box<ActionTypeView> },
    Goto(Seq<char>),
    SetTag { tag_name: Seq<char>, value: Seq<char> },
    IgnoreAlarms { filter: Seq<char>, permanent: bool },
    RestoreAlarms { filter: Seq<char> },
    SetVolume { control: Seq<char>, value: LevelView },
}

/// The models of a list of actions.
pub open spec fn action_views(actions: Seq<ActionType>) -> Seq<ActionTypeView>
    decreases actions,
{
    if actions.len() == 0 {
        Seq::empty()
    } else {
        action_views(actions.drop_last()).push(actions.last().view())
    }
}

impl View for ActionType {
    type V = ActionTypeView;

    open spec fn view(&self) -> ActionTypeView
        decreases self,
    {
        match self {
            ActionType::Sequence(list) => ActionTypeView::Sequence(action_views(list@)),
            ActionType::Parallel(list) => ActionTypeView::Parallel(action_views(list@)),
            ActionType::Play { priority, timeout, sound } => ActionTypeView::Play {
                priority: *priority,
                timeout: *timeout,
                sound: sound@,
            },
            ActionType::Wait(t) => ActionTypeView::Wait(*t),
            ActionType::WaitTag { tag_name, condition } => ActionTypeView::WaitTag {
                tag_name: tag_name@,
                condition: condition@,
            },
            ActionType::WaitAlarm { filter_name, condition } => ActionTypeView::WaitAlarm {
                filter_name: filter_name@,
                condition: *condition,
            },
            ActionType::Debug(text) => ActionTypeView::Debug(text@),
            ActionType::Repeat { count, action } => ActionTypeView::Repeat {
                count: *count,
                action: Box::new((**action).view()),
            },
            ActionType::Goto(target) => ActionTypeView::Goto(target@),
            ActionType::SetTag { tag_name, value } => ActionTypeView::SetTag {
                tag_name: tag_name@,
                value: value@,
            },
            ActionType::IgnoreAlarms { filter, permanent } => ActionTypeView::IgnoreAlarms {
                filter: filter@,
                permanent: *permanent,
            },
            ActionType::RestoreAlarms { filter } => ActionTypeView::RestoreAlarms {
                filter: filter@,
            },
            ActionType::SetVolume { control, value } => ActionTypeView::SetVolume {
                control: control@,
                value: value@,
            },
        }
    }
}

/// The models of a list of actions are the models of its actions, one for
/// one.
pub proof fn lemma_action_views(c: Seq<ActionType>)
    ensures
        action_views(c).len() == c.len(),
        forall|i: int|
            #![trigger action_views(c)[i]]
            #![trigger c[i]]
            0 <= i < c.len() ==> action_views(c)[i] == c[i]@,
    decreases c.len(),
{
    if c.len() > 0 {
        lemma_action_views(c.drop_last());
        let before = action_views(c.drop_last());
        assert(action_views(c) == before.push(c.last().view()));
        assert(before.len() == c.len() - 1);
        assert forall|i: int|
            #![trigger action_views(c)[i]]
            #![trigger c[i]]
            0 <= i < c.len() implies action_views(c)[i] == c[i]@ by {
            if i < c.len() - 1 {
                assert(c.drop_last()[i] == c[i]);
                assert(action_views(c)[i] == before[i]);
            } else {
                assert(c[i] == c.last());
            }
        }
    }
}

/// The models of a list with one more action.
pub proof fn lemma_action_views_push(c: Seq<ActionType>, a: ActionType)
    ensures
        action_views(c.push(a)) == action_views(c).push(a@),
{
    assert(c.push(a).drop_last() =~= c);
    assert(c.push(a).last() == a);
}

/// The model of `StateConfig`.
pub struct StateConfigView {
    pub id: Seq<char>,
    pub action: ActionTypeView,
}

impl View for StateConfig {
    type V = StateConfigView;

    open spec fn view(&self) -> StateConfigView {
        StateConfigView { id: self.id@, action: self.action@ }
    }
}

/// The models of a list of states.
pub open spec fn state_views(states: Seq<StateConfig>) -> Seq<StateConfigView> {
    Seq::new(states.len(), |i: int| states[i]@)
}

/// The model of `StateMachineConfig`.
pub struct StateMachineConfigView {
    pub id: Seq<char>,
    pub states: Seq<StateConfigView>,
}

impl View for StateMachineConfig {
    type V = StateMachineConfigView;

    open spec fn view(&self) -> StateMachineConfigView {
        StateMachineConfigView {
            id: self.id@,
            states: state_views(self.states@),
        }
    }
}

/// The text of a name that may be missing.
pub open spec fn name_view(name: Option<String>) -> Option<Seq<char>> {
    match name {
        Some(n) => Some(n@),
        None => None,
    }
}

/// The model of `AlarmFilterConfig`.
pub struct AlarmFilterConfigView {
    pub filter_predicate: BoolExpr,
    pub tag_matching: Option<Seq<char>>,
    pub tag_ignored: Option<Seq<char>>,
}

impl View for AlarmFilterConfig {
    type V = AlarmFilterConfigView;

    open spec fn view(&self) -> AlarmFilterConfigView {
        AlarmFilterConfigView {
            filter_predicate: self.filter_predicate@,
            tag_matching: name_view(self.tag_matching),
            tag_ignored: name_view(self.tag_ignored),
        }
    }
}

/// The model of `NamedAlarmFilter`.
pub struct NamedAlarmFilterView {
    pub id: Seq<char>,
    pub filter: AlarmFilterConfigView,
}

impl View for NamedAlarmFilter {
    type V = NamedAlarmFilterView;

    open spec fn view(&self) -> NamedAlarmFilterView {
        NamedAlarmFilterView { id: self.id@, filter: self.filter@ }
    }
}

/// The model of `VolumeConfig`.
pub struct VolumeConfigView {
    pub id: Seq<char>,
    pub device: Seq<char>,
    pub initial_volume: Option<u32>,
}

impl View for VolumeConfig {
    type V = VolumeConfigView;

    open spec fn view(&self) -> VolumeConfigView {
        VolumeConfigView {
            id: self.id@,
            device: self.device@,
            initial_volume: self.initial_volume,
        }
    }
}

/// The models of a list of clips.
pub open spec fn clip_views(clips: Seq<NamedClip>) -> Seq<NamedClipView> {
    Seq::new(clips.len(), |i: int| clips[i]@)
}

/// The models of a list of filters.
pub open spec fn filter_views(filters: Seq<NamedAlarmFilter>) -> Seq<NamedAlarmFilterView> {
    Seq::new(filters.len(), |i: int| filters[i]@)
}

/// The models of a list of state machines.
pub open spec fn state_machine_views(machines: Seq<StateMachineConfig>) -> Seq<
    StateMachineConfigView,
> {
    Seq::new(machines.len(), |i: int| machines[i]@)
}

/// The models of a list of volume controls.
pub open spec fn volume_views(controls: Seq<VolumeConfig>) -> Seq<VolumeConfigView> {
    Seq::new(controls.len(), |i: int| controls[i]@)
}

/// The model of `PlayerConfig`.
pub struct PlayerConfigView {
    pub bind: Seq<char>,
    pub playback_device: Seq<char>,
    pub rate: u32,
    pub channels: u8,
    pub sample_format: SampleFormat,
    pub clip_root: Seq<char>,
    pub clips: Seq<NamedClipView>,
    pub tags: Seq<Seq<char>>,
    pub named_alarm_filters: Seq<NamedAlarmFilterView>,
    pub state_machines: Seq<StateMachineConfigView>,
    pub volume_config: Seq<VolumeConfigView>,
}

impl View for PlayerConfig {
    type V = PlayerConfigView;

    open spec fn view(&self) -> PlayerConfigView {
        PlayerConfigView {
            bind: self.bind@,
            playback_device: self.playback_device@,
            rate: self.rate,
            channels: self.channels,
            sample_format: self.sample_format,
            clip_root: self.clip_root@,
            clips: clip_views(self.clips@),
            tags: texts(self.tags@),
            named_alarm_filters: filter_views(self.named_alarm_filters@),
            state_machines: state_machine_views(self.state_machines@),
            volume_config: volume_views(self.volume_config@),
        }
    }
}

} // verus!
