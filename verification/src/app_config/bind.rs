//! From the configuration to the actions that run: every name in an action
//! of the configuration is looked up, and the action is built only if all of
//! them are known.
use crate::actions::action::Action;
use crate::actions::alarm_function::{AlarmFunctionAction, AlarmOp};
use crate::actions::debug::DebugAction;
use crate::actions::goto::GotoAction;
use crate::actions::parallel::ParallelAction;
use crate::actions::play::PlayAction;
use crate::actions::repeat::RepeatAction;
use crate::actions::sequence::SequenceAction;
use crate::actions::set_tag::SetTagAction;
use crate::actions::set_volume::{SetVolumeAction, TagOrConst};
use crate::actions::wait::WaitAction;
use crate::actions::wait_alarm::WaitAlarmAction;
use crate::actions::wait_tag::WaitTagAction;
use crate::app_config::alarm_context::{filter_index, AlarmContext, FilterView};
use crate::app_config::tag_context::{entry_index, TagContext, TagContextView};
use crate::event_limit::{EventLimit, EventLimitView};
use crate::name_set::{position, texts};
use crate::read_config::ActionType;
use crate::sample_buffer::{share, SampleBuffer};
use crate::state_machine::{state_index, StateMachine, StateMachineView};
use crate::text::{chars_to_string, same_str, str_to_chars};
use std::sync::Arc;
use vstd::prelude::*;
use vstd::string::*;

verus! {

/// A name in the configuration that is not known.
#[derive(Debug)]
pub enum BindError {
    NoClip(String),
    NoStateMachine(String),
    NoState { state: String, machine: String },
    NoVolumeControl(String),
    NoAlarmFilter(String),
    NoTag(String),
}

/// The model of `BindError`.
pub enum BindErrorView {
    NoClip(Seq<char>),
    NoStateMachine(Seq<char>),
    NoState { state: Seq<char>, machine: Seq<char> },
    NoVolumeControl(Seq<char>),
    NoAlarmFilter(Seq<char>),
    NoTag(Seq<char>),
}

impl View for BindError {
    type V = BindErrorView;

    open spec fn view(&self) -> BindErrorView {
        match self {
            BindError::NoClip(n) => BindErrorView::NoClip(n@),
            BindError::NoStateMachine(n) => BindErrorView::NoStateMachine(n@),
            BindError::NoState { state, machine } => BindErrorView::NoState {
                state: state@,
                machine: machine@,
            },
            BindError::NoVolumeControl(n) => BindErrorView::NoVolumeControl(n@),
            BindError::NoAlarmFilter(n) => BindErrorView::NoAlarmFilter(n@),
            BindError::NoTag(n) => BindErrorView::NoTag(n@),
        }
    }
}

impl BindErrorView {
    /// The message of the error.
    pub open spec fn text(self) -> Seq<char> {
        match self {
            BindErrorView::NoClip(n) => "No clip named '"@ + n + "'"@,
            BindErrorView::NoStateMachine(n) => "No state machine named '"@ + n + "'"@,
            BindErrorView::NoState { state, machine } => "No state named '"@ + state
                + "' in state machine '"@ + machine + "'"@,
            BindErrorView::NoVolumeControl(n) => "No volume control named '"@ + n + "' found."@,
            BindErrorView::NoAlarmFilter(n) => "No alarm filter named '"@ + n + "'"@,
            BindErrorView::NoTag(n) => "No tag named '"@ + n + "'"@,
        }
    }
}

impl BindError {
    /// The message of the error.
    pub fn to_string(&self) -> (s: String)
        ensures
            s@ == self@.text(),
    {
        match self {
            BindError::NoClip(n) => {
                let mut s = "No clip named '".to_owned();
                s.append(n.as_str());
                s.append("'");
                s
            },
            BindError::NoStateMachine(n) => {
                let mut s = "No state machine named '".to_owned();
                s.append(n.as_str());
                s.append("'");
                s
            },
            BindError::NoState { state, machine } => {
                let mut s = "No state named '".to_owned();
                s.append(state.as_str());
                s.append("' in state machine '");
                s.append(machine.as_str());
                s.append("'");
                s
            },
            BindError::NoVolumeControl(n) => {
                let mut s = "No volume control named '".to_owned();
                s.append(n.as_str());
                s.append("' found.");
                s
            },
            BindError::NoAlarmFilter(n) => {
                let mut s = "No alarm filter named '".to_owned();
                s.append(n.as_str());
                s.append("'");
                s
            },
            BindError::NoTag(n) => {
                let mut s = "No tag named '".to_owned();
                s.append(n.as_str());
                s.append("'");
                s
            },
        }
    }
}

/// A clip that is ready to be played, with its name.
#[derive(Debug)]
pub struct NamedSamples {
    pub name: String,
    pub samples: Arc<SampleBuffer>,
}

/// The names of the volume controls.
#[derive(Debug)]
pub struct VolumeControlContext {
    pub controls: Vec<String>,
}

/// What the actions of a state machine are built from.
pub struct ActionBuildData<'a> {
    pub clips: &'a Vec<NamedSamples>,
    pub tag_ctxt: &'a TagContext,
    pub volume_control: &'a VolumeControlContext,
    pub alarm_ctxt: &'a AlarmContext,
    /// The state machines, each with all its states.
    pub state_machines: &'a Vec<StateMachine>,
    /// The place of the machine that the actions are built for.
    pub current_state_machine: usize,
    pub repeat_limit: &'a EventLimit,
}

/// The model of `ActionBuildData`.
pub struct BindEnv {
    pub clips: Seq<NamedSamples>,
    pub tags: TagContextView,
    pub controls: Seq<Seq<char>>,
    pub filters: Seq<FilterView>,
    pub machines: Seq<StateMachineView>,
    pub current: usize,
    pub limit: EventLimitView,
}

/// The models of a list of state machines.
pub open spec fn machine_views(m: Seq<StateMachine>) -> Seq<StateMachineView> {
    Seq::new(m.len(), |i: int| m[i]@)
}

impl<'a> ActionBuildData<'a> {
    pub open spec fn env(&self) -> BindEnv {
        BindEnv {
            clips: self.clips@,
            tags: self.tag_ctxt@,
            controls: texts(self.volume_control.controls@),
            filters: self.alarm_ctxt.filters(),
            machines: machine_views(self.state_machines@),
            current: self.current_state_machine,
            limit: self.repeat_limit@,
        }
    }
}

/// The position of the first entry with the given name in a list of names,
/// if there is one.
pub open spec fn name_index(names: Seq<Seq<char>>, name: Seq<char>) -> Option<int>
    decreases names.len(),
{
    if names.len() == 0 {
        None
    } else if names[0] == name {
        Some(0)
    } else {
        match name_index(names.skip(1), name) {
            Some(i) => Some(i + 1),
            None => None,
        }
    }
}

/// The names of a list of clips.
pub open spec fn clip_names(clips: Seq<NamedSamples>) -> Seq<Seq<char>> {
    Seq::new(clips.len(), |i: int| clips[i].name@)
}

/// The names of a list of machines.
pub open spec fn machine_names(machines: Seq<StateMachineView>) -> Seq<Seq<char>> {
    Seq::new(machines.len(), |i: int| machines[i].name)
}

/// The position of the first colon in a text, if there is one.
pub open spec fn colon_index(s: Seq<char>) -> Option<int>
    decreases s.len(),
{
    if s.len() == 0 {
        None
    } else if s[0] == ':' {
        Some(0)
    } else {
        match colon_index(s.skip(1)) {
            Some(i) => Some(i + 1),
            None => None,
        }
    }
}

impl BindEnv {
    /// The machine and the state that the target of a `goto` names: a state
    /// of the named machine for `machine:state`, else a state of the machine
    /// that the action is built for.
    pub open spec fn goto_target(self, target: Seq<char>) -> Result<(usize, usize), BindErrorView> {
        let machine: Result<int, BindErrorView> = match colon_index(target) {
            Some(k) => match name_index(machine_names(self.machines), target.take(k)) {
                Some(m) => Ok(m),
                None => Err(BindErrorView::NoStateMachine(target.take(k))),
            },
            None => Ok(self.current as int),
        };
        let state_name = match colon_index(target) {
            Some(k) => target.skip(k + 1),
            None => target,
        };
        match machine {
            Err(e) => Err(e),
            Ok(m) => match state_index(self.machines[m].states, state_name) {
                Some(s) => Ok((m as usize, s as usize)),
                None => Err(
                    BindErrorView::NoState { state: target, machine: self.machines[m].name },
                ),
            },
        }
    }

    /// The first name in an action of the configuration that is not known,
    /// if there is one. The parts of a sequence or a group are looked at in
    /// their order.
    pub open spec fn bind_error(self, conf: &ActionType) -> Option<BindErrorView>
        decreases conf, 0nat,
    {
        match conf {
            ActionType::Sequence(list) => self.first_error(list@, 0),
            ActionType::Parallel(list) => self.first_error(list@, 0),
            ActionType::Play { sound, .. } => if name_index(clip_names(self.clips), sound@)
                is Some {
                None
            } else {
                Some(BindErrorView::NoClip(sound@))
            },
            ActionType::Repeat { action, .. } => self.bind_error(&**action),
            ActionType::Goto(target) => match self.goto_target(target@) {
                Ok(_) => None,
                Err(e) => Some(e),
            },
            ActionType::WaitTag { tag_name, .. } => if entry_index(self.tags.tags, tag_name@)
                is Some {
                None
            } else {
                Some(BindErrorView::NoTag(tag_name@))
            },
            ActionType::SetTag { tag_name, .. } => if entry_index(self.tags.tags, tag_name@)
                is Some {
                None
            } else {
                Some(BindErrorView::NoTag(tag_name@))
            },
            ActionType::WaitAlarm { filter_name, .. } => self.filter_error(filter_name@),
            ActionType::IgnoreAlarms { filter, .. } => self.filter_error(filter@),
            ActionType::RestoreAlarms { filter } => self.filter_error(filter@),
            ActionType::SetVolume { control, value } => if name_index(self.controls, control@)
                is None {
                Some(BindErrorView::NoVolumeControl(control@))
            } else {
                match value {
                    TagOrConst::Tag { tag_name } => if entry_index(self.tags.tags, tag_name@)
                        is Some {
                        None
                    } else {
                        Some(BindErrorView::NoTag(tag_name@))
                    },
                    TagOrConst::Const(_) => None,
                }
            },
            _ => None,
        }
    }

    /// The error of a filter name that is not known.
    pub open spec fn filter_error(self, name: Seq<char>) -> Option<BindErrorView> {
        if filter_index(self.filters, name) is Some {
            None
        } else {
            Some(BindErrorView::NoAlarmFilter(name))
        }
    }

    /// The first error among the actions of a list from the position `from`
    /// on.
    pub open spec fn first_error(self, list: Seq<ActionType>, from: nat) -> Option<BindErrorView>
        decreases list, list.len() - from,
    {
        if from >= list.len() {
            None
        } else {
            match self.bind_error(&list[from as int]) {
                Some(e) => Some(e),
                None => self.first_error(list, from + 1),
            }
        }
    }

    /// The action was built from the action of the configuration: it is of
    /// the same kind and has the same parts and values, with every name
    /// replaced by what it names.
    pub open spec fn bound(self, action: &Action, conf: &ActionType) -> bool
        decreases conf,
    {
        match conf {
            ActionType::Sequence(list) => action matches Action::Sequence(a) && a.actions@.len()
                == list@.len() && forall|i: int|
                0 <= i < list@.len() ==> self.bound(&a.actions@[i], #[trigger] &list@[i]),
            ActionType::Parallel(list) => action matches Action::Parallel(a) && a.actions@.len()
                == list@.len() && forall|i: int|
                0 <= i < list@.len() ==> self.bound(&a.actions@[i], #[trigger] &list@[i]),
            ActionType::Play { priority, timeout, sound } => action matches Action::Play(a)
                && a.priority == priority && a.timeout == timeout && (name_index(
                clip_names(self.clips),
                sound@,
            ) matches Some(k) && a.samples == self.clips[k].samples),
            ActionType::Wait(timeout) => action matches Action::Wait(a) && a.timeout == timeout,
            ActionType::Repeat { count, action: body } => action matches Action::Repeat(a)
                && a.count == count && a.repeat_limit@ == self.limit && self.bound(
                &*a.action,
                &**body,
            ),
            ActionType::Goto(target) => action matches Action::Goto(a) && self.goto_target(
                target@,
            ) == Ok::<(usize, usize), BindErrorView>((a.state_machine, a.state_index)),
            ActionType::WaitTag { tag_name, condition } => action matches Action::WaitTag(a)
                && a.tag == tag_name && a.condition == condition,
            ActionType::WaitAlarm { filter_name, condition } => action matches Action::WaitAlarm(
                a,
            ) && a.filter_name == filter_name && a.condition == condition,
            ActionType::SetTag { tag_name, value } => action matches Action::SetTag(a)
                && a.tag_name == tag_name && a.value == value,
            ActionType::IgnoreAlarms { filter, permanent } => action matches Action::AlarmFunction(
                a,
            ) && a.filter == filter && a.op == AlarmOp::Ignore && a.permanent == permanent,
            ActionType::RestoreAlarms { filter } => action matches Action::AlarmFunction(a)
                && a.filter == filter && a.op == AlarmOp::Restore,
            ActionType::Debug(text) => action matches Action::Debug(a) && a.text == text,
            ActionType::SetVolume { control, value } => action matches Action::SetVolume(a)
                && a.control == control && match value {
                TagOrConst::Tag { tag_name } => a.value == (TagOrConst::Tag {
                    tag_name: *tag_name,
                }),
                TagOrConst::Const(level) => a.value == TagOrConst::Const(*level),
            },
        }
    }
}

/// Finds a clip by its name.
fn find_clip(clips: &Vec<NamedSamples>, name: &str) -> (r: Option<usize>)
    ensures
        match r {
            Some(i) => name_index(clip_names(clips@), name@) == Some(i as int) && i < clips.len(),
            None => name_index(clip_names(clips@), name@) is None,
        },
{
    let ghost names = clip_names(clips@);
    let mut i: usize = 0;
    proof {
        assert(names.skip(0) =~= names);
    }
    while i < clips.len()
        invariant
            i <= clips.len(),
            names == clip_names(clips@),
            match name_index(names.skip(i as int), name@) {
                Some(k) => name_index(names, name@) == Some(k + i),
                None => name_index(names, name@) is None,
            },
        decreases clips.len() - i,
    {
        proof {
            assert(names.skip(i as int)[0] == clips@[i as int].name@);
            assert(names.skip(i as int).skip(1) =~= names.skip(i + 1));
        }
        if same_str(clips[i].name.as_str(), name) {
            return Some(i);
        }
        i += 1;
    }
    None
}

/// Finds a machine by its name.
fn find_machine(machines: &Vec<StateMachine>, name: &str) -> (r: Option<usize>)
    ensures
        match r {
            Some(i) => name_index(machine_names(machine_views(machines@)), name@) == Some(
                i as int,
            ) && i < machines.len(),
            None => name_index(machine_names(machine_views(machines@)), name@) is None,
        },
{
    let ghost names = machine_names(machine_views(machines@));
    let mut i: usize = 0;
    proof {
        assert(names.skip(0) =~= names);
    }
    while i < machines.len()
        invariant
            i <= machines.len(),
            names == machine_names(machine_views(machines@)),
            match name_index(names.skip(i as int), name@) {
                Some(k) => name_index(names, name@) == Some(k + i),
                None => name_index(names, name@) is None,
            },
        decreases machines.len() - i,
    {
        proof {
            assert(names.skip(i as int)[0] == machines@[i as int]@.name);
            assert(names.skip(i as int).skip(1) =~= names.skip(i + 1));
        }
        if machines[i].has_name(name) {
            return Some(i);
        }
        i += 1;
    }
    None
}

/// Finds a name in a list of names.
fn find_name(names: &Vec<String>, name: &str) -> (r: Option<usize>)
    ensures
        match r {
            Some(i) => name_index(texts(names@), name@) == Some(i as int) && i < names.len(),
            None => name_index(texts(names@), name@) is None,
        },
{
    let ghost all = texts(names@);
    let mut i: usize = 0;
    proof {
        assert(all.skip(0) =~= all);
    }
    while i < names.len()
        invariant
            i <= names.len(),
            all == texts(names@),
            match name_index(all.skip(i as int), name@) {
                Some(k) => name_index(all, name@) == Some(k + i),
                None => name_index(all, name@) is None,
            },
        decreases names.len() - i,
    {
        proof {
            assert(all.skip(i as int)[0] == names@[i as int]@);
            assert(all.skip(i as int).skip(1) =~= all.skip(i + 1));
        }
        if same_str(names[i].as_str(), name) {
            return Some(i);
        }
        i += 1;
    }
    None
}

/// Finds the first colon of a text.
fn find_colon(chars: &Vec<char>) -> (r: Option<usize>)
    ensures
        match r {
            Some(i) => colon_index(chars@) == Some(i as int) && i < chars.len(),
            None => colon_index(chars@) is None,
        },
{
    let mut i: usize = 0;
    proof {
        assert(chars@.skip(0) =~= chars@);
    }
    while i < chars.len()
        invariant
            i <= chars.len(),
            match colon_index(chars@.skip(i as int)) {
                Some(k) => colon_index(chars@) == Some(k + i),
                None => colon_index(chars@) is None,
            },
        decreases chars.len() - i,
    {
        proof {
            assert(chars@.skip(i as int)[0] == chars@[i as int]);
            assert(chars@.skip(i as int).skip(1) =~= chars@.skip(i + 1));
        }
        if chars[i] == ':' {
            return Some(i);
        }
        i += 1;
    }
    None
}

/// Looks up the machine and the state that the target of a `goto` names.
fn resolve_goto(build_data: &ActionBuildData, target: &str) -> (r: Result<(usize, usize), BindError>)
    requires
        build_data.current_state_machine < build_data.state_machines@.len(),
    ensures
        match r {
            Ok(t) => build_data.env().goto_target(target@) == Ok::<(usize, usize), BindErrorView>(
                t,
            ),
            Err(e) => build_data.env().goto_target(target@) == Err::<
                (usize, usize),
                BindErrorView,
            >(e@),
        },
{
    let chars = str_to_chars(target);
    let (machine, state_name) = match find_colon(&chars) {
        Some(k) => {
            let machine_name = chars_to_string(&chars, 0, k);
            let state_name = chars_to_string(&chars, k + 1, chars.len());
            proof {
                assert(chars@.subrange(0, k as int) =~= target@.take(k as int));
                assert(chars@.subrange(k + 1, chars@.len() as int) =~= target@.skip(k + 1));
            }
            match find_machine(build_data.state_machines, machine_name.as_str()) {
                Some(m) => (m, state_name),
                None => {
                    return Err(BindError::NoStateMachine(machine_name));
                },
            }
        },
        None => (build_data.current_state_machine, target.to_owned()),
    };
    let state_machine = &build_data.state_machines[machine];
    match state_machine.find_state_index(state_name.as_str()) {
        Some(s) => Ok((machine, s)),
        None => Err(
            BindError::NoState { state: target.to_owned(), machine: state_machine.name().to_owned() },
        ),
    }
}

/// Builds the actions for the actions of a list.
fn bind_all(build_data: &ActionBuildData, list: &Vec<ActionType>) -> (r: Result<
    Vec<Action>,
    BindError,
>)
    requires
        build_data.current_state_machine < build_data.state_machines@.len(),
    ensures
        match r {
            Ok(actions) => build_data.env().first_error(list@, 0) is None && actions@.len()
                == list@.len() && forall|i: int|
                0 <= i < list@.len() ==> build_data.env().bound(
                    &actions@[i],
                    #[trigger] &list@[i],
                ),
            Err(e) => build_data.env().first_error(list@, 0) == Some(e@),
        },
    decreases list, 1nat,
{
    let mut actions: Vec<Action> = Vec::new();
    let mut i: usize = 0;
    while i < list.len()
        invariant
            i <= list.len(),
            build_data.current_state_machine < build_data.state_machines@.len(),
            actions@.len() == i,
            build_data.env().first_error(list@, 0) == build_data.env().first_error(
                list@,
                i as nat,
            ),
            forall|k: int|
                0 <= k < i ==> build_data.env().bound(&actions@[k], #[trigger] &list@[k]),
        decreases list.len() - i,
    {
        let ghost before = actions@;
        match action_conf_to_action(build_data, &list[i]) {
            Ok(action) => {
                actions.push(action);
                proof {
                    assert forall|k: int| 0 <= k < i + 1 implies build_data.env().bound(
                        &actions@[k],
                        #[trigger] &list@[k],
                    ) by {
                        if k < i {
                            assert(actions@[k] == before[k]);
                        }
                    }
                }
            },
            Err(e) => {
                return Err(e);
            },
        }
        i += 1;
    }
    Ok(actions)
}

/// Builds the action that runs from an action of the configuration. Every
/// clip, state machine, state, volume control, alarm filter and tag that the
/// action names is looked up; the first name that is not known is the
/// error.
pub fn action_conf_to_action(build_data: &ActionBuildData, action_conf: &ActionType) -> (r: Result<
    Action,
    BindError,
>)
    requires
        build_data.current_state_machine < build_data.state_machines@.len(),
    ensures
        match r {
            Ok(action) => build_data.env().bind_error(action_conf) is None
                && build_data.env().bound(&action, action_conf),
            Err(e) => build_data.env().bind_error(action_conf) == Some(e@),
        },
    decreases action_conf, 0nat,
{
    match action_conf {
        ActionType::Sequence(conf_actions) => {
            match bind_all(build_data, conf_actions) {
                Ok(actions) => Ok(Action::Sequence(SequenceAction { actions })),
                Err(e) => Err(e),
            }
        },
        ActionType::Parallel(conf_actions) => {
            match bind_all(build_data, conf_actions) {
                Ok(actions) => Ok(Action::Parallel(ParallelAction { actions })),
                Err(e) => Err(e),
            }
        },
        ActionType::Play { priority, timeout, sound } => {
            match find_clip(build_data.clips, sound.as_str()) {
                Some(k) => Ok(
                    Action::Play(
                        PlayAction::new(
                            *priority,
                            *timeout,
                            share(&build_data.clips[k].samples),
                        ),
                    ),
                ),
                None => Err(BindError::NoClip(sound.clone())),
            }
        },
        ActionType::Wait(timeout) => Ok(Action::Wait(WaitAction::new(*timeout))),
        ActionType::Repeat { count, action } => {
            match action_conf_to_action(build_data, &**action) {
                Ok(repeated) => Ok(
                    Action::Repeat(
                        RepeatAction::new(repeated, *count, build_data.repeat_limit.duplicate()),
                    ),
                ),
                Err(e) => Err(e),
            }
        },
        ActionType::Goto(state_name) => {
            match resolve_goto(build_data, state_name.as_str()) {
                Ok((machine, state)) => Ok(Action::Goto(GotoAction::new(state, machine))),
                Err(e) => Err(e),
            }
        },
        ActionType::WaitTag { tag_name, condition } => {
            if build_data.tag_ctxt.has_tag(tag_name.as_str()) {
                Ok(Action::WaitTag(WaitTagAction::new(tag_name.clone(), condition.duplicate())))
            } else {
                Err(BindError::NoTag(tag_name.clone()))
            }
        },
        ActionType::WaitAlarm { filter_name, condition } => {
            if build_data.alarm_ctxt.has_filter(filter_name.as_str()) {
                Ok(Action::WaitAlarm(WaitAlarmAction::new(filter_name.clone(), *condition)))
            } else {
                Err(BindError::NoAlarmFilter(filter_name.clone()))
            }
        },
        ActionType::SetTag { tag_name, value } => {
            if build_data.tag_ctxt.has_tag(tag_name.as_str()) {
                Ok(Action::SetTag(SetTagAction::new(tag_name.clone(), value.clone())))
            } else {
                Err(BindError::NoTag(tag_name.clone()))
            }
        },
        ActionType::IgnoreAlarms { filter, permanent } => {
            if build_data.alarm_ctxt.has_filter(filter.as_str()) {
                Ok(
                    Action::AlarmFunction(
                        AlarmFunctionAction {
                            filter: filter.clone(),
                            op: AlarmOp::Ignore,
                            permanent: *permanent,
                        },
                    ),
                )
            } else {
                Err(BindError::NoAlarmFilter(filter.clone()))
            }
        },
        ActionType::RestoreAlarms { filter } => {
            if build_data.alarm_ctxt.has_filter(filter.as_str()) {
                Ok(Action::AlarmFunction(AlarmFunctionAction::new(filter.clone(), AlarmOp::Restore)))
            } else {
                Err(BindError::NoAlarmFilter(filter.clone()))
            }
        },
        ActionType::Debug(text) => Ok(Action::Debug(DebugAction::new(text.clone()))),
        ActionType::SetVolume { control, value } => {
            if find_name(&build_data.volume_control.controls, control.as_str()).is_none() {
                return Err(BindError::NoVolumeControl(control.clone()));
            }
            match value {
                TagOrConst::Tag { tag_name } => {
                    if build_data.tag_ctxt.has_tag(tag_name.as_str()) {
                        Ok(
                            Action::SetVolume(
                                SetVolumeAction::new_tag(control.clone(), tag_name.clone()),
                            ),
                        )
                    } else {
                        Err(BindError::NoTag(tag_name.clone()))
                    }
                },
                TagOrConst::Const(level) => Ok(
                    Action::SetVolume(SetVolumeAction::new_const(control.clone(), *level)),
                ),
            }
        },
    }
}

} // verus!
