//! Setting up the dispatchers and the state machines from the
//! configuration, and running the state machines.
use crate::actions::action::{Action, ActionError, ActionErrorView, World, WorldView};
use crate::actions::goto::GotoRequest;
use crate::app_config::alarm_context::{
    fresh_filter, name_text, with_added, AlarmContext, FilterView,
};
use crate::app_config::bind::{
    action_conf_to_action, clip_names, machine_views, name_index, ActionBuildData, BindEnv,
    BindError, NamedSamples, VolumeControlContext,
};
use crate::app_config::tag_context::{TagContext, TagContextView};
use crate::event_limit::{EventLimit, EventLimitView};
use crate::name_set::texts;
use crate::read_config::{PlayerConfig, StateMachineConfig};
use crate::sample_buffer::{share, SampleBuffer};
use crate::state_machine::{given_up, MachinePoll, MachinePollView, StateMachine, StateMachineView};
use crate::text::same_str;
use std::sync::Arc;
use vstd::prelude::*;
use vstd::string::*;

verus! {

/// Why a clip cannot be played.
#[derive(Debug)]
pub enum PlaybackError {
    NameNotFound(String),
}

impl PlaybackError {
    /// The message of the error.
    pub open spec fn text(&self) -> Seq<char> {
        match self {
            PlaybackError::NameNotFound(name) => "Clip '"@ + name@ + "' not found"@,
        }
    }

    /// The message of the error.
    pub fn to_string(&self) -> (s: String)
        ensures
            s@ == self.text(),
    {
        match self {
            PlaybackError::NameNotFound(name) => {
                let mut s = "Clip '".to_owned();
                s.append(name.as_str());
                s.append("' not found");
                s
            },
        }
    }
}

/// The clips that are ready to be played, in the format of the playback
/// device.
#[derive(Debug)]
pub struct PlaybackContext {
    pub rate: u32,
    pub channels: u8,
    pub clips: Vec<NamedSamples>,
}

impl PlaybackContext {
    /// The clip of the given name: the first one in the list.
    pub fn play(&self, clip_name: &str) -> (r: Result<Arc<SampleBuffer>, PlaybackError>)
        ensures
            match name_index(clip_names(self.clips@), clip_name@) {
                Some(i) => r == Ok::<Arc<SampleBuffer>, PlaybackError>(self.clips@[i].samples),
                None => r matches Err(PlaybackError::NameNotFound(n)) && n@ == clip_name@,
            },
    {
        let ghost names = clip_names(self.clips@);
        let mut i: usize = 0;
        proof {
            assert(names.skip(0) =~= names);
        }
        while i < self.clips.len()
            invariant
                i <= self.clips.len(),
                names == clip_names(self.clips@),
                match name_index(names.skip(i as int), clip_name@) {
                    Some(k) => name_index(names, clip_name@) == Some(k + i),
                    None => name_index(names, clip_name@) is None,
                },
            decreases self.clips.len() - i,
        {
            proof {
                assert(names.skip(i as int)[0] == self.clips@[i as int].name@);
                assert(names.skip(i as int).skip(1) =~= names.skip(i + 1));
            }
            if same_str(self.clips[i].name.as_str(), clip_name) {
                return Ok(share(&self.clips[i].samples));
            }
            i += 1;
        }
        Err(PlaybackError::NameNotFound(clip_name.to_owned()))
    }
}

/// The dispatcher after the first `n` names of a list are registered as
/// tags without a value.
pub open spec fn tags_added(names: Seq<Seq<char>>, n: nat) -> TagContextView
    decreases n,
{
    if n == 0 || n > names.len() {
        TagContextView {
            tags: Seq::empty(),
            requests: Seq::empty(),
            pending: Seq::empty(),
            next_ticket: 0,
        }
    } else {
        tags_added(names, (n - 1) as nat).added(names[n - 1], None)
    }
}

/// The tag dispatcher for a configuration: every tag of the configuration
/// is registered, without a value.
pub fn setup_tags(player_conf: &PlayerConfig) -> (r: TagContext)
    ensures
        r@.wf(),
        r@ == tags_added(texts(player_conf.tags@), player_conf.tags@.len()),
{
    let mut tag_ctxt = TagContext::new();
    let ghost names = texts(player_conf.tags@);
    let mut i: usize = 0;
    proof {
        assert(tag_ctxt@.tags =~= Seq::empty());
        assert(tag_ctxt@.requests =~= Seq::empty());
        assert(tag_ctxt@.pending =~= Seq::empty());
    }
    while i < player_conf.tags.len()
        invariant
            i <= player_conf.tags.len(),
            names == texts(player_conf.tags@),
            tag_ctxt@.wf(),
            tag_ctxt@ == tags_added(names, i as nat),
        decreases player_conf.tags.len() - i,
    {
        tag_ctxt.add_tag(player_conf.tags[i].as_str(), None);
        proof {
            assert(names[i as int] == player_conf.tags@[i as int]@);
        }
        i += 1;
    }
    tag_ctxt
}

/// The filters of the first `n` named filters of a configuration, with no
/// alarm reported to them. A later filter takes the place of an earlier one
/// of the same name.
pub open spec fn filters_added(conf: &PlayerConfig, n: nat) -> Seq<FilterView>
    decreases n,
{
    if n == 0 || n > conf.named_alarm_filters@.len() {
        Seq::empty()
    } else {
        let f = conf.named_alarm_filters@[n - 1];
        with_added(
            filters_added(conf, (n - 1) as nat),
            fresh_filter(
                f.id@,
                f.filter.filter_predicate@,
                name_text(f.filter.tag_matching),
                name_text(f.filter.tag_ignored),
            ),
        )
    }
}

fn copy_name(name: &Option<String>) -> (r: Option<String>)
    ensures
        r == *name,
{
    match name {
        Some(n) => Some(n.clone()),
        None => None,
    }
}

/// The alarm dispatcher for a configuration: one filter for every named
/// filter of the configuration.
pub fn setup_alarms(player_conf: &PlayerConfig) -> (r: AlarmContext)
    ensures
        r.wf(),
        r.filters() == filters_added(player_conf, player_conf.named_alarm_filters@.len()),
{
    let mut alarm_ctxt = AlarmContext::new();
    let mut i: usize = 0;
    proof {
        assert(alarm_ctxt.filters() =~= filters_added(player_conf, 0));
    }
    while i < player_conf.named_alarm_filters.len()
        invariant
            i <= player_conf.named_alarm_filters.len(),
            alarm_ctxt.wf(),
            alarm_ctxt.filters() == filters_added(player_conf, i as nat),
        decreases player_conf.named_alarm_filters.len() - i,
    {
        let named = &player_conf.named_alarm_filters[i];
        alarm_ctxt.add_filter(
            named.id.as_str(),
            named.filter.filter_predicate.duplicate(),
            copy_name(&named.filter.tag_matching),
            copy_name(&named.filter.tag_ignored),
        );
        i += 1;
    }
    alarm_ctxt
}

/// The names of the volume controls of a configuration.
pub fn setup_volume_control(player_conf: &PlayerConfig) -> (r: VolumeControlContext)
    ensures
        r.controls@.len() == player_conf.volume_config@.len(),
        forall|i: int|
            0 <= i < r.controls@.len() ==> (#[trigger] r.controls@[i])@
                == player_conf.volume_config@[i].id@,
{
    let mut controls: Vec<String> = Vec::new();
    let mut i: usize = 0;
    while i < player_conf.volume_config.len()
        invariant
            i <= player_conf.volume_config.len(),
            controls@.len() == i,
            forall|k: int|
                0 <= k < i ==> (#[trigger] controls@[k])@ == player_conf.volume_config@[k].id@,
        decreases player_conf.volume_config.len() - i,
    {
        let ghost before = controls@;
        controls.push(player_conf.volume_config[i].id.clone());
        proof {
            assert forall|k: int| 0 <= k < i + 1 implies (#[trigger] controls@[k])@
                == player_conf.volume_config@[k].id@ by {
                if k < i {
                    assert(controls@[k] == before[k]);
                }
            }
        }
        i += 1;
    }
    VolumeControlContext { controls }
}

/// The state machines of the player.
pub struct StateMachineContext {
    pub state_machines: Vec<StateMachine>,
}

/// The names of the states of a machine of the configuration.
pub open spec fn state_ids(conf: &StateMachineConfig) -> Seq<Seq<char>> {
    Seq::new(conf.states@.len(), |i: int| conf.states@[i].id@)
}

/// The machine for a machine of the configuration before its states have
/// actions: it has the name and the states of that machine, is stopped and
/// runs nothing.
pub open spec fn bare_machine(conf: &StateMachineConfig, limit: EventLimitView) -> StateMachineView {
    StateMachineView {
        name: conf.id@,
        states: state_ids(conf),
        actions: Seq::new(conf.states@.len(), |i: int| None::<Action>),
        active_state: None,
        restart: false,
        change_limit: limit,
        running_state: None,
        running: None,
    }
}

/// The machines of a configuration before their states have actions.
pub open spec fn bare_machines(player_conf: &PlayerConfig, limit: EventLimitView) -> Seq<
    StateMachineView,
> {
    Seq::new(
        player_conf.state_machines@.len(),
        |m: int| bare_machine(&player_conf.state_machines@[m], limit),
    )
}

/// What the actions of the machine at the place `machine` are built
/// against: the clips, the tags, the volume controls, the alarm filters and
/// all machines of the configuration.
pub open spec fn setup_env(
    player_conf: &PlayerConfig,
    playback_ctxt: &PlaybackContext,
    tag_ctxt: &TagContext,
    volume_control: &VolumeControlContext,
    alarm_ctxt: &AlarmContext,
    change_limit: &EventLimit,
    machine: usize,
) -> BindEnv {
    BindEnv {
        clips: playback_ctxt.clips@,
        tags: tag_ctxt@,
        controls: texts(volume_control.controls@),
        filters: alarm_ctxt.filters(),
        machines: bare_machines(player_conf, change_limit@),
        current: machine,
        limit: change_limit@,
    }
}

/// The state at the place `s` of the machine at the place `m` comes before
/// the state `t` of the machine `n` in the order of the configuration.
pub open spec fn comes_before(m: int, s: int, n: int, t: int) -> bool {
    m < n || (m == n && s < t)
}

/// A machine was set up for a machine of the configuration: it has the name
/// and the states of that machine, is stopped and runs nothing, and every
/// state has the action that was built from its action in the
/// configuration.
pub open spec fn set_up(m: StateMachineView, env: BindEnv, conf: &StateMachineConfig) -> bool {
    &&& m == (StateMachineView { actions: m.actions, ..bare_machine(conf, env.limit) })
    &&& m.actions.len() == conf.states@.len()
    &&& forall|s: int|
        0 <= s < conf.states@.len() ==> ((#[trigger] m.actions[s]) matches Some(a) && env.bound(
            &a,
            &conf.states@[s].action,
        ))
}

/// Makes a machine with its states, without actions.
fn make_machine(conf: &StateMachineConfig, change_limit: &EventLimit) -> (r: StateMachine)
    ensures
        r@ == bare_machine(conf, change_limit@),
{
    let mut machine = StateMachine::new(conf.id.as_str(), change_limit.duplicate());
    let mut i: usize = 0;
    while i < conf.states.len()
        invariant
            i <= conf.states.len(),
            machine@.name == conf.id@,
            machine@.states == state_ids(conf).take(i as int),
            machine@.actions.len() == i,
            forall|k: int| 0 <= k < i ==> machine@.actions[k] is None,
            machine@.active_state is None,
            !machine@.restart,
            machine@.change_limit == change_limit@,
            machine@.running_state is None,
            machine@.running is None,
        decreases conf.states.len() - i,
    {
        machine.add_state(conf.states[i].id.as_str());
        proof {
            assert(machine@.states =~= state_ids(conf).take(i + 1));
        }
        i += 1;
    }
    proof {
        assert(state_ids(conf).take(conf.states@.len() as int) =~= state_ids(conf));
        assert(machine@.actions =~= bare_machine(conf, change_limit@).actions);
    }
    machine
}

/// The actions of the states of one machine of the configuration, or the
/// first error among them.
fn bind_states(build_data: &ActionBuildData, conf: &StateMachineConfig) -> (r: Result<
    Vec<Action>,
    (BindError, Ghost<int>),
>)
    requires
        build_data.current_state_machine < build_data.state_machines@.len(),
    ensures
        match r {
            Ok(actions) => actions@.len() == conf.states@.len() && forall|s: int|
                0 <= s < conf.states@.len() ==> build_data.env().bind_error(
                    #[trigger] &conf.states@[s].action,
                ) is None && build_data.env().bound(&actions@[s], &conf.states@[s].action),
            Err((e, at)) => 0 <= at@ < conf.states@.len() && build_data.env().bind_error(
                &conf.states@[at@].action,
            ) == Some(e@) && forall|s: int|
                0 <= s < at@ ==> build_data.env().bind_error(#[trigger] &conf.states@[s].action)
                    is None,
        },
{
    let mut actions: Vec<Action> = Vec::new();
    let mut s: usize = 0;
    while s < conf.states.len()
        invariant
            s <= conf.states.len(),
            actions@.len() == s,
            build_data.current_state_machine < build_data.state_machines@.len(),
            forall|k: int|
                0 <= k < s ==> build_data.env().bind_error(#[trigger] &conf.states@[k].action)
                    is None && build_data.env().bound(&actions@[k], &conf.states@[k].action),
        decreases conf.states.len() - s,
    {
        let ghost before = actions@;
        match action_conf_to_action(build_data, &conf.states[s].action) {
            Ok(action) => {
                actions.push(action);
                proof {
                    assert forall|k: int| 0 <= k < s + 1 implies build_data.env().bind_error(
                        #[trigger] &conf.states@[k].action,
                    ) is None && build_data.env().bound(
                        &actions@[k],
                        &conf.states@[k].action,
                    ) by {
                        if k < s {
                            assert(actions@[k] == before[k]);
                        }
                    }
                }
            },
            Err(e) => {
                return Err((e, Ghost(s as int)));
            },
        }
        s += 1;
    }
    Ok(actions)
}

/// Gives the states of a machine their actions.
fn fill_machine(
    machine: &mut StateMachine,
    actions: Vec<Action>,
    Ghost(env): Ghost<BindEnv>,
    Ghost(conf): Ghost<&StateMachineConfig>,
)
    requires
        old(machine)@ == bare_machine(conf, env.limit),
        actions@.len() == conf.states@.len(),
        forall|s: int|
            0 <= s < conf.states@.len() ==> env.bound(
                #[trigger] &actions@[s],
                &conf.states@[s].action,
            ),
    ensures
        set_up(final(machine)@, env, conf),
{
    let mut actions = actions;
    let ghost all = actions@;
    while actions.len() > 0
        invariant
            actions@.len() <= all.len(),
            all.len() == conf.states@.len(),
            forall|s: int| 0 <= s < actions@.len() ==> actions@[s] == all[s],
            forall|s: int|
                0 <= s < conf.states@.len() ==> env.bound(
                    #[trigger] &all[s],
                    &conf.states@[s].action,
                ),
            machine@ == (StateMachineView {
                actions: machine@.actions,
                ..bare_machine(conf, env.limit)
            }),
            machine@.actions.len() == conf.states@.len(),
            forall|s: int|
                actions@.len() <= s < conf.states@.len() ==> (#[trigger] machine@.actions[s])
                    == Some(all[s]),
        decreases actions@.len(),
    {
        let index = actions.len() - 1;
        let action = actions.pop().unwrap();
        machine.set_action(index, action);
    }
}

/// The state machines for a configuration. Every machine gets its states,
/// and every state the action that is built from its action in the
/// configuration; the state at a place in the configuration is the state at
/// that place in the machine. The first name in an action that is not known
/// is the error; the states are looked at machine by machine, in their
/// order.
pub fn setup_state_machines(
    player_conf: &PlayerConfig,
    playback_ctxt: &PlaybackContext,
    tag_ctxt: &TagContext,
    volume_control: &VolumeControlContext,
    alarm_ctxt: &AlarmContext,
    change_limit: &EventLimit,
) -> (r: Result<StateMachineContext, BindError>)
    ensures
        match r {
            Ok(ctx) => {
                &&& ctx.state_machines@.len() == player_conf.state_machines@.len()
                &&& forall|m: int|
                    0 <= m < ctx.state_machines@.len() ==> set_up(
                        (#[trigger] ctx.state_machines@[m])@,
                        setup_env(
                            player_conf,
                            playback_ctxt,
                            tag_ctxt,
                            volume_control,
                            alarm_ctxt,
                            change_limit,
                            m as usize,
                        ),
                        &player_conf.state_machines@[m],
                    )
                &&& forall|m: int, s: int|
                    0 <= m < player_conf.state_machines@.len() && 0 <= s
                        < player_conf.state_machines@[m].states@.len() ==> setup_env(
                        player_conf,
                        playback_ctxt,
                        tag_ctxt,
                        volume_control,
                        alarm_ctxt,
                        change_limit,
                        m as usize,
                    ).bind_error(#[trigger] &player_conf.state_machines@[m].states@[s].action)
                        is None
            },
            Err(e) => exists|m: int, s: int|
                {
                    &&& 0 <= m < player_conf.state_machines@.len()
                    &&& 0 <= s < player_conf.state_machines@[m].states@.len()
                    &&& #[trigger] first_unbound(
                        player_conf,
                        playback_ctxt,
                        tag_ctxt,
                        volume_control,
                        alarm_ctxt,
                        change_limit,
                        m,
                        s,
                    )
                    &&& setup_env(
                        player_conf,
                        playback_ctxt,
                        tag_ctxt,
                        volume_control,
                        alarm_ctxt,
                        change_limit,
                        m as usize,
                    ).bind_error(&player_conf.state_machines@[m].states@[s].action) == Some(e@)
                },
        },
{
    let mut state_machines: Vec<StateMachine> = Vec::new();
    let mut m: usize = 0;
    while m < player_conf.state_machines.len()
        invariant
            m <= player_conf.state_machines.len(),
            state_machines@.len() == m,
            forall|k: int|
                0 <= k < m ==> (#[trigger] state_machines@[k])@ == bare_machine(
                    &player_conf.state_machines@[k],
                    change_limit@,
                ),
        decreases player_conf.state_machines.len() - m,
    {
        let ghost before = state_machines@;
        state_machines.push(make_machine(&player_conf.state_machines[m], change_limit));
        proof {
            assert forall|k: int| 0 <= k < m + 1 implies (#[trigger] state_machines@[k])@
                == bare_machine(&player_conf.state_machines@[k], change_limit@) by {
                if k < m {
                    assert(state_machines@[k] == before[k]);
                }
            }
        }
        m += 1;
    }
    proof {
        assert(machine_views(state_machines@) =~= bare_machines(player_conf, change_limit@));
    }
    let mut bound: Vec<Vec<Action>> = Vec::new();
    let mut m: usize = 0;
    while m < player_conf.state_machines.len()
        invariant
            m <= player_conf.state_machines.len(),
            state_machines@.len() == player_conf.state_machines@.len(),
            machine_views(state_machines@) == bare_machines(player_conf, change_limit@),
            bound@.len() == m,
            forall|k: int|
                0 <= k < m ==> (#[trigger] bound@[k])@.len()
                    == player_conf.state_machines@[k].states@.len(),
            forall|k: int, s: int|
                0 <= k < m && 0 <= s < player_conf.state_machines@[k].states@.len() ==> {
                    let env = setup_env(
                        player_conf,
                        playback_ctxt,
                        tag_ctxt,
                        volume_control,
                        alarm_ctxt,
                        change_limit,
                        k as usize,
                    );
                    env.bind_error(#[trigger] &player_conf.state_machines@[k].states@[s].action)
                        is None && env.bound(
                        &bound@[k]@[s],
                        &player_conf.state_machines@[k].states@[s].action,
                    )
                },
        decreases player_conf.state_machines.len() - m,
    {
        let build_data = ActionBuildData {
            clips: &playback_ctxt.clips,
            tag_ctxt,
            volume_control,
            alarm_ctxt,
            state_machines: &state_machines,
            current_state_machine: m,
            repeat_limit: change_limit,
        };
        proof {
            assert(build_data.env() == setup_env(
                player_conf,
                playback_ctxt,
                tag_ctxt,
                volume_control,
                alarm_ctxt,
                change_limit,
                m,
            ));
        }
        let ghost before = bound@;
        match bind_states(&build_data, &player_conf.state_machines[m]) {
            Ok(actions) => {
                bound.push(actions);
                proof {
                    assert forall|k: int| 0 <= k < m + 1 implies (#[trigger] bound@[k])@.len()
                        == player_conf.state_machines@[k].states@.len() by {
                        if k < m {
                            assert(bound@[k] == before[k]);
                        }
                    }
                    assert forall|k: int, s: int|
                        0 <= k < m + 1 && 0 <= s
                            < player_conf.state_machines@[k].states@.len() implies {
                        let env = setup_env(
                            player_conf,
                            playback_ctxt,
                            tag_ctxt,
                            volume_control,
                            alarm_ctxt,
                            change_limit,
                            k as usize,
                        );
                        env.bind_error(
                            #[trigger] &player_conf.state_machines@[k].states@[s].action,
                        ) is None && env.bound(
                            &bound@[k]@[s],
                            &player_conf.state_machines@[k].states@[s].action,
                        )
                    } by {
                        if k < m {
                            assert(bound@[k] == before[k]);
                        }
                    }
                }
            },
            Err((e, at)) => {
                proof {
                    assert(first_unbound(
                        player_conf,
                        playback_ctxt,
                        tag_ctxt,
                        volume_control,
                        alarm_ctxt,
                        change_limit,
                        m as int,
                        at@,
                    ));
                }
                return Err(e);
            },
        }
        m += 1;
    }
    let mut machines: Vec<StateMachine> = Vec::new();
    while bound.len() > 0
        invariant
            bound@.len() == state_machines@.len(),
            bound@.len() + machines@.len() == player_conf.state_machines@.len(),
            forall|k: int|
                0 <= k < bound@.len() ==> (#[trigger] bound@[k])@.len()
                    == player_conf.state_machines@[k].states@.len(),
            forall|k: int|
                0 <= k < state_machines@.len() ==> (#[trigger] state_machines@[k])@
                    == bare_machine(&player_conf.state_machines@[k], change_limit@),
            forall|k: int, s: int|
                0 <= k < bound@.len() && 0 <= s
                    < player_conf.state_machines@[k].states@.len() ==> setup_env(
                    player_conf,
                    playback_ctxt,
                    tag_ctxt,
                    volume_control,
                    alarm_ctxt,
                    change_limit,
                    k as usize,
                ).bound(
                    #[trigger] &bound@[k]@[s],
                    &player_conf.state_machines@[k].states@[s].action,
                ),
            forall|k: int|
                0 <= k < machines@.len() ==> set_up(
                    (#[trigger] machines@[k])@,
                    setup_env(
                        player_conf,
                        playback_ctxt,
                        tag_ctxt,
                        volume_control,
                        alarm_ctxt,
                        change_limit,
                        (bound@.len() + k) as usize,
                    ),
                    &player_conf.state_machines@[bound@.len() + k],
                ),
        decreases bound@.len(),
    {
        let ghost n = bound@.len();
        let ghost old_machines = machines@;
        let ghost old_bound = bound@;
        let ghost old_bare = state_machines@;
        let actions = bound.pop().unwrap();
        let mut machine = state_machines.pop().unwrap();
        let ghost env = setup_env(
            player_conf,
            playback_ctxt,
            tag_ctxt,
            volume_control,
            alarm_ctxt,
            change_limit,
            (n - 1) as usize,
        );
        proof {
            assert(actions == old_bound[n - 1]);
            assert(machine == old_bare[n - 1]);
            assert forall|s: int|
                0 <= s < player_conf.state_machines@[n - 1].states@.len() implies env.bound(
                #[trigger] &actions@[s],
                &player_conf.state_machines@[n - 1].states@[s].action,
            ) by {
                assert(env.bound(
                    &old_bound[n - 1]@[s],
                    &player_conf.state_machines@[n - 1].states@[s].action,
                ));
            }
        }
        fill_machine(&mut machine, actions, Ghost(env), Ghost(&player_conf.state_machines@[n - 1]));
        machines.insert(0, machine);
        proof {
            assert forall|k: int| 0 <= k < machines@.len() implies set_up(
                (#[trigger] machines@[k])@,
                setup_env(
                    player_conf,
                    playback_ctxt,
                    tag_ctxt,
                    volume_control,
                    alarm_ctxt,
                    change_limit,
                    (bound@.len() + k) as usize,
                ),
                &player_conf.state_machines@[bound@.len() + k],
            ) by {
                if k > 0 {
                    assert(machines@[k] == old_machines[k - 1]);
                }
            }
            assert forall|k: int| 0 <= k < bound@.len() implies (#[trigger] bound@[k])@.len()
                == player_conf.state_machines@[k].states@.len() by {
                assert(bound@[k] == old_bound[k]);
            }
            assert forall|k: int|
                0 <= k < state_machines@.len() implies (#[trigger] state_machines@[k])@
                == bare_machine(&player_conf.state_machines@[k], change_limit@) by {
                assert(state_machines@[k] == old_bare[k]);
            }
            assert forall|k: int, s: int|
                0 <= k < bound@.len() && 0 <= s
                    < player_conf.state_machines@[k].states@.len() implies setup_env(
                player_conf,
                playback_ctxt,
                tag_ctxt,
                volume_control,
                alarm_ctxt,
                change_limit,
                k as usize,
            ).bound(
                #[trigger] &bound@[k]@[s],
                &player_conf.state_machines@[k].states@[s].action,
            ) by {
                assert(bound@[k] == old_bound[k]);
                assert(setup_env(
                    player_conf,
                    playback_ctxt,
                    tag_ctxt,
                    volume_control,
                    alarm_ctxt,
                    change_limit,
                    k as usize,
                ).bound(
                    &old_bound[k]@[s],
                    &player_conf.state_machines@[k].states@[s].action,
                ));
            }
        }
    }
    Ok(StateMachineContext { state_machines: machines })
}

/// No action of a state that comes before the state `s` of the machine `m`
/// in the configuration names anything that is not known.
pub open spec fn first_unbound(
    player_conf: &PlayerConfig,
    playback_ctxt: &PlaybackContext,
    tag_ctxt: &TagContext,
    volume_control: &VolumeControlContext,
    alarm_ctxt: &AlarmContext,
    change_limit: &EventLimit,
    m: int,
    s: int,
) -> bool {
    forall|n: int, t: int|
        0 <= n < player_conf.state_machines@.len() && 0 <= t
            < player_conf.state_machines@[n].states@.len() && comes_before(n, t, m, s)
            ==> setup_env(
            player_conf,
            playback_ctxt,
            tag_ctxt,
            volume_control,
            alarm_ctxt,
            change_limit,
            n as usize,
        ).bind_error(#[trigger] &player_conf.state_machines@[n].states@[t].action) is None
}

/// The machines after the changes of state of a list are handed to them,
/// in the order of the list. A change for a machine that does not exist is
/// passed over.
pub open spec fn gotos_applied(machines: Seq<StateMachineView>, gotos: Seq<GotoRequest>) -> Seq<
    StateMachineView,
>
    decreases gotos.len(),
{
    if gotos.len() == 0 {
        machines
    } else {
        let before = gotos_applied(machines, gotos.drop_last());
        let g = gotos.last();
        if g.state_machine < before.len() {
            before.update(
                g.state_machine as int,
                before[g.state_machine as int].gone_to(g.state_index),
            )
        } else {
            before
        }
    }
}

/// The outcome of polling the first machines of a list, as a mathematical
/// value.
pub struct AllStep {
    pub machines: Seq<StateMachineView>,
    pub world: WorldView,
    /// The failure of the first machine that failed.
    pub failed: Option<ActionErrorView>,
    /// Whether every machine polled has stopped.
    pub stopped: bool,
}

/// The outcome of polling the first `n` machines of a list in their order.
/// After a machine has failed, the others are not polled.
pub open spec fn polled_each(machines: Seq<StateMachineView>, n: nat, world: WorldView, now: u64) -> AllStep
    decreases n,
{
    if n == 0 || n > machines.len() {
        AllStep { machines, world, failed: None, stopped: true }
    } else {
        let before = polled_each(machines, (n - 1) as nat, world, now);
        if before.failed is Some {
            before
        } else {
            let s = before.machines[n - 1].step(before.world, now);
            AllStep {
                machines: before.machines.update(n - 1, s.machine),
                world: s.world,
                failed: match s.result {
                    MachinePollView::Failed(e) => Some(e),
                    _ => None,
                },
                stopped: before.stopped && s.result is Stopped,
            }
        }
    }
}

/// The world after the runs of the actions of the first `n` machines are
/// given up, the last of them first.
pub open spec fn all_given_up(machines: Seq<StateMachineView>, n: nat, world: WorldView) -> WorldView
    decreases n,
{
    if n == 0 || n > machines.len() {
        world
    } else {
        all_given_up(machines, (n - 1) as nat, given_up(machines[n - 1].running, world))
    }
}

/// After a machine has failed, polling the machines that follow changes
/// nothing.
pub proof fn lemma_failed_stays(
    machines: Seq<StateMachineView>,
    k: nat,
    n: nat,
    world: WorldView,
    now: u64,
)
    requires
        k <= n <= machines.len(),
        polled_each(machines, k, world, now).failed is Some,
    ensures
        polled_each(machines, n, world, now) == polled_each(machines, k, world, now),
    decreases n - k,
{
    if n > k {
        lemma_failed_stays(machines, k, (n - 1) as nat, world, now);
    }
}

/// Polling machines keeps their number.
pub proof fn lemma_polled_len(machines: Seq<StateMachineView>, n: nat, world: WorldView, now: u64)
    ensures
        polled_each(machines, n, world, now).machines.len() == machines.len(),
    decreases n,
{
    if n != 0 && n <= machines.len() {
        lemma_polled_len(machines, (n - 1) as nat, world, now);
    }
}

impl StateMachineContext {
    /// The models of the machines.
    pub open spec fn machines(&self) -> Seq<StateMachineView> {
        machine_views(self.state_machines@)
    }

    /// Starts every machine in its first state.
    pub fn run_all(&mut self)
        ensures
            final(self).machines().len() == old(self).machines().len(),
            forall|i: int|
                0 <= i < old(self).machines().len() ==> (#[trigger] final(self).machines()[i])
                    == (StateMachineView {
                    active_state: Some(0usize),
                    ..old(self).machines()[i]
                }),
    {
        let n = self.state_machines.len();
        let mut i: usize = 0;
        while i < n
            invariant
                i <= n,
                n == self.state_machines@.len(),
                n == old(self).state_machines@.len(),
                forall|k: int|
                    0 <= k < i ==> (#[trigger] self.machines()[k]) == (StateMachineView {
                        active_state: Some(0usize),
                        ..old(self).machines()[k]
                    }),
                forall|k: int| i <= k < n ==> self.state_machines@[k] == old(self).state_machines@[k],
            decreases n - i,
        {
            let ghost before = self.state_machines@;
            let ghost before_views = self.machines();
            let mut machine = self.take_machine(i);
            proof {
                assert(machine == before[i as int]);
                assert(machine@ == old(self).machines()[i as int]);
            }
            machine.run();
            self.state_machines.set(i, machine);
            proof {
                assert(self.state_machines@[i as int] == machine);
                assert(self.machines()[i as int] == machine@);
                assert forall|k: int| 0 <= k < i + 1 implies (#[trigger] self.machines()[k])
                    == (StateMachineView {
                    active_state: Some(0usize),
                    ..old(self).machines()[k]
                }) by {
                    if k < i {
                        assert(self.state_machines@[k] == before[k]);
                        assert(self.machines()[k] == machine_views(before)[k]);
                        assert(before_views[k] == (StateMachineView {
                            active_state: Some(0usize),
                            ..old(self).machines()[k]
                        }));
                        assert(machine_views(before)[k] == before_views[k]);
                    }
                }
                assert forall|k: int| i + 1 <= k < n implies self.state_machines@[k] == old(
                    self,
                ).state_machines@[k] by {
                    assert(self.state_machines@[k] == before[k]);
                }
            }
            i += 1;
        }
    }

    /// Takes a machine out of the list, leaving an empty machine in its
    /// place.
    fn take_machine(&mut self, i: usize) -> (r: StateMachine)
        requires
            i < old(self).state_machines@.len(),
        ensures
            r == old(self).state_machines@[i as int],
            final(self).state_machines@.len() == old(self).state_machines@.len(),
            final(self).state_machines@ == old(self).state_machines@.update(
                i as int,
                final(self).state_machines@[i as int],
            ),
    {
        let mut tail = self.state_machines.split_off(i);
        let taken = tail.remove(0);
        self.state_machines.push(StateMachine::new("", EventLimit::new(0, 0)));
        self.state_machines.append(&mut tail);
        taken
    }

    /// Takes every machine one step further, then hands the changes of
    /// state that the actions asked for to the machines. Tells whether every
    /// machine has stopped. The failure of a machine is the failure of all:
    /// the machines after it are not polled, and the runs of all actions are
    /// given up. The world is to be polled again if a change of state was
    /// handed on.
    pub fn poll_all(&mut self, world: &mut World, now: u64) -> (r: Result<bool, ActionError>)
        requires
            old(world).wf(),
        ensures
            final(world).wf(),
            final(self).machines().len() == old(self).machines().len(),
            ({
                let polled = polled_each(
                    old(self).machines(),
                    old(self).machines().len(),
                    old(world)@,
                    now,
                );
                match r {
                    Ok(stopped) => {
                        &&& polled.failed is None
                        &&& stopped == polled.stopped
                        &&& final(self).machines() == gotos_applied(
                            polled.machines,
                            polled.world.gotos,
                        )
                        &&& final(world)@ == (WorldView {
                            gotos: Seq::empty(),
                            repoll: polled.world.repoll || polled.world.gotos.len() > 0,
                            ..polled.world
                        })
                    },
                    Err(e) => {
                        &&& polled.failed == Some(e@)
                        &&& final(world)@ == all_given_up(
                            polled.machines,
                            polled.machines.len(),
                            polled.world,
                        )
                    },
                }
            }),
    {
        let ghost start = self.machines();
        let ghost start_world = world@;
        let n = self.state_machines.len();
        let mut stopped = true;
        let mut i: usize = 0;
        while i < n
            invariant
                i <= n,
                n == self.state_machines@.len(),
                n == start.len(),
                world.wf(),
                self.machines().len() == n,
                start == old(self).machines(),
                start_world == old(world)@,
                polled_each(start, i as nat, start_world, now) == (AllStep {
                    machines: self.machines(),
                    world: world@,
                    failed: None,
                    stopped,
                }),
            decreases n - i,
        {
            let ghost before = self.machines();
            let mut machine = self.take_machine(i);
            proof {
                assert(before[i as int] == machine@);
            }
            let result = machine.poll(world, now);
            self.state_machines.set(i, machine);
            proof {
                assert(self.machines() =~= before.update(i as int, machine@));
            }
            match result {
                MachinePoll::Failed(e) => {
                    let ghost failed = polled_each(start, (i + 1) as nat, start_world, now);
                    proof {
                        assert(failed.failed == Some(e@));
                        assert(failed.machines == self.machines());
                        assert(failed.world == world@);
                        lemma_failed_stays(start, (i + 1) as nat, n as nat, start_world, now);
                        assert(polled_each(start, n as nat, start_world, now) == failed);
                    }
                    self.give_up_all(world);
                    proof {
                        assert(final(self).machines().len() == n);
                    }
                    return Err(e);
                },
                MachinePoll::Stopped => {},
                MachinePoll::Running => {
                    stopped = false;
                },
            }
            i += 1;
        }
        let ghost polled = self.machines();
        let ghost asked = world@.gotos;
        let mut gotos: Vec<GotoRequest> = Vec::new();
        gotos.append(&mut world.gotos);
        if gotos.len() > 0 {
            world.repoll = true;
        }
        let mut k: usize = 0;
        proof {
            assert(gotos@ =~= asked);
            assert(asked.take(0) =~= Seq::<GotoRequest>::empty());
        }
        while k < gotos.len()
            invariant
                k <= gotos.len(),
                gotos@ == asked,
                n == self.state_machines@.len(),
                n == polled.len(),
                gotos_applied(polled, asked.take(k as int)).len() == n,
                self.machines() == gotos_applied(polled, asked.take(k as int)),
            decreases gotos.len() - k,
        {
            let g = gotos[k];
            let ghost before = self.machines();
            proof {
                assert(asked.take(k + 1).drop_last() =~= asked.take(k as int));
                assert(asked.take(k + 1).last() == g);
            }
            if g.state_machine < n {
                let mut machine = self.take_machine(g.state_machine);
                proof {
                    assert(before[g.state_machine as int] == machine@);
                }
                machine.goto(g.state_index);
                self.state_machines.set(g.state_machine, machine);
                proof {
                    assert(self.machines() =~= before.update(g.state_machine as int, machine@));
                }
            }
            k += 1;
        }
        proof {
            assert(asked.take(asked.len() as int) =~= asked);
        }
        Ok(stopped)
    }

    /// Gives up the runs of the actions of all machines.
    fn give_up_all(&mut self, world: &mut World)
        requires
            old(world).wf(),
        ensures
            final(world).wf(),
            final(self).state_machines@.len() == old(self).state_machines@.len(),
            final(world)@ == all_given_up(
                old(self).machines(),
                old(self).machines().len(),
                old(world)@,
            ),
    {
        let ghost start = self.machines();
        let mut i: usize = self.state_machines.len();
        let ghost n = self.state_machines@.len();
        while i > 0
            invariant
                i <= n,
                n == self.state_machines@.len(),
                n == start.len(),
                world.wf(),
                forall|k: int| 0 <= k < i ==> (#[trigger] self.machines()[k]) == start[k],
                all_given_up(start, i as nat, world@) == all_given_up(start, n, old(world)@),
            decreases i,
        {
            i -= 1;
            let ghost before = self.machines();
            let mut machine = self.take_machine(i);
            proof {
                assert(before[i as int] == machine@);
            }
            machine.give_up_run(world);
            self.state_machines.set(i, machine);
            proof {
                assert forall|k: int| 0 <= k < i implies (#[trigger] self.machines()[k])
                    == start[k] by {
                    assert(self.machines()[k] == before[k]);
                }
            }
        }
    }
}

} // verus!
