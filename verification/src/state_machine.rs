//! State machines: named states, each with an action, of which one is
//! active and has its action running.
//!
//! A machine runs at most one action at a time. `goto` makes another state
//! active, or the same one again; the next call of `poll` gives up the run
//! of the action that was running and starts the action of the new state.
//! Every such change counts as an event of the machine's limiter, and the
//! machine fails when the changes follow each other too fast.
use crate::actions::action::{
    Action, ActionError, ActionErrorView, ActionPoll, Task, TaskView, World, WorldView,
};
use crate::actions::poll::{cancel, poll, spec_cancel, spec_poll};
use crate::event_limit::{EventLimit, EventLimitView};
use crate::text::same_str;
use vstd::prelude::*;
use vstd::string::*;

verus! {

/// A state of a machine.
struct State {
    name: String,
    action: Option<Action>,
}

/// A state machine.
pub struct StateMachine {
    name: String,
    states: Vec<State>,
    active_state: Option<usize>,
    restart: bool,
    change_limit: EventLimit,
    running_state: Option<usize>,
    running: Option<Task>,
}

/// The model of `StateMachine`.
pub struct StateMachineView {
    pub name: Seq<char>,
    /// The names of the states.
    pub states: Seq<Seq<char>>,
    /// The actions of the states.
    pub actions: Seq<Option<Action>>,
    /// The state that is to be active; none for a machine that is stopped.
    pub active_state: Option<usize>,
    /// Whether the active state is to start again.
    pub restart: bool,
    pub change_limit: EventLimitView,
    /// The state whose action was started last.
    pub running_state: Option<usize>,
    /// The run of that action, while it goes on.
    pub running: Option<TaskView>,
}

/// What `StateMachine::poll` tells of a machine.
#[derive(Debug)]
pub enum MachinePoll {
    /// The machine is in a state.
    Running,
    /// The machine has been stopped.
    Stopped,
    /// The machine has failed.
    Failed(ActionError),
}

/// The model of `MachinePoll`.
pub enum MachinePollView {
    Running,
    Stopped,
    Failed(ActionErrorView),
}

/// The model of a `MachinePoll`.
pub open spec fn machine_poll_view(p: MachinePoll) -> MachinePollView {
    match p {
        MachinePoll::Running => MachinePollView::Running,
        MachinePoll::Stopped => MachinePollView::Stopped,
        MachinePoll::Failed(e) => MachinePollView::Failed(e@),
    }
}

/// The outcome of one call of `StateMachine::poll`, as a mathematical value.
pub struct MachineStep {
    pub machine: StateMachineView,
    pub world: WorldView,
    pub result: MachinePollView,
}

/// The position of the first state with the given name, if there is one.
pub open spec fn state_index(states: Seq<Seq<char>>, name: Seq<char>) -> Option<int>
    decreases states.len(),
{
    if states.len() == 0 {
        None
    } else if states[0] == name {
        Some(0)
    } else {
        match state_index(states.skip(1), name) {
            Some(i) => Some(i + 1),
            None => None,
        }
    }
}

/// The world after the run of an action, if there is one, is given up.
pub open spec fn given_up(running: Option<TaskView>, world: WorldView) -> WorldView {
    match running {
        Some(t) => spec_cancel(t, world),
        None => world,
    }
}

/// The message of a machine whose state changes too fast.
pub open spec fn change_runaway(name: Seq<char>) -> Seq<char> {
    "State changed too fast for state machine "@ + name
}

impl StateMachineView {
    /// The action of a state, if the state exists and has one.
    pub open spec fn action_of(self, state: usize) -> Option<Action> {
        if state < self.actions.len() {
            self.actions[state as int]
        } else {
            None
        }
    }

    /// The machine after `goto`: a state of the machine becomes active and
    /// is to start, also if it is active already. A state that the machine
    /// does not have is passed over.
    pub open spec fn gone_to(self, state: usize) -> StateMachineView {
        if state < self.states.len() {
            StateMachineView { active_state: Some(state), restart: true, ..self }
        } else {
            self
        }
    }

    /// Whether the next step changes the state.
    pub open spec fn changes(self) -> bool {
        self.running_state != self.active_state || self.restart
    }

    /// The step of a machine whose state does not change: the action that
    /// is running, if any, takes a step. When it ends without failure, the
    /// machine stays in its state with nothing running; its failure is the
    /// failure of the machine.
    pub open spec fn step_running(self, world: WorldView, now: u64) -> MachineStep {
        if self.runnable() {
            let s = spec_poll(
                &self.action_of(self.running_state->0)->0,
                self.running->0,
                world,
                now,
            );
            match s.result {
                None => MachineStep {
                    machine: StateMachineView { running: Some(s.task), ..self },
                    world: s.world,
                    result: MachinePollView::Running,
                },
                Some(Ok(())) => MachineStep {
                    machine: StateMachineView { running: None, ..self },
                    world: s.world,
                    result: MachinePollView::Running,
                },
                Some(Err(e)) => MachineStep {
                    machine: StateMachineView { running: None, ..self },
                    world: s.world,
                    result: MachinePollView::Failed(e),
                },
            }
        } else {
            MachineStep {
                machine: StateMachineView { running: None, ..self },
                world: given_up(self.running, world),
                result: if self.active_state is None {
                    MachinePollView::Stopped
                } else {
                    MachinePollView::Running
                },
            }
        }
    }

    /// Whether an action is running: there is a run, and the state that was
    /// started last has an action.
    pub open spec fn runnable(self) -> bool {
        self.running is Some && self.running_state is Some && self.action_of(
            self.running_state->0,
        ) is Some
    }

    /// One step of the machine. If the state is to change, the change
    /// counts as an event of the limiter; if the event is refused, the
    /// machine fails. Else the run of the action that was running is given
    /// up, and the action of the new state starts and takes its first step;
    /// a machine without an active state has stopped. If the state is not
    /// to change, the action that is running takes a step.
    #[verifier::opaque]
    pub open spec fn step(self, world: WorldView, now: u64) -> MachineStep {
        if self.changes() {
            let limit = self.change_limit.counted(now);
            let world = given_up(self.running, world);
            if !self.change_limit.allows(now) {
                MachineStep {
                    machine: StateMachineView { change_limit: limit, running: None, ..self },
                    world,
                    result: MachinePollView::Failed(
                        ActionErrorView::Runaway(change_runaway(self.name)),
                    ),
                }
            } else {
                match self.active_state {
                    Some(state) => (StateMachineView {
                        change_limit: limit,
                        running_state: Some(state),
                        restart: false,
                        running: if self.action_of(state) is Some {
                            Some(TaskView::New)
                        } else {
                            None
                        },
                        ..self
                    }).step_running(world, now),
                    None => MachineStep {
                        machine: StateMachineView {
                            change_limit: limit,
                            running_state: None,
                            restart: false,
                            running: None,
                            ..self
                        },
                        world,
                        result: MachinePollView::Stopped,
                    },
                }
            }
        } else {
            self.step_running(world, now)
        }
    }
}

spec fn state_names(states: Seq<State>) -> Seq<Seq<char>> {
    Seq::new(states.len(), |i: int| states[i].name@)
}

spec fn state_actions(states: Seq<State>) -> Seq<Option<Action>> {
    Seq::new(states.len(), |i: int| states[i].action)
}

/// The model of an optional run.
pub open spec fn running_view(t: Option<Task>) -> Option<TaskView> {
    match t {
        Some(t) => Some(t@),
        None => None,
    }
}

impl View for StateMachine {
    type V = StateMachineView;

    closed spec fn view(&self) -> StateMachineView {
        StateMachineView {
            name: self.name@,
            states: state_names(self.states@),
            actions: state_actions(self.states@),
            active_state: self.active_state,
            restart: self.restart,
            change_limit: self.change_limit@,
            running_state: self.running_state,
            running: running_view(self.running),
        }
    }
}

impl StateMachine {
    /// A machine without states that is stopped. `change_limit` limits how
    /// fast its state may change.
    pub fn new(name: &str, change_limit: EventLimit) -> (r: StateMachine)
        ensures
            r@ == (StateMachineView {
                name: name@,
                states: Seq::empty(),
                actions: Seq::empty(),
                active_state: None,
                restart: false,
                change_limit: change_limit@,
                running_state: None,
                running: None,
            }),
    {
        let r = StateMachine {
            name: name.to_owned(),
            states: Vec::new(),
            active_state: None,
            restart: false,
            change_limit,
            running_state: None,
            running: None,
        };
        proof {
            assert(r@.states =~= Seq::<Seq<char>>::empty());
            assert(r@.actions =~= Seq::<Option<Action>>::empty());
        }
        r
    }

    /// The name of the machine.
    pub fn name(&self) -> (r: &str)
        ensures
            r@ == self@.name,
    {
        self.name.as_str()
    }

    /// Whether the machine has the given name.
    pub fn has_name(&self, name: &str) -> (r: bool)
        ensures
            r == (self@.name == name@),
    {
        same_str(self.name.as_str(), name)
    }

    /// Adds a state without an action and returns its index.
    pub fn add_state(&mut self, name: &str) -> (index: usize)
        ensures
            index == old(self)@.states.len(),
            final(self)@ == (StateMachineView {
                states: old(self)@.states.push(name@),
                actions: old(self)@.actions.push(None),
                ..old(self)@
            }),
    {
        let ghost before = self@;
        self.states.push(State { name: name.to_owned(), action: None });
        proof {
            assert(self@.states =~= before.states.push(name@));
            assert(self@.actions =~= before.actions.push(None));
        }
        self.states.len() - 1
    }

    /// The index of the first state with the given name.
    pub fn find_state_index(&self, name: &str) -> (r: Option<usize>)
        ensures
            match r {
                Some(i) => state_index(self@.states, name@) == Some(i as int) && i
                    < self@.states.len(),
                None => state_index(self@.states, name@) is None,
            },
    {
        let ghost names = self@.states;
        let mut i: usize = 0;
        proof {
            assert(names.skip(0) =~= names);
        }
        while i < self.states.len()
            invariant
                i <= self.states.len(),
                names == self@.states,
                match state_index(names.skip(i as int), name@) {
                    Some(k) => state_index(names, name@) == Some(k + i),
                    None => state_index(names, name@) is None,
                },
            decreases self.states.len() - i,
        {
            proof {
                assert(names.skip(i as int)[0] == self.states@[i as int].name@);
                assert(names.skip(i as int).skip(1) =~= names.skip(i + 1));
            }
            if same_str(self.states[i].name.as_str(), name) {
                return Some(i);
            }
            i += 1;
        }
        None
    }

    /// Gives a state its action.
    pub fn set_action(&mut self, state_index: usize, action: Action)
        requires
            state_index < old(self)@.states.len(),
        ensures
            final(self)@ == (StateMachineView {
                actions: old(self)@.actions.update(state_index as int, Some(action)),
                ..old(self)@
            }),
    {
        let ghost before = self@;
        let name = self.states[state_index].name.clone();
        self.states.set(state_index, State { name, action: Some(action) });
        proof {
            assert(self@.states =~= before.states);
            assert(self@.actions =~= before.actions.update(state_index as int, Some(action)));
        }
    }

    /// Stops the machine: no state is active any more. The next `poll`
    /// gives up the action that is running.
    pub fn stop(&mut self)
        ensures
            final(self)@ == (StateMachineView { active_state: None, ..old(self)@ }),
    {
        self.active_state = None;
    }

    /// Starts the machine: its first state becomes active.
    pub fn run(&mut self)
        ensures
            final(self)@ == (StateMachineView { active_state: Some(0usize), ..old(self)@ }),
    {
        self.active_state = Some(0);
    }

    /// Makes a state active. The state starts with the next `poll`, also if
    /// it is active already. An index that is no state's is passed over.
    pub fn goto(&mut self, state_index: usize)
        ensures
            final(self)@ == old(self)@.gone_to(state_index),
    {
        if self.states.len() <= state_index {
            return ;
        }
        self.restart = true;
        self.active_state = Some(state_index);
    }

    /// Gives up the action that is running, if any.
    pub fn give_up_run(&mut self, world: &mut World)
        requires
            old(world).wf(),
        ensures
            final(world).wf(),
            final(world)@ == given_up(old(self)@.running, old(world)@),
            final(self)@ == (StateMachineView { running: None, ..old(self)@ }),
    {
        self.give_up(world)
    }

    /// Gives up the action that is running, if any.
    fn give_up(&mut self, world: &mut World)
        requires
            old(world).wf(),
        ensures
            final(world).wf(),
            final(world)@ == given_up(old(self)@.running, old(world)@),
            final(self)@ == (StateMachineView { running: None, ..old(self)@ }),
    {
        let running = self.running.take();
        match running {
            Some(task) => {
                cancel(task, world);
            },
            None => {},
        }
    }

    /// The step of a machine whose state does not change.
    fn poll_running(&mut self, world: &mut World, now: u64) -> (r: MachinePoll)
        requires
            old(world).wf(),
        ensures
            final(world).wf(),
            (MachineStep {
                machine: final(self)@,
                world: final(world)@,
                result: machine_poll_view(r),
            }) == old(self)@.step_running(old(world)@, now),
    {
        let runnable = self.running.is_some() && match self.running_state {
            Some(s) => s < self.states.len() && self.states[s].action.is_some(),
            None => false,
        };
        if !runnable {
            self.give_up(world);
            return if self.active_state.is_none() {
                MachinePoll::Stopped
            } else {
                MachinePoll::Running
            };
        }
        let state = match self.running_state {
            Some(s) => s,
            None => 0,
        };
        let task = match self.running.take() {
            Some(t) => t,
            None => Task::New,
        };
        let (t, r) = match &self.states[state].action {
            Some(action) => poll(action, task, world, now),
            None => (Task::Done, ActionPoll::Ready(Ok(()))),
        };
        match r {
            ActionPoll::Pending => {
                self.running = Some(t);
                MachinePoll::Running
            },
            ActionPoll::Ready(Ok(())) => MachinePoll::Running,
            ActionPoll::Ready(Err(e)) => MachinePoll::Failed(e),
        }
    }

    /// Takes the machine one step further and tells how it stands.
    pub fn poll(&mut self, world: &mut World, now: u64) -> (r: MachinePoll)
        requires
            old(world).wf(),
        ensures
            final(world).wf(),
            (MachineStep {
                machine: final(self)@,
                world: final(world)@,
                result: machine_poll_view(r),
            }) == old(self)@.step(old(world)@, now),
    {
        proof {
            reveal(StateMachineView::step);
        }
        let changes = self.restart || match (self.running_state, self.active_state) {
            (Some(a), Some(b)) => a != b,
            (None, None) => false,
            _ => true,
        };
        if !changes {
            return self.poll_running(world, now);
        }
        let allowed = self.change_limit.count(now);
        self.give_up(world);
        if !allowed {
            let mut message = "State changed too fast for state machine ".to_owned();
            message.append(self.name.as_str());
            return MachinePoll::Failed(ActionError::Runaway(message));
        }
        match self.active_state {
            Some(state) => {
                self.running_state = Some(state);
                self.restart = false;
                if state < self.states.len() && self.states[state].action.is_some() {
                    self.running = Some(Task::New);
                }
                self.poll_running(world, now)
            },
            None => {
                self.running_state = None;
                self.restart = false;
                MachinePoll::Stopped
            },
        }
    }
}

/// A machine runs at most one action at a time: what is running is the run
/// of the action of one state, and whenever an action is started, the run of
/// the one before has been given up.
pub proof fn lemma_one_action_at_a_time(m: StateMachineView, world: WorldView, now: u64)
    requires
        m.changes(),
        m.change_limit.allows(now),
        m.active_state is Some,
    ensures
        m.step(world, now).machine.running_state == m.active_state,
        m.step(world, now) == (StateMachineView {
            change_limit: m.change_limit.counted(now),
            running_state: m.active_state,
            restart: false,
            running: if m.action_of(m.active_state->0) is Some {
                Some(TaskView::New)
            } else {
                None
            },
            ..m
        }).step_running(given_up(m.running, world), now),
{
    reveal(StateMachineView::step);
}

/// `goto` takes effect with the next step of the machine: unless the limiter
/// refuses the change, the run of the action that was running has been given
/// up, and the state that was asked for is the one whose action runs.
pub proof fn lemma_goto_is_prompt(m: StateMachineView, state: usize, world: WorldView, now: u64)
    requires
        state < m.states.len(),
        m.change_limit.allows(now),
    ensures
        m.gone_to(state).step(world, now).machine.running_state == Some(state),
        !m.gone_to(state).step(world, now).machine.restart,
        m.gone_to(state).step(world, now) == (StateMachineView {
            change_limit: m.change_limit.counted(now),
            running_state: Some(state),
            active_state: Some(state),
            restart: false,
            running: if m.action_of(state) is Some {
                Some(TaskView::New)
            } else {
                None
            },
            ..m
        }).step_running(given_up(m.running, world), now),
{
    reveal(StateMachineView::step);
}

/// A change of state that comes too fast makes the machine fail, with the
/// run of its action given up.
pub proof fn lemma_fast_change_fails(m: StateMachineView, state: usize, world: WorldView, now: u64)
    requires
        state < m.states.len(),
        !m.change_limit.allows(now),
    ensures
        m.gone_to(state).step(world, now).result == MachinePollView::Failed(
            ActionErrorView::Runaway(change_runaway(m.name)),
        ),
        m.gone_to(state).step(world, now).machine.running is None,
        m.gone_to(state).step(world, now).world == given_up(m.running, world),
{
    reveal(StateMachineView::step);
}

/// A machine runs away when its states change faster than its limiter
/// allows: once the limiter holds as many changes as it allows in one
/// window, a change that comes before the first of them has left the window
/// makes the machine fail, and no action is started.
pub proof fn lemma_change_in_a_full_window_fails(
    m: StateMachineView,
    state: usize,
    world: WorldView,
    now: u64,
)
    requires
        state < m.states.len(),
        m.change_limit.wf(),
        m.change_limit.max_events > 0,
        m.change_limit.events.len() == m.change_limit.max_events,
        now >= m.change_limit.latest,
        now - m.change_limit.events[0] < m.change_limit.window,
    ensures
        m.gone_to(state).step(world, now).result == MachinePollView::Failed(
            ActionErrorView::Runaway(change_runaway(m.name)),
        ),
        m.gone_to(state).step(world, now).machine.running is None,
{
    crate::event_limit::lemma_full_window_refuses(m.change_limit, now);
    lemma_fast_change_fails(m, state, world, now);
}

/// A machine whose states change at a pace that its limiter allows never
/// runs away. Where the allowance times `gap` fills the window and every
/// change so far came at least `gap` after the one before it, a change that
/// comes `gap` or more after the last one is counted and the new state
/// starts: the step is that of the action of the new state, and the changes
/// that the limiter holds are as far apart as before, so that the same holds
/// of the next change.
pub proof fn lemma_paced_changes_pass(
    m: StateMachineView,
    state: usize,
    world: WorldView,
    now: u64,
    gap: int,
)
    requires
        state < m.states.len(),
        gap >= 1,
        m.change_limit.max_events >= 1,
        gap * m.change_limit.max_events >= m.change_limit.window,
        crate::event_limit::apart(m.change_limit.events, gap),
        now >= m.change_limit.latest,
        m.change_limit.events.len() > 0 ==> now - m.change_limit.events.last() >= gap,
    ensures
        ({
            let s = m.gone_to(state).step(world, now);
            let started = StateMachineView {
                change_limit: m.change_limit.counted(now),
                active_state: Some(state),
                running_state: Some(state),
                restart: false,
                running: if m.action_of(state) is Some {
                    Some(TaskView::New)
                } else {
                    None
                },
                ..m
            };
            &&& s == started.step_running(given_up(m.running, world), now)
            &&& s.machine.change_limit == m.change_limit.counted(now)
            &&& crate::event_limit::apart(s.machine.change_limit.events, gap)
            &&& s.machine.change_limit.events.last() == now
            &&& s.machine.change_limit.latest == now
        }),
{
    reveal(StateMachineView::step);
    crate::event_limit::lemma_spaced_events_pass(m.change_limit, now, gap);
}

/// A step that changes no state leaves the limiter as it is.
pub proof fn lemma_steady_step_counts_nothing(m: StateMachineView, world: WorldView, now: u64)
    requires
        !m.changes(),
    ensures
        m.step(world, now).machine.change_limit == m.change_limit,
{
    reveal(StateMachineView::step);
}

} // verus!
