//! One step of the run of an action, stated and carried out.
//!
//! `spec_poll` states what a step does to the run and to the world;
//! `poll` does it. A composite action takes one step of one of its parts in
//! each call and asks to be polled again, through the flag `repoll` of the
//! world, when another part can go on at once.
use crate::actions::action::{
    answer_to, lemma_task_views, poll_view, task_views, Action, ActionError, ActionErrorView,
    ActionPoll, NumberDeskView, Task, TaskView, World, WorldView,
};
use crate::actions::alarm_function::{AlarmFunctionAction, AlarmOp};
use crate::actions::debug::DebugAction;
use crate::actions::goto::{GotoAction, GotoRequest};
use crate::actions::play::PlayAction;
use crate::actions::set_tag::SetTagAction;
use crate::actions::set_volume::{SetVolumeAction, TagOrConst, VolumeLevel, VolumeRequest};
use crate::actions::tag_dispatcher::Error as TagError;
use crate::actions::wait::{deadline_after, WaitAction};
use crate::actions::wait_alarm::WaitAlarmAction;
use crate::actions::wait_tag::{number_text, spec_number_text, TagCondition, WaitTagAction};
use crate::app_config::alarm_context::{filter_index, spec_armed, spec_polled};
use crate::app_config::tag_context::{
    is_pending, next_version, option_text, without_ticket, PendingView, SetTagWait, TagContextView,
    SET_TAG_TIMEOUT_MS,
};
use crate::clip_queue::{PlayPoll, PlayRun};
use vstd::prelude::*;

verus! {

/// What a step gives: the run and the world after it, and how the run
/// ended, if it did.
pub struct PollStep {
    pub task: TaskView,
    pub world: WorldView,
    pub result: Option<Result<(), ActionErrorView>>,
}

/// The run has ended.
pub open spec fn finished(world: WorldView, result: Result<(), ActionErrorView>) -> PollStep {
    PollStep { task: TaskView::Done, world, result: Some(result) }
}

/// The run goes on.
pub open spec fn pending(task: TaskView, world: WorldView) -> PollStep {
    PollStep { task, world, result: None }
}

/// The message of a repetition that runs away.
pub open spec fn repeat_runaway() -> Seq<char> {
    "Repetition too fast in repeat action"@
}

/// A line goes to the log.
pub open spec fn step_debug(a: &DebugAction, world: WorldView) -> PollStep {
    finished(WorldView { log: world.log.push(a.text@), ..world }, Ok(()))
}

/// A change of state is asked for; the state machines are to be polled
/// again.
pub open spec fn step_goto(a: &GotoAction, world: WorldView) -> PollStep {
    finished(
        WorldView {
            gotos: world.gotos.push(
                GotoRequest { state_machine: a.state_machine, state_index: a.state_index },
            ),
            repoll: true,
            ..world
        },
        Ok(()),
    )
}

/// The alarms of a filter are ignored or restored. A filter that is not
/// known is passed over.
pub open spec fn step_alarm_function(a: &AlarmFunctionAction, world: WorldView) -> PollStep {
    match filter_index(world.alarms, a.filter@) {
        Some(i) => {
            let after = match a.op {
                AlarmOp::Ignore => world.alarms[i].ignoring(a.permanent),
                AlarmOp::Restore => world.alarms[i].restored(),
            };
            finished(
                WorldView {
                    alarms: world.alarms.update(i, after),
                    tags: after.told(world.tags),
                    ..world
                },
                Ok(()),
            )
        },
        None => finished(world, Ok(())),
    }
}

/// A change of volume is asked for, unless the level comes from a tag whose
/// value is not known.
pub open spec fn step_set_volume(a: &SetVolumeAction, world: WorldView) -> PollStep {
    let tag_value = match a.value {
        TagOrConst::Tag { tag_name } => world.tags.current(tag_name@),
        TagOrConst::Const(_) => None,
    };
    match a.request(tag_value) {
        Some(r) => finished(WorldView { volume: world.volume.push(r), ..world }, Ok(())),
        None => finished(world, Ok(())),
    }
}

/// The first step sets the tag and queues the write; every later step ends
/// the run if the write has been acknowledged or its time is over.
pub open spec fn step_set_tag(a: &SetTagAction, task: TaskView, world: WorldView, now: u64) -> PollStep {
    match task {
        TaskView::SetTag { wait } => if !is_pending(world.tags.pending, wait.ticket) || now
            >= wait.deadline {
            finished(
                WorldView {
                    tags: TagContextView {
                        pending: without_ticket(world.tags.pending, wait.ticket),
                        ..world.tags
                    },
                    ..world
                },
                Ok(()),
            )
        } else {
            pending(task, world)
        },
        _ => pending(
            TaskView::SetTag {
                wait: SetTagWait {
                    ticket: world.tags.next_ticket,
                    deadline: deadline_after(now, SET_TAG_TIMEOUT_MS),
                },
            },
            WorldView {
                tags: TagContextView {
                    pending: world.tags.pending.push(
                        PendingView { ticket: world.tags.next_ticket, name: a.tag_name@ },
                    ),
                    next_ticket: next_version(world.tags.next_ticket),
                    ..world.tags.set(a.tag_name@, a.value@)
                },
                ..world
            },
        ),
    }
}

/// The first step fixes the time at which the wait is over; the run ends
/// with the first step at or after that time.
pub open spec fn step_wait(a: &WaitAction, task: TaskView, world: WorldView, now: u64) -> PollStep {
    let deadline = match task {
        TaskView::Wait { deadline } => deadline,
        _ => deadline_after(now, a.timeout),
    };
    if now >= deadline {
        finished(world, Ok(()))
    } else {
        pending(TaskView::Wait { deadline }, world)
    }
}

/// The run looks at the count of the filter and waits for the next report
/// of the count, unless the count meets the condition.
pub open spec fn arm_alarm(a: &WaitAlarmAction, prev: Option<u32>, world: WorldView) -> PollStep {
    match spec_armed(world.alarms, a.filter_name@) {
        Err(e) => finished(world, Err(ActionErrorView::Alarm(e))),
        Ok((count, version)) => if a.condition.holds(count, prev) {
            finished(world, Ok(()))
        } else {
            pending(TaskView::WaitAlarm { prev: Some(count), armed: Some(version) }, world)
        },
    }
}

/// A run that waits for a report of the count goes on waiting until there
/// is one. The run ends if the reported count meets the condition; else the
/// run remembers the count and looks at the filter again.
pub open spec fn step_wait_alarm(a: &WaitAlarmAction, task: TaskView, world: WorldView) -> PollStep {
    match task {
        TaskView::WaitAlarm { prev, armed: Some(version) } => match spec_polled(
            world.alarms,
            a.filter_name@,
            version,
        ) {
            Err(e) => finished(world, Err(ActionErrorView::Alarm(e))),
            Ok(None) => pending(task, world),
            Ok(Some(count)) => if a.condition.holds(count, prev) {
                finished(world, Ok(()))
            } else {
                arm_alarm(a, Some(count), world)
            },
        },
        TaskView::WaitAlarm { prev, armed: None } => arm_alarm(a, prev, world),
        _ => arm_alarm(a, None, world),
    }
}

/// Whether a value meets a condition, as far as it is known: for a numeric
/// condition it is known once the question how the value compares with the
/// limit has been answered.
pub open spec fn condition_met(
    condition: &TagCondition,
    value: Seq<char>,
    prev: Option<Seq<char>>,
    numbers: NumberDeskView,
) -> Option<bool> {
    match condition.spec_limit() {
        Some(limit) => match answer_to(numbers.answers, spec_number_text(value), limit) {
            Some(order) => Some(condition.holds(value, prev, order)),
            None => None,
        },
        None => Some(condition.holds(value, prev, None)),
    }
}

/// The world after the question that a condition needs answered for a value
/// has been asked.
pub open spec fn question_asked(condition: &TagCondition, value: Seq<char>, world: WorldView) -> WorldView {
    match condition.spec_limit() {
        Some(limit) => WorldView {
            numbers: world.numbers.asked(spec_number_text(value), limit),
            repoll: true,
            ..world
        },
        None => world,
    }
}

/// The run looks at the value of the tag and waits for its next change,
/// unless the value meets the condition. A value that is not known meets no
/// condition. While a question about the value is open, the run is polled
/// again.
pub open spec fn arm_tag(a: &WaitTagAction, prev: Option<Seq<char>>, world: WorldView) -> PollStep {
    match world.tags.armed(a.tag@) {
        None => finished(world, Err(ActionErrorView::Tag(TagError::TagNotFound))),
        Some(version) => match world.tags.current(a.tag@) {
            Some(value) => match condition_met(&a.condition, value, prev, world.numbers) {
                None => pending(
                    TaskView::WaitTag { prev, armed: None },
                    question_asked(&a.condition, value, world),
                ),
                Some(true) => finished(world, Ok(())),
                Some(false) => pending(
                    TaskView::WaitTag { prev: Some(value), armed: Some(version) },
                    world,
                ),
            },
            None => pending(TaskView::WaitTag { prev: None, armed: Some(version) }, world),
        },
    }
}

/// A run that waits for a change of the tag goes on waiting until there is
/// one. The run ends if the new value meets the condition; else the run
/// remembers the value and looks at the tag again.
pub open spec fn step_wait_tag(a: &WaitTagAction, task: TaskView, world: WorldView) -> PollStep {
    match task {
        TaskView::WaitTag { prev, armed: Some(version) } => match world.tags.polled(
            a.tag@,
            version,
        ) {
            Err(e) => finished(world, Err(ActionErrorView::Tag(e))),
            Ok(None) => pending(task, world),
            Ok(Some(value)) => match condition_met(&a.condition, value, prev, world.numbers) {
                None => pending(task, question_asked(&a.condition, value, world)),
                Some(true) => finished(world, Ok(())),
                Some(false) => arm_tag(a, Some(value), world),
            },
        },
        TaskView::WaitTag { prev, armed: None } => arm_tag(a, prev, world),
        _ => arm_tag(a, None, world),
    }
}

/// The clip queue takes the playing of the clip one step further.
pub open spec fn step_play(a: &PlayAction, task: TaskView, world: WorldView, now: u64) -> PollStep {
    let run = match task {
        TaskView::Play { run } => run,
        _ => PlayRun::Idle,
    };
    let s = world.queue.step(run, a.samples, a.priority, a.timeout, now);
    let after = WorldView { queue: s.queue, ..world };
    match s.outcome {
        None => pending(TaskView::Play { run: s.run }, after),
        Some(Ok(())) => finished(after, Ok(())),
        Some(Err(e)) => finished(after, Err(ActionErrorView::Playback(e))),
    }
}

/// The world after a run is given up: the tokens of the clips that wait or
/// play go back to the scheduler, a clip that is playing is cancelled, and
/// a write that waits for its acknowledgement is no longer waited for.
pub open spec fn spec_cancel(task: TaskView, world: WorldView) -> WorldView
    decreases task, 0nat,
{
    match task {
        TaskView::Sequence { current, .. } => spec_cancel(*current, world),
        TaskView::Parallel { children, .. } => spec_cancel_all(children, children.len(), world),
        TaskView::Repeat { body, .. } => spec_cancel(*body, world),
        TaskView::Play { run } => WorldView { queue: world.queue.cancelled(run), ..world },
        TaskView::SetTag { wait } => WorldView {
            tags: TagContextView {
                pending: without_ticket(world.tags.pending, wait.ticket),
                ..world.tags
            },
            ..world
        },
        _ => world,
    }
}

/// The world after the first `n` runs of a list are given up, the last of
/// them first.
pub open spec fn spec_cancel_all(children: Seq<TaskView>, n: nat, world: WorldView) -> WorldView
    decreases children, n,
{
    if n == 0 || n > children.len() {
        world
    } else {
        spec_cancel_all(children, (n - 1) as nat, spec_cancel(children[n - 1], world))
    }
}

/// Whether every run of a list has ended.
pub open spec fn all_done(children: Seq<TaskView>) -> bool {
    forall|i: int| 0 <= i < children.len() ==> #[trigger] children[i] is Done
}

/// One step of the run of an action.
///
/// A sequence takes a step of the action that it has come to; when that
/// action has ended without failure, the sequence goes on to the next one
/// and asks to be polled again, or ends if there is none. A failure of an
/// action ends the sequence with that failure.
///
/// A group takes a step of one of its actions in turn. It ends without
/// failure when all its actions have; a failure of an action ends the group
/// with that failure, and the runs of the other actions are given up.
///
/// A repetition starts a round when none is under way: a counted repetition
/// ends when no round is left, an endless one counts an event of its
/// limiter and fails if the event is refused. Then it takes a step of the
/// round. When the round has ended, the repetition asks to be polled again.
pub open spec fn spec_poll(action: &Action, task: TaskView, world: WorldView, now: u64) -> PollStep
    decreases action,
{
    match action {
        Action::Debug(a) => step_debug(a, world),
        Action::Goto(a) => step_goto(a, world),
        Action::AlarmFunction(a) => step_alarm_function(a, world),
        Action::SetVolume(a) => step_set_volume(a, world),
        Action::SetTag(a) => step_set_tag(a, task, world, now),
        Action::Wait(a) => step_wait(a, task, world, now),
        Action::WaitAlarm(a) => step_wait_alarm(a, task, world),
        Action::WaitTag(a) => step_wait_tag(a, task, world),
        Action::Play(a) => step_play(a, task, world, now),
        Action::Sequence(a) => {
            let len = a.actions@.len();
            let index: int = match task {
                TaskView::Sequence { index, .. } => if index < len {
                    index as int
                } else {
                    0
                },
                _ => 0,
            };
            let current = match task {
                TaskView::Sequence { index, current } => if index < len {
                    *current
                } else {
                    TaskView::New
                },
                _ => TaskView::New,
            };
            if len == 0 {
                finished(world, Ok(()))
            } else {
                let child = spec_poll(&a.actions@[index], current, world, now);
                match child.result {
                    None => pending(
                        TaskView::Sequence {
                            index: index as usize,
                            current: Box::new(child.task),
                        },
                        child.world,
                    ),
                    Some(Err(e)) => finished(child.world, Err(e)),
                    Some(Ok(())) => if index + 1 == len {
                        finished(child.world, Ok(()))
                    } else {
                        pending(
                            TaskView::Sequence {
                                index: (index + 1) as usize,
                                current: Box::new(TaskView::New),
                            },
                            WorldView { repoll: true, ..child.world },
                        )
                    },
                }
            }
        },
        Action::Parallel(a) => {
            let len = a.actions@.len();
            let fits = task matches TaskView::Parallel { cursor, children } && children.len() == len
                && cursor < len;
            let cursor: int = if fits {
                task->cursor as int
            } else {
                0
            };
            let children = if fits {
                task->children
            } else {
                Seq::new(len, |i: int| TaskView::New)
            };
            if len == 0 {
                finished(world, Ok(()))
            } else {
                let child = if children[cursor] is Done {
                    PollStep { task: TaskView::Done, world, result: Some(Ok(())) }
                } else {
                    spec_poll(&a.actions@[cursor], children[cursor], world, now)
                };
                match child.result {
                    Some(Err(e)) => {
                        let rest = children.update(cursor, TaskView::Done);
                        finished(spec_cancel_all(rest, rest.len(), child.world), Err(e))
                    },
                    _ => {
                        let after = children.update(
                            cursor,
                            if child.result is Some {
                                TaskView::Done
                            } else {
                                child.task
                            },
                        );
                        if all_done(after) {
                            finished(child.world, Ok(()))
                        } else if cursor + 1 == len {
                            pending(TaskView::Parallel { cursor: 0, children: after }, child.world)
                        } else {
                            pending(
                                TaskView::Parallel {
                                    cursor: (cursor + 1) as usize,
                                    children: after,
                                },
                                WorldView { repoll: true, ..child.world },
                            )
                        }
                    },
                }
            }
        },
        Action::Repeat(a) => {
            let fits = task is Repeat;
            let remaining = if fits {
                task->remaining
            } else {
                a.count
            };
            let limit = if fits {
                task->limit
            } else {
                a.repeat_limit@
            };
            let running = fits && task->running;
            let body = if running {
                *task->body
            } else {
                TaskView::New
            };
            if !running && remaining == Some(0u32) {
                finished(world, Ok(()))
            } else if !running && remaining is None && !limit.allows(now) {
                finished(world, Err(ActionErrorView::Runaway(repeat_runaway())))
            } else {
                let left = if running {
                    remaining
                } else {
                    match remaining {
                        Some(n) => Some((n - 1) as u32),
                        None => None,
                    }
                };
                let counted = if !running && remaining is None {
                    limit.counted(now)
                } else {
                    limit
                };
                let child = spec_poll(&*a.action, body, world, now);
                match child.result {
                    None => pending(
                        TaskView::Repeat {
                            remaining: left,
                            limit: counted,
                            running: true,
                            body: Box::new(child.task),
                        },
                        child.world,
                    ),
                    Some(Err(e)) => finished(child.world, Err(e)),
                    Some(Ok(())) => if left == Some(0u32) {
                        finished(child.world, Ok(()))
                    } else {
                        pending(
                            TaskView::Repeat {
                                remaining: left,
                                limit: counted,
                                running: false,
                                body: Box::new(TaskView::New),
                            },
                            WorldView { repoll: true, ..child.world },
                        )
                    },
                }
            }
        },
    }
}

/// What a call of `poll` returned, as a step.
pub open spec fn step_of(r: (Task, ActionPoll), world: WorldView) -> PollStep {
    PollStep { task: r.0@, world, result: poll_view(r.1) }
}

/// The text of an optional string that is borrowed.
pub open spec fn borrowed_text(s: Option<&String>) -> Option<Seq<char>> {
    match s {
        Some(s) => Some(s@),
        None => None,
    }
}

fn poll_debug(a: &DebugAction, world: &mut World) -> (r: (Task, ActionPoll))
    requires
        old(world).wf(),
    ensures
        final(world).wf(),
        step_of(r, final(world)@) == step_debug(a, old(world)@),
{
    world.log.push(a.run());
    proof {
        assert(final(world)@.log =~= old(world)@.log.push(a.text@));
    }
    (Task::Done, ActionPoll::Ready(Ok(())))
}

fn poll_goto(a: &GotoAction, world: &mut World) -> (r: (Task, ActionPoll))
    requires
        old(world).wf(),
    ensures
        final(world).wf(),
        step_of(r, final(world)@) == step_goto(a, old(world)@),
{
    world.gotos.push(a.run());
    world.repoll = true;
    (Task::Done, ActionPoll::Ready(Ok(())))
}

fn poll_alarm_function(a: &AlarmFunctionAction, world: &mut World) -> (r: (Task, ActionPoll))
    requires
        old(world).wf(),
    ensures
        final(world).wf(),
        step_of(r, final(world)@) == step_alarm_function(a, old(world)@),
{
    a.run(&mut world.alarms, &mut world.tags);
    (Task::Done, ActionPoll::Ready(Ok(())))
}

fn poll_set_volume(a: &SetVolumeAction, world: &mut World) -> (r: (Task, ActionPoll))
    requires
        old(world).wf(),
    ensures
        final(world).wf(),
        step_of(r, final(world)@) == step_set_volume(a, old(world)@),
{
    let ghost before = world@;
    match &a.value {
        TagOrConst::Const(b) => {
            let request = VolumeRequest { control: a.control.clone(), level: VolumeLevel::Bits(*b) };
            world.volume.push(request);
            proof {
                assert(final(world)@.volume =~= before.volume.push(request@));
            }
        },
        TagOrConst::Tag { tag_name } => {
            match world.tags.get_value(tag_name.as_str()) {
                Some(v) => {
                    let request = VolumeRequest {
                        control: a.control.clone(),
                        level: VolumeLevel::Text(v),
                    };
                    world.volume.push(request);
                    proof {
                        assert(final(world)@.volume =~= before.volume.push(request@));
                    }
                },
                None => {},
            }
        },
    }
    (Task::Done, ActionPoll::Ready(Ok(())))
}

fn poll_set_tag(a: &SetTagAction, task: Task, world: &mut World, now: u64) -> (r: (
    Task,
    ActionPoll,
))
    requires
        old(world).wf(),
    ensures
        final(world).wf(),
        step_of(r, final(world)@) == step_set_tag(a, task@, old(world)@, now),
{
    match task {
        Task::SetTag { wait } => {
            if world.tags.poll_set_tag(&wait, now) {
                (Task::Done, ActionPoll::Ready(Ok(())))
            } else {
                (Task::SetTag { wait }, ActionPoll::Pending)
            }
        },
        _ => {
            let wait = world.tags.async_set_tag(a.tag_name.as_str(), a.value.as_str(), now);
            (Task::SetTag { wait }, ActionPoll::Pending)
        },
    }
}

fn poll_wait(a: &WaitAction, task: Task, world: &mut World, now: u64) -> (r: (Task, ActionPoll))
    requires
        old(world).wf(),
    ensures
        final(world).wf(),
        *final(world) == *old(world),
        step_of(r, final(world)@) == step_wait(a, task@, old(world)@, now),
{
    let deadline = match task {
        Task::Wait { deadline } => deadline,
        _ => a.run(now),
    };
    if now >= deadline {
        (Task::Done, ActionPoll::Ready(Ok(())))
    } else {
        (Task::Wait { deadline }, ActionPoll::Pending)
    }
}

fn arm_alarm_wait(a: &WaitAlarmAction, prev: Option<u32>, world: &mut World) -> (r: (
    Task,
    ActionPoll,
))
    requires
        old(world).wf(),
    ensures
        final(world).wf(),
        *final(world) == *old(world),
        step_of(r, final(world)@) == arm_alarm(a, prev, old(world)@),
{
    match world.alarms.wait_alarm_filter(a.filter_name.as_str()) {
        Err(e) => (Task::Done, ActionPoll::Ready(Err(ActionError::Alarm(e)))),
        Ok((count, wait)) => {
            if a.condition.check(count, prev) {
                (Task::Done, ActionPoll::Ready(Ok(())))
            } else {
                (
                    Task::WaitAlarm { prev: Some(count), armed: Some(wait.version) },
                    ActionPoll::Pending,
                )
            }
        },
    }
}

fn poll_wait_alarm(a: &WaitAlarmAction, task: Task, world: &mut World) -> (r: (Task, ActionPoll))
    requires
        old(world).wf(),
    ensures
        final(world).wf(),
        *final(world) == *old(world),
        step_of(r, final(world)@) == step_wait_alarm(a, task@, old(world)@),
{
    match task {
        Task::WaitAlarm { prev, armed: Some(version) } => {
            match world.alarms.poll_version(a.filter_name.as_str(), version) {
                Err(e) => (Task::Done, ActionPoll::Ready(Err(ActionError::Alarm(e)))),
                Ok(None) => (Task::WaitAlarm { prev, armed: Some(version) }, ActionPoll::Pending),
                Ok(Some(count)) => {
                    if a.condition.check(count, prev) {
                        (Task::Done, ActionPoll::Ready(Ok(())))
                    } else {
                        arm_alarm_wait(a, Some(count), world)
                    }
                },
            }
        },
        Task::WaitAlarm { prev, armed: None } => arm_alarm_wait(a, prev, world),
        _ => arm_alarm_wait(a, None, world),
    }
}

/// Finds out whether a value meets a condition; asks the question that has
/// to be answered first, if there is one.
fn check_condition(
    condition: &TagCondition,
    value: &str,
    prev: Option<&String>,
    world: &mut World,
) -> (r: Option<bool>)
    requires
        old(world).wf(),
    ensures
        final(world).wf(),
        r == condition_met(condition, value@, borrowed_text(prev), old(world)@.numbers),
        final(world)@ == if r is None {
            question_asked(condition, value@, old(world)@)
        } else {
            old(world)@
        },
{
    match condition.limit() {
        Some(limit) => {
            let text = number_text(value);
            match world.numbers.lookup(text.as_str(), limit) {
                Some(order) => Some(condition.check(value, prev, order)),
                None => {
                    world.numbers.ask(text.as_str(), limit);
                    world.repoll = true;
                    None
                },
            }
        },
        None => Some(condition.check(value, prev, None)),
    }
}

fn arm_tag_wait(a: &WaitTagAction, prev: Option<String>, world: &mut World) -> (r: (
    Task,
    ActionPoll,
))
    requires
        old(world).wf(),
    ensures
        final(world).wf(),
        step_of(r, final(world)@) == arm_tag(a, option_text(prev), old(world)@),
{
    match world.tags.wait_value(a.tag.as_str()) {
        Err(e) => (Task::Done, ActionPoll::Ready(Err(ActionError::Tag(e)))),
        Ok((value, wait)) => {
            match value {
                Some(v) => {
                    let met = check_condition(&a.condition, v.as_str(), prev.as_ref(), world);
                    match met {
                        None => (Task::WaitTag { prev, armed: None }, ActionPoll::Pending),
                        Some(true) => (Task::Done, ActionPoll::Ready(Ok(()))),
                        Some(false) => (
                            Task::WaitTag { prev: Some(v), armed: Some(wait.version) },
                            ActionPoll::Pending,
                        ),
                    }
                },
                None => (
                    Task::WaitTag { prev: None, armed: Some(wait.version) },
                    ActionPoll::Pending,
                ),
            }
        },
    }
}

fn poll_wait_tag(a: &WaitTagAction, task: Task, world: &mut World) -> (r: (Task, ActionPoll))
    requires
        old(world).wf(),
    ensures
        final(world).wf(),
        step_of(r, final(world)@) == step_wait_tag(a, task@, old(world)@),
{
    match task {
        Task::WaitTag { prev, armed: Some(version) } => {
            match world.tags.poll_version(a.tag.as_str(), version) {
                Err(e) => (Task::Done, ActionPoll::Ready(Err(ActionError::Tag(e)))),
                Ok(None) => (Task::WaitTag { prev, armed: Some(version) }, ActionPoll::Pending),
                Ok(Some(v)) => {
                    let met = check_condition(&a.condition, v.as_str(), prev.as_ref(), world);
                    match met {
                        None => (
                            Task::WaitTag { prev, armed: Some(version) },
                            ActionPoll::Pending,
                        ),
                        Some(true) => (Task::Done, ActionPoll::Ready(Ok(()))),
                        Some(false) => arm_tag_wait(a, Some(v), world),
                    }
                },
            }
        },
        Task::WaitTag { prev, armed: None } => arm_tag_wait(a, prev, world),
        _ => arm_tag_wait(a, None, world),
    }
}

fn poll_play(a: &PlayAction, task: Task, world: &mut World, now: u64) -> (r: (Task, ActionPoll))
    requires
        old(world).wf(),
    ensures
        final(world).wf(),
        step_of(r, final(world)@) == step_play(a, task@, old(world)@, now),
{
    let mut run = match task {
        Task::Play { run } => run,
        _ => PlayRun::Idle,
    };
    match world.clip_queue.play(&mut run, &a.samples, a.priority, a.timeout, now) {
        PlayPoll::Pending => (Task::Play { run }, ActionPoll::Pending),
        PlayPoll::Finished => (Task::Done, ActionPoll::Ready(Ok(()))),
        PlayPoll::Failed(e) => (Task::Done, ActionPoll::Ready(Err(ActionError::Playback(e)))),
    }
}

/// The view of the run of a group holds the views of the runs of its
/// actions.
pub proof fn lemma_parallel_view(cursor: usize, children: Vec<Task>)
    ensures
        (Task::Parallel { cursor, children })@ == (TaskView::Parallel {
            cursor,
            children: task_views(children@),
        }),
        task_views(children@).len() == children@.len(),
        forall|i: int|
            #![trigger task_views(children@)[i]]
            #![trigger children@[i]]
            0 <= i < children@.len() ==> task_views(children@)[i] == children@[i]@,
{
    lemma_task_views(children@);
}

/// Gives up the runs of a list.
fn cancel_all(children: Vec<Task>, world: &mut World)
    requires
        old(world).wf(),
    ensures
        final(world).wf(),
        final(world)@ == spec_cancel_all(
            task_views(children@),
            children@.len(),
            old(world)@,
        ),
    decreases children,
{
    let mut rest = children;
    let ghost views = task_views(children@);
    while rest.len() > 0
        invariant
            world.wf(),
            rest@.len() <= children@.len(),
            views == task_views(children@),
            forall|k: int| 0 <= k < rest@.len() ==> rest@[k] == children@[k],
            spec_cancel_all(views, rest@.len(), world@) == spec_cancel_all(
                views,
                children@.len(),
                old(world)@,
            ),
        decreases rest@.len(),
    {
        let ghost n = rest@.len();
        let last = rest.pop().unwrap();
        proof {
            lemma_task_views(children@);
            assert(last == children@[n - 1]);
            assert(views[n - 1] == last@);
        }
        cancel(last, world);
    }
}

/// Gives up a run that has not ended: the tokens of the clips that wait or
/// play go back to the scheduler, a clip that is playing is cancelled, and a
/// write that waits for its acknowledgement is no longer waited for.
pub fn cancel(task: Task, world: &mut World)
    requires
        old(world).wf(),
    ensures
        final(world).wf(),
        final(world)@ == spec_cancel(task@, old(world)@),
    decreases task,
{
    match task {
        Task::Sequence { index, current } => {
            cancel(*current, world);
        },
        Task::Parallel { cursor, children } => {
            proof {
                lemma_parallel_view(cursor, children);
            }
            cancel_all(children, world);
        },
        Task::Repeat { remaining, limit, running, body } => {
            cancel(*body, world);
        },
        Task::Play { run } => {
            let mut run = run;
            world.clip_queue.cancel(&mut run);
        },
        Task::SetTag { wait } => {
            world.tags.forget(wait.ticket);
        },
        _ => {},
    }
}

/// A list of `n` runs that have not started.
fn fresh_children(n: usize) -> (r: Vec<Task>)
    ensures
        task_views(r@) == Seq::new(n as nat, |i: int| TaskView::New),
{
    let mut r: Vec<Task> = Vec::new();
    let mut i: usize = 0;
    while i < n
        invariant
            i <= n,
            r@.len() == i,
            forall|k: int| 0 <= k < i ==> r@[k] is New,
        decreases n - i,
    {
        r.push(Task::New);
        i += 1;
    }
    proof {
        lemma_task_views(r@);
        assert(task_views(r@) =~= Seq::new(n as nat, |i: int| TaskView::New));
    }
    r
}

/// Puts a run at a place of a list and returns the run that was there.
fn replace_child(children: &mut Vec<Task>, i: usize, task: Task) -> (r: Task)
    requires
        i < old(children)@.len(),
    ensures
        r == old(children)@[i as int],
        final(children)@ == old(children)@.update(i as int, task),
{
    let mut tail = children.split_off(i);
    let taken = tail.remove(0);
    children.push(task);
    children.append(&mut tail);
    proof {
        assert(final(children)@ =~= old(children)@.update(i as int, task));
    }
    taken
}

/// Whether every run of a list has ended.
fn every_child_done(children: &Vec<Task>) -> (r: bool)
    ensures
        r == all_done(task_views(children@)),
{
    let mut i: usize = 0;
    proof {
        lemma_task_views(children@);
    }
    while i < children.len()
        invariant
            i <= children.len(),
            task_views(children@).len() == children@.len(),
            forall|k: int|
                0 <= k < children@.len() ==> task_views(children@)[k] == (#[trigger] children@[k])@,
            forall|k: int| 0 <= k < i ==> task_views(children@)[k] is Done,
        decreases children.len() - i,
    {
        let done = match &children[i] {
            Task::Done => true,
            _ => false,
        };
        if !done {
            assert(!(task_views(children@)[i as int] is Done));
            return false;
        }
        i += 1;
    }
    true
}

/// Takes the run of an action one step further. `task` is the run as the
/// last call returned it, or `Task::New` for a run that starts. Returns the
/// run after the step and whether it has ended. A run that does not belong
/// to the action starts anew.
pub fn poll(action: &Action, task: Task, world: &mut World, now: u64) -> (r: (Task, ActionPoll))
    requires
        old(world).wf(),
    ensures
        final(world).wf(),
        step_of(r, final(world)@) == spec_poll(action, task@, old(world)@, now),
    decreases action,
{
    match action {
        Action::Debug(a) => poll_debug(a, world),
        Action::Goto(a) => poll_goto(a, world),
        Action::AlarmFunction(a) => poll_alarm_function(a, world),
        Action::SetVolume(a) => poll_set_volume(a, world),
        Action::SetTag(a) => poll_set_tag(a, task, world, now),
        Action::Wait(a) => poll_wait(a, task, world, now),
        Action::WaitAlarm(a) => poll_wait_alarm(a, task, world),
        Action::WaitTag(a) => poll_wait_tag(a, task, world),
        Action::Play(a) => poll_play(a, task, world, now),
        Action::Sequence(a) => {
            let len = a.actions.len();
            if len == 0 {
                return (Task::Done, ActionPoll::Ready(Ok(())));
            }
            let (index, current) = match task {
                Task::Sequence { index, current } => if index < len {
                    (index, *current)
                } else {
                    (0, Task::New)
                },
                _ => (0, Task::New),
            };
            let (t, r) = poll(&a.actions[index], current, world, now);
            match r {
                ActionPoll::Pending => (
                    Task::Sequence { index, current: Box::new(t) },
                    ActionPoll::Pending,
                ),
                ActionPoll::Ready(Err(e)) => (Task::Done, ActionPoll::Ready(Err(e))),
                ActionPoll::Ready(Ok(())) => {
                    if index + 1 == len {
                        (Task::Done, ActionPoll::Ready(Ok(())))
                    } else {
                        world.repoll = true;
                        (
                            Task::Sequence { index: index + 1, current: Box::new(Task::New) },
                            ActionPoll::Pending,
                        )
                    }
                },
            }
        },
        Action::Parallel(a) => {
            let len = a.actions.len();
            if len == 0 {
                return (Task::Done, ActionPoll::Ready(Ok(())));
            }
            let (cursor, mut children) = match task {
                Task::Parallel { cursor, children } => {
                    proof {
                        lemma_parallel_view(cursor, children);
                    }
                    if children.len() == len && cursor < len {
                        (cursor, children)
                    } else {
                        (0, fresh_children(len))
                    }
                },
                _ => (0, fresh_children(len)),
            };
            let ghost before = task_views(children@);
            let ghost before_tasks = children@;
            proof {
                lemma_task_views(children@);
            }
            let child = replace_child(&mut children, cursor, Task::Done);
            proof {
                lemma_task_views(children@);
            }
            let is_done = match &child {
                Task::Done => true,
                _ => false,
            };
            if !is_done {
                let (t, r) = poll(&a.actions[cursor], child, world, now);
                match r {
                    ActionPoll::Ready(Err(e)) => {
                        proof {
                            assert(task_views(children@) =~= before.update(
                                cursor as int,
                                TaskView::Done,
                            ));
                        }
                        cancel_all(children, world);
                        return (Task::Done, ActionPoll::Ready(Err(e)));
                    },
                    ActionPoll::Ready(Ok(())) => {},
                    ActionPoll::Pending => {
                        replace_child(&mut children, cursor, t);
                        proof {
                            lemma_task_views(children@);
                        }
                    },
                }
            }
            proof {
                let child_step = if before[cursor as int] is Done {
                    PollStep { task: TaskView::Done, world: old(world)@, result: Some(Ok(())) }
                } else {
                    spec_poll(&a.actions@[cursor as int], before[cursor as int], old(world)@, now)
                };
                let after = before.update(
                    cursor as int,
                    if child_step.result is Some {
                        TaskView::Done
                    } else {
                        child_step.task
                    },
                );
                assert(task_views(children@) =~= after);
            }
            if every_child_done(&children) {
                (Task::Done, ActionPoll::Ready(Ok(())))
            } else if cursor + 1 == len {
                proof {
                    lemma_parallel_view(0, children);
                }
                (Task::Parallel { cursor: 0, children }, ActionPoll::Pending)
            } else {
                world.repoll = true;
                proof {
                    lemma_parallel_view((cursor + 1) as usize, children);
                }
                (Task::Parallel { cursor: cursor + 1, children }, ActionPoll::Pending)
            }
        },
        Action::Repeat(a) => {
            let (remaining, mut limit, running, body) = match task {
                Task::Repeat { remaining, limit, running, body } => if running {
                    (remaining, limit, true, *body)
                } else {
                    (remaining, limit, false, Task::New)
                },
                _ => (a.count, a.repeat_limit.duplicate(), false, Task::New),
            };
            let mut left = remaining;
            if !running {
                match remaining {
                    Some(n) => {
                        if n == 0 {
                            return (Task::Done, ActionPoll::Ready(Ok(())));
                        }
                        left = Some(n - 1);
                    },
                    None => {
                        if !limit.count(now) {
                            return (
                                Task::Done,
                                ActionPoll::Ready(
                                    Err(
                                        ActionError::Runaway(
                                            "Repetition too fast in repeat action".to_owned(),
                                        ),
                                    ),
                                ),
                            );
                        }
                    },
                }
            }
            let (t, r) = poll(&*a.action, body, world, now);
            match r {
                ActionPoll::Pending => (
                    Task::Repeat { remaining: left, limit, running: true, body: Box::new(t) },
                    ActionPoll::Pending,
                ),
                ActionPoll::Ready(Err(e)) => (Task::Done, ActionPoll::Ready(Err(e))),
                ActionPoll::Ready(Ok(())) => {
                    let finished = match left {
                        Some(n) => n == 0,
                        None => false,
                    };
                    if finished {
                        (Task::Done, ActionPoll::Ready(Ok(())))
                    } else {
                        world.repoll = true;
                        (
                            Task::Repeat {
                                remaining: left,
                                limit,
                                running: false,
                                body: Box::new(Task::New),
                            },
                            ActionPoll::Pending,
                        )
                    }
                },
            }
        },
    }
}

} // verus!
