//! What the runs of some actions come to over several steps.
//!
//! `poll` states one step. The laws here put steps together: a wait ends at
//! its time and not before, a wait for a tag ends with the change that
//! meets its condition, and a sequence with a wait in it does what follows
//! the wait only when the time of the wait is over.
use crate::actions::action::{Action, ActionErrorView, TaskView, WorldView};
use crate::actions::poll::{
    condition_met, finished, pending, repeat_runaway, spec_cancel, spec_poll, PollStep,
};
use crate::app_config::tag_context::{entry_index, lemma_entry_index, next_version, TagContextView};
use crate::event_limit::lemma_burst_is_cut;
use vstd::prelude::*;

verus! {

/// A wait ends at its time and not before. The first step, at the time
/// `start`, fixes the end of the wait; a step before the end leaves the run
/// waiting, a step at or after the end ends it without failure. No step
/// changes the world, and giving the wait up changes nothing either.
pub proof fn lemma_wait_takes_its_time(
    action: &Action,
    world: WorldView,
    start: u64,
    later: u64,
    any: WorldView,
)
    requires
        action is Wait,
        action->Wait_0.timeout > 0,
        start + action->Wait_0.timeout <= u64::MAX,
        start <= later,
    ensures
        ({
            let end = (start + action->Wait_0.timeout) as u64;
            let first = spec_poll(action, TaskView::New, world, start);
            let next = spec_poll(action, first.task, any, later);
            &&& first == pending(TaskView::Wait { deadline: end }, world)
            &&& later < end ==> next == pending(TaskView::Wait { deadline: end }, any)
            &&& later >= end ==> next == finished(any, Ok(()))
            &&& spec_cancel(first.task, any) == any
        }),
{
}

/// A wait for a tag ends with the value that meets its condition. Where
/// the value of the tag does not meet the condition, the first step leaves
/// the run waiting for the next change of the tag. After that change, the
/// next step ends the run without failure if the new value meets the
/// condition, with the value before as the earlier one. Neither step
/// changes a tag.
///
/// Whether a value meets a numeric condition is known once the caller has
/// answered how the value compares with the limit; both answers are taken
/// as given here.
pub proof fn lemma_wait_tag_ends_with_the_change(
    action: &Action,
    world: WorldView,
    first_value: Seq<char>,
    new_value: Seq<char>,
    after: WorldView,
    now: u64,
    later: u64,
)
    requires
        action is WaitTag,
        world.tags.wf(),
        world.tags.current(action->WaitTag_0.tag@) == Some(first_value),
        condition_met(&action->WaitTag_0.condition, first_value, None, world.numbers) == Some(
            false,
        ),
        after.tags == world.tags.changed(action->WaitTag_0.tag@, new_value),
        condition_met(
            &action->WaitTag_0.condition,
            new_value,
            Some(first_value),
            after.numbers,
        ) == Some(true),
    ensures
        ({
            let first = spec_poll(action, TaskView::New, world, now);
            let second = spec_poll(action, first.task, after, later);
            &&& first.result is None
            &&& first.world == world
            &&& first.task == (TaskView::WaitTag {
                prev: Some(first_value),
                armed: world.tags.armed(action->WaitTag_0.tag@),
            })
            &&& spec_poll(action, first.task, world, later) == first
            &&& second == finished(after, Ok(()))
        }),
{
    let tag = action->WaitTag_0.tag@;
    lemma_entry_index(world.tags.tags, tag);
    let i = entry_index(world.tags.tags, tag)->0;
    let changed = world.tags.changed(tag, new_value);
    assert(changed.tags[i].name == tag);
    lemma_name_stays(world.tags, tag, new_value);
}

/// A change of a tag leaves the tag where it is in the list, with the next
/// version and the new value.
proof fn lemma_name_stays(tags: TagContextView, name: Seq<char>, value: Seq<char>)
    requires
        tags.wf(),
        entry_index(tags.tags, name) is Some,
    ensures
        entry_index(tags.changed(name, value).tags, name) == entry_index(tags.tags, name),
        tags.changed(name, value).current(name) == Some(value),
        tags.changed(name, value).armed(name) == Some(
            next_version(tags.armed(name)->0),
        ),
        tags.changed(name, value).polled(name, tags.armed(name)->0) == Ok::<
            Option<Seq<char>>,
            crate::actions::tag_dispatcher::Error,
        >(Some(value)),
{
    lemma_entry_index(tags.tags, name);
    let i = entry_index(tags.tags, name)->0;
    let after = tags.changed(name, value).tags;
    lemma_entry_index(after, name);
    assert(after[i].name == name);
    match entry_index(after, name) {
        Some(k) => {
            if k != i {
                assert(after[k] == tags.tags[k]);
                if k < i {
                    assert(tags.tags[k].name != tags.tags[i].name);
                } else {
                    assert(tags.tags[i].name != tags.tags[k].name);
                }
            }
        },
        None => {},
    }
}

/// In a sequence of a line for the log, a wait and a second line, the
/// second line is written when the time of the wait is over and not
/// before: a step that writes it comes at least the time of the wait after
/// the step that wrote the first line.
pub proof fn lemma_line_after_wait(
    action: &Action,
    world: WorldView,
    wrote_first: u64,
    wait_began: u64,
    later: u64,
)
    requires
        action is Sequence,
        action->Sequence_0.actions@.len() == 3,
        action->Sequence_0.actions@[0] is Debug,
        action->Sequence_0.actions@[1] is Wait,
        action->Sequence_0.actions@[2] is Debug,
        action->Sequence_0.actions@[1]->Wait_0.timeout > 0,
        wait_began + action->Sequence_0.actions@[1]->Wait_0.timeout <= u64::MAX,
        wrote_first <= wait_began <= later,
    ensures
        ({
            let x = action->Sequence_0.actions@[0]->Debug_0.text@;
            let y = action->Sequence_0.actions@[2]->Debug_0.text@;
            let end = (wait_began + action->Sequence_0.actions@[1]->Wait_0.timeout) as u64;
            let one = spec_poll(action, TaskView::New, world, wrote_first);
            let two = spec_poll(action, one.task, one.world, wait_began);
            let three = spec_poll(action, two.task, two.world, later);
            let four = spec_poll(action, three.task, three.world, later);
            &&& one.result is None && one.world.log == world.log.push(x)
            &&& two.result is None && two.world.log == world.log.push(x)
            &&& later < end ==> three == two
            &&& later >= end ==> three.result is None && three.world.log == world.log.push(x)
                && four.result == Some(Ok::<(), ActionErrorView>(())) && four.world.log
                == world.log.push(x).push(y)
        }),
{
    let list = action->Sequence_0.actions@;
    let one = spec_poll(action, TaskView::New, world, wrote_first);
    assert(spec_poll(&list[0], TaskView::New, world, wrote_first).result == Some(
        Ok::<(), ActionErrorView>(()),
    ));
    assert(one.task == (TaskView::Sequence { index: 1, current: Box::new(TaskView::New) }));
    let two = spec_poll(action, one.task, one.world, wait_began);
    lemma_wait_takes_its_time(&list[1], one.world, wait_began, later, one.world);
    let end = (wait_began + list[1]->Wait_0.timeout) as u64;
    assert(two.task == (TaskView::Sequence {
        index: 1,
        current: Box::new(TaskView::Wait { deadline: end }),
    }));
    assert(two.world == one.world);
    let three = spec_poll(action, two.task, two.world, later);
    let x = list[0]->Debug_0.text@;
    let y = list[2]->Debug_0.text@;
    assert(one.result is None && one.world.log == world.log.push(x));
    assert(two.result is None);
    if later < end {
        assert(spec_poll(&list[1], TaskView::Wait { deadline: end }, two.world, later) == pending(
            TaskView::Wait { deadline: end },
            two.world,
        ));
        assert(three == two);
    } else {
        assert(spec_poll(&list[1], TaskView::Wait { deadline: end }, two.world, later)
            == finished(two.world, Ok(())));
        assert(three.task == (TaskView::Sequence {
            index: 2,
            current: Box::new(TaskView::New),
        }));
        assert(three.world.log == world.log.push(x));
        let four = spec_poll(action, three.task, three.world, later);
        assert(spec_poll(&list[2], TaskView::New, three.world, later).result == Some(
            Ok::<(), ActionErrorView>(()),
        ));
        assert(four.result == Some(Ok::<(), ActionErrorView>(())));
        assert(four.world.log == world.log.push(x).push(y));
    }
}

/// The run and the world after `n` steps at one time, from a start.
pub open spec fn polled_times(action: &Action, start: PollStep, now: u64, n: nat) -> PollStep
    decreases n,
{
    if n == 0 {
        start
    } else {
        let before = polled_times(action, start, now, (n - 1) as nat);
        spec_poll(action, before.task, before.world, now)
    }
}

/// The world after `n` rounds of a body that ends at once: each round is
/// one step of the body from its beginning, after which the repetition asks
/// to be polled again.
pub open spec fn rounds_world(body: &Action, world: WorldView, now: u64, n: nat) -> WorldView
    decreases n,
{
    if n == 0 {
        world
    } else {
        WorldView {
            repoll: true,
            ..spec_poll(body, TaskView::New, rounds_world(body, world, now, (n - 1) as nat), now).world
        }
    }
}

/// An endless repetition whose body ends at once runs away, and is cut at
/// the allowance of its limiter. Every round counts one event before the
/// body is run. With a limiter that holds no event yet, the first
/// `max_events` steps at one time run the body once each, and the step
/// after them fails with the error of a repetition that is too fast,
/// without running the body again.
pub proof fn lemma_endless_repeat_is_cut(action: &Action, world: WorldView, now: u64, n: nat)
    requires
        action is Repeat,
        action->Repeat_0.count is None,
        action->Repeat_0.repeat_limit@.window > 0,
        action->Repeat_0.repeat_limit@.events.len() == 0,
        action->Repeat_0.repeat_limit@.latest <= now,
        n <= action->Repeat_0.repeat_limit@.max_events,
        forall|w: WorldView|
            (#[trigger] spec_poll(&*action->Repeat_0.action, TaskView::New, w, now)).result
                == Some(Ok::<(), ActionErrorView>(())),
    ensures
        ({
            let limit = action->Repeat_0.repeat_limit@;
            let body = &*action->Repeat_0.action;
            let start = pending(TaskView::New, world);
            let after = polled_times(action, start, now, n);
            let next = spec_poll(action, after.task, after.world, now);
            &&& after.result is None
            &&& after.world == rounds_world(body, world, now, n)
            &&& n > 0 ==> after.task == (TaskView::Repeat {
                remaining: None,
                limit: limit.counted_times(now, n),
                running: false,
                body: Box::new(TaskView::New),
            })
            &&& n < limit.max_events ==> next.result is None && next.world == rounds_world(
                body,
                world,
                now,
                n + 1,
            )
            &&& n == limit.max_events ==> next == finished(
                after.world,
                Err(ActionErrorView::Runaway(repeat_runaway())),
            )
        }),
    decreases n,
{
    let limit = action->Repeat_0.repeat_limit@;
    let body = &*action->Repeat_0.action;
    let start = pending(TaskView::New, world);
    lemma_burst_is_cut(limit, now, n);
    if n > 0 {
        lemma_endless_repeat_is_cut(action, world, now, (n - 1) as nat);
        lemma_burst_is_cut(limit, now, (n - 1) as nat);
        let before = polled_times(action, start, now, (n - 1) as nat);
        let after = polled_times(action, start, now, n);
        assert(after == spec_poll(action, before.task, before.world, now));
        let child = spec_poll(body, TaskView::New, before.world, now);
        assert(child.result == Some(Ok::<(), ActionErrorView>(())));
    }
    let after = polled_times(action, start, now, n);
    let child = spec_poll(body, TaskView::New, after.world, now);
    assert(child.result == Some(Ok::<(), ActionErrorView>(())));
}

} // verus!
