use mtp_audioplayer::actions::action::{Action, ActionError, ActionPoll, Task, World};
use mtp_audioplayer::actions::alarm_dispatcher;
use mtp_audioplayer::actions::alarm_function::{AlarmFunctionAction, AlarmOp};
use mtp_audioplayer::actions::debug::DebugAction;
use mtp_audioplayer::actions::goto::{GotoAction, GotoRequest};
use mtp_audioplayer::actions::parallel::ParallelAction;
use mtp_audioplayer::actions::poll::{cancel, poll};
use mtp_audioplayer::actions::repeat::RepeatAction;
use mtp_audioplayer::actions::sequence::SequenceAction;
use mtp_audioplayer::actions::set_tag::SetTagAction;
use mtp_audioplayer::actions::set_volume::{SetVolumeAction, VolumeLevel};
use mtp_audioplayer::actions::tag_dispatcher;
use mtp_audioplayer::actions::wait::WaitAction;
use mtp_audioplayer::actions::wait_alarm::{AlarmCondition, WaitAlarmAction};
use mtp_audioplayer::actions::wait_tag::{number_text, NumberOrder, TagCondition, WaitTagAction};
use mtp_audioplayer::alarm_filter::parse_filter;
use mtp_audioplayer::app_config::{AlarmContext, TagContext};
use mtp_audioplayer::clip_player::ClipPlayer;
use mtp_audioplayer::clip_queue::ClipQueue;
use mtp_audioplayer::event_limit::EventLimit;
use mtp_audioplayer::open_pipe::alarm_data::{AlarmData, Timestamp};

fn new_world() -> World {
    World::new(
        TagContext::new(),
        AlarmContext::new(),
        ClipQueue::new(ClipPlayer::new()),
    )
}

fn debug(text: &str) -> Action {
    Action::Debug(DebugAction::new(text.to_string()))
}

/// Answers the open questions the way the daemon does: by reading the value
/// as a number and comparing it with the limit.
fn answer_numbers(world: &mut World) {
    for q in world.numbers.take_questions() {
        let limit = f64::from_bits(q.limit);
        let order = match q.value.parse::<f64>() {
            Ok(v) => Some(if v < limit {
                NumberOrder::Less
            } else if v > limit {
                NumberOrder::Greater
            } else if v == limit {
                NumberOrder::Equal
            } else {
                NumberOrder::Unordered
            }),
            Err(_) => None,
        };
        world.numbers.answer(&q.value, q.limit, order);
    }
}

/// Polls a run at one instant until it ends or waits.
fn settle(action: &Action, task: Task, world: &mut World, now: u64) -> (Task, ActionPoll) {
    let mut task = task;
    loop {
        world.repoll = false;
        let (next, result) = poll(action, task, world, now);
        task = next;
        answer_numbers(world);
        if let ActionPoll::Ready(_) = result {
            return (task, result);
        }
        if !world.repoll {
            return (task, result);
        }
    }
}

fn alarm(id: i32, class: &str, priority: i32) -> AlarmData {
    AlarmData {
        name: format!("alarm{}", id),
        id,
        alarm_class_name: class.to_string(),
        alarm_class_symbol: "S".to_string(),
        event_text: "text".to_string(),
        instance_id: 1,
        priority,
        state: 1,
        state_text: "Incoming".to_string(),
        state_machine: 7,
        modification_time: Timestamp { secs: 0, nanos: 0 },
    }
}

#[test]
fn sequence_with_wait_logs_twice() {
    let mut seq = SequenceAction::new();
    seq.add_owned_action(debug("x"));
    seq.add_owned_action(Action::Wait(WaitAction::new(100)));
    seq.add_owned_action(debug("y"));
    let action = Action::Sequence(seq);
    let mut world = new_world();
    let (mut task, mut result) = settle(&action, Task::New, &mut world, 1000);
    assert!(matches!(result, ActionPoll::Pending));
    assert_eq!(world.log, vec!["x".to_string()]);
    for now in 1001..1100 {
        let (t, r) = settle(&action, task, &mut world, now);
        task = t;
        result = r;
        assert!(matches!(result, ActionPoll::Pending), "ended at {}", now);
        assert_eq!(world.log.len(), 1);
    }
    let (_, result) = settle(&action, task, &mut world, 1100);
    assert!(matches!(result, ActionPoll::Ready(Ok(()))));
    assert_eq!(world.log, vec!["x".to_string(), "y".to_string()]);
}

#[test]
fn wait_tag_rising_edge() {
    let mut world = new_world();
    world.tags.add_tag("P", Some("0".to_string()));
    let action = Action::WaitTag(WaitTagAction::new(
        "P".to_string(),
        TagCondition::Greater(5.0f64.to_bits()),
    ));
    let (task, result) = settle(&action, Task::New, &mut world, 0);
    assert!(matches!(result, ActionPoll::Pending));
    let (task, result) = settle(&action, task, &mut world, 1);
    assert!(matches!(result, ActionPoll::Pending));
    world.tags.tag_changed("P", "3");
    let (task, result) = settle(&action, task, &mut world, 2);
    assert!(matches!(result, ActionPoll::Pending));
    world.tags.tag_changed("P", "7");
    let (_, result) = settle(&action, task, &mut world, 3);
    assert!(matches!(result, ActionPoll::Ready(Ok(()))));
}

#[test]
fn wait_tag_asks_how_the_value_compares() {
    let mut world = new_world();
    world.tags.add_tag("P", Some("TRUE".to_string()));
    let limit = 0.5f64.to_bits();
    let action = Action::WaitTag(WaitTagAction::new(
        "P".to_string(),
        TagCondition::Greater(limit),
    ));
    let (task, result) = poll(&action, Task::New, &mut world, 0);
    assert!(matches!(result, ActionPoll::Pending));
    assert!(world.repoll);
    assert_eq!(world.numbers.questions.len(), 1);
    assert_eq!(world.numbers.questions[0].value, "1");
    assert_eq!(world.numbers.questions[0].limit, limit);
    // Without an answer the run asks no second time and waits.
    let (task, result) = poll(&action, task, &mut world, 0);
    assert!(matches!(result, ActionPoll::Pending));
    assert_eq!(world.numbers.questions.len(), 1);
    world.numbers.take_questions();
    world
        .numbers
        .answer("1", limit, Some(NumberOrder::Greater));
    let (_, result) = poll(&action, task, &mut world, 0);
    assert!(matches!(result, ActionPoll::Ready(Ok(()))));
}

#[test]
fn wait_tag_text_that_is_no_number_keeps_waiting() {
    let mut world = new_world();
    world.tags.add_tag("P", Some("high".to_string()));
    let action = Action::WaitTag(WaitTagAction::new(
        "P".to_string(),
        TagCondition::NotEqualNumber(5.0f64.to_bits()),
    ));
    let (task, result) = settle(&action, Task::New, &mut world, 0);
    assert!(matches!(result, ActionPoll::Pending));
    world.tags.tag_changed("P", "6");
    let (_, result) = settle(&action, task, &mut world, 1);
    assert!(matches!(result, ActionPoll::Ready(Ok(()))));
}

#[test]
fn wait_tag_changed_needs_a_change() {
    let mut world = new_world();
    world.tags.add_tag("T", Some("a".to_string()));
    let action = Action::WaitTag(WaitTagAction::new("T".to_string(), TagCondition::Changed));
    let (task, result) = settle(&action, Task::New, &mut world, 0);
    assert!(matches!(result, ActionPoll::Pending));
    let (task, result) = settle(&action, task, &mut world, 1);
    assert!(matches!(result, ActionPoll::Pending));
    world.tags.tag_changed("T", "b");
    let (_, result) = settle(&action, task, &mut world, 2);
    assert!(matches!(result, ActionPoll::Ready(Ok(()))));
}

#[test]
fn wait_tag_string_conditions() {
    let mut world = new_world();
    world.tags.add_tag("T", Some("run".to_string()));
    let equal = Action::WaitTag(WaitTagAction::new(
        "T".to_string(),
        TagCondition::EqualString("run".to_string()),
    ));
    let (_, result) = settle(&equal, Task::New, &mut world, 0);
    assert!(matches!(result, ActionPoll::Ready(Ok(()))));
    let differs = Action::WaitTag(WaitTagAction::new(
        "T".to_string(),
        TagCondition::NotEqualString("run".to_string()),
    ));
    let (task, result) = settle(&differs, Task::New, &mut world, 0);
    assert!(matches!(result, ActionPoll::Pending));
    world.tags.tag_changed("T", "stop");
    let (_, result) = settle(&differs, task, &mut world, 0);
    assert!(matches!(result, ActionPoll::Ready(Ok(()))));
}

#[test]
fn wait_tag_of_an_unknown_tag_fails() {
    let mut world = new_world();
    let action = Action::WaitTag(WaitTagAction::new("T".to_string(), TagCondition::Changed));
    let (_, result) = settle(&action, Task::New, &mut world, 0);
    match result {
        ActionPoll::Ready(Err(e)) => {
            assert!(matches!(
                e,
                ActionError::Tag(tag_dispatcher::Error::TagNotFound)
            ));
            assert_eq!(e.to_string(), tag_dispatcher::Error::TagNotFound.to_string());
        }
        other => panic!("{:?}", other),
    }
}

#[test]
fn tag_condition_check_table() {
    let five = 5.0f64.to_bits();
    let less = Some(NumberOrder::Less);
    let equal = Some(NumberOrder::Equal);
    let greater = Some(NumberOrder::Greater);
    let unordered = Some(NumberOrder::Unordered);
    assert!(TagCondition::Less(five).check("4", None, less));
    assert!(!TagCondition::Less(five).check("5", None, equal));
    assert!(TagCondition::LessEqual(five).check("5", None, equal));
    assert!(!TagCondition::LessEqual(five).check("6", None, greater));
    assert!(TagCondition::Greater(five).check("6", None, greater));
    assert!(!TagCondition::Greater(five).check("5", None, equal));
    assert!(TagCondition::GreaterEqual(five).check("5", None, equal));
    assert!(!TagCondition::GreaterEqual(five).check("4", None, less));
    assert!(TagCondition::EqualNumber(five).check("5.0", None, equal));
    assert!(!TagCondition::EqualNumber(five).check("NaN", None, unordered));
    assert!(TagCondition::NotEqualNumber(five).check("NaN", None, unordered));
    assert!(TagCondition::NotEqualNumber(five).check("4", None, less));
    assert!(!TagCondition::NotEqualNumber(five).check("x", None, None));
    assert!(!TagCondition::Less(five).check("x", None, None));
    let old = "a".to_string();
    assert!(TagCondition::Changed.check("b", Some(&old), None));
    assert!(!TagCondition::Changed.check("a", Some(&old), None));
    assert!(!TagCondition::Changed.check("a", None, None));
    assert_eq!(TagCondition::Less(five).limit(), Some(five));
    assert_eq!(TagCondition::Changed.limit(), None);
}

#[test]
fn true_and_false_are_read_as_numbers() {
    assert_eq!(number_text("true"), "1");
    assert_eq!(number_text("True"), "1");
    assert_eq!(number_text("FALSE"), "0");
    assert_eq!(number_text("yes"), "yes");
    assert_eq!(number_text("12.5"), "12.5");
}

#[test]
fn alarm_condition_check_table() {
    assert!(AlarmCondition::NoAlarm.check(0, None));
    assert!(!AlarmCondition::NoAlarm.check(1, Some(0)));
    assert!(AlarmCondition::Any.check(1, None));
    assert!(!AlarmCondition::Any.check(0, Some(3)));
    assert!(AlarmCondition::Inc.check(3, Some(2)));
    assert!(!AlarmCondition::Inc.check(3, Some(3)));
    assert!(!AlarmCondition::Inc.check(3, None));
    assert!(AlarmCondition::Dec.check(1, Some(2)));
    assert!(!AlarmCondition::Dec.check(2, Some(2)));
    assert!(!AlarmCondition::Dec.check(0, None));
}

#[test]
fn wait_alarm_inc_needs_a_rise_after_the_first_look() {
    let mut world = new_world();
    world
        .alarms
        .add_filter("F", parse_filter("Priority < 5").unwrap(), None, None);
    world
        .alarms
        .handle_notification(&alarm(1, "Warning", 1), &mut world.tags);
    let action = Action::WaitAlarm(WaitAlarmAction::new("F".to_string(), AlarmCondition::Inc));
    let (task, result) = settle(&action, Task::New, &mut world, 0);
    assert!(matches!(result, ActionPoll::Pending));
    // A report that does not change the set of matching alarms wakes nobody.
    world
        .alarms
        .handle_notification(&alarm(1, "Warning", 2), &mut world.tags);
    let (task, result) = settle(&action, task, &mut world, 1);
    assert!(matches!(result, ActionPoll::Pending));
    world
        .alarms
        .handle_notification(&alarm(2, "Warning", 2), &mut world.tags);
    let (_, result) = settle(&action, task, &mut world, 2);
    assert!(matches!(result, ActionPoll::Ready(Ok(()))));
}

#[test]
fn wait_alarm_none_and_any() {
    let mut world = new_world();
    world
        .alarms
        .add_filter("F", parse_filter("Priority < 5").unwrap(), None, None);
    let none = Action::WaitAlarm(WaitAlarmAction::new(
        "F".to_string(),
        AlarmCondition::NoAlarm,
    ));
    let any = Action::WaitAlarm(WaitAlarmAction::new("F".to_string(), AlarmCondition::Any));
    let (_, result) = settle(&none, Task::New, &mut world, 0);
    assert!(matches!(result, ActionPoll::Ready(Ok(()))));
    let (task, result) = settle(&any, Task::New, &mut world, 0);
    assert!(matches!(result, ActionPoll::Pending));
    world
        .alarms
        .handle_notification(&alarm(1, "Warning", 1), &mut world.tags);
    let (_, result) = settle(&any, task, &mut world, 0);
    assert!(matches!(result, ActionPoll::Ready(Ok(()))));
}

#[test]
fn wait_alarm_of_an_unknown_filter_fails() {
    let mut world = new_world();
    let action = Action::WaitAlarm(WaitAlarmAction::new("F".to_string(), AlarmCondition::Any));
    let (_, result) = settle(&action, Task::New, &mut world, 0);
    assert!(matches!(
        result,
        ActionPoll::Ready(Err(ActionError::Alarm(
            alarm_dispatcher::Error::AlarmFilterNotFound
        )))
    ));
}

#[test]
fn set_tag_ends_with_the_acknowledgment() {
    let mut world = new_world();
    world.tags.add_tag("Out", None);
    let action = Action::SetTag(SetTagAction::new("Out".to_string(), "1".to_string()));
    let (task, result) = settle(&action, Task::New, &mut world, 100);
    assert!(matches!(result, ActionPoll::Pending));
    assert_eq!(world.tags.get_value("Out"), Some("1".to_string()));
    let requests = world.tags.take_requests();
    assert_eq!(requests.len(), 1);
    assert_eq!(requests[0].tag_name, "Out");
    assert_eq!(requests[0].value, "1");
    let (task, result) = settle(&action, task, &mut world, 300);
    assert!(matches!(result, ActionPoll::Pending));
    world.tags.write_acknowledged(&vec!["Out".to_string()]);
    let (_, result) = settle(&action, task, &mut world, 301);
    assert!(matches!(result, ActionPoll::Ready(Ok(()))));
}

#[test]
fn set_tag_gives_up_waiting_after_500_ms() {
    let mut world = new_world();
    world.tags.add_tag("Out", None);
    let action = Action::SetTag(SetTagAction::new("Out".to_string(), "1".to_string()));
    let (task, result) = settle(&action, Task::New, &mut world, 100);
    assert!(matches!(result, ActionPoll::Pending));
    let (task, result) = settle(&action, task, &mut world, 599);
    assert!(matches!(result, ActionPoll::Pending));
    let (_, result) = settle(&action, task, &mut world, 600);
    assert!(matches!(result, ActionPoll::Ready(Ok(()))));
}

#[test]
fn set_volume_from_a_constant_and_from_a_tag() {
    let mut world = new_world();
    world.tags.add_tag("Level", None);
    let constant = Action::SetVolume(SetVolumeAction::new_const(
        "Master".to_string(),
        0.5f32.to_bits(),
    ));
    let (_, result) = settle(&constant, Task::New, &mut world, 0);
    assert!(matches!(result, ActionPoll::Ready(Ok(()))));
    assert_eq!(world.volume.len(), 1);
    assert_eq!(world.volume[0].control, "Master");
    assert!(matches!(world.volume[0].level, VolumeLevel::Bits(b) if b == 0.5f32.to_bits()));

    let from_tag = Action::SetVolume(SetVolumeAction::new_tag(
        "Master".to_string(),
        "Level".to_string(),
    ));
    // The value of the tag is not known: nothing is asked for.
    let (_, result) = settle(&from_tag, Task::New, &mut world, 0);
    assert!(matches!(result, ActionPoll::Ready(Ok(()))));
    assert_eq!(world.volume.len(), 1);
    world.tags.tag_changed("Level", "0.25");
    let (_, result) = settle(&from_tag, Task::New, &mut world, 0);
    assert!(matches!(result, ActionPoll::Ready(Ok(()))));
    assert_eq!(world.volume.len(), 2);
    assert!(matches!(&world.volume[1].level, VolumeLevel::Text(t) if t == "0.25"));
}

#[test]
fn goto_asks_for_a_change_of_state() {
    let mut world = new_world();
    let action = Action::Goto(GotoAction::new(3, 1));
    let (_, result) = poll(&action, Task::New, &mut world, 0);
    assert!(matches!(result, ActionPoll::Ready(Ok(()))));
    assert_eq!(
        world.gotos,
        vec![GotoRequest {
            state_machine: 1,
            state_index: 3
        }]
    );
    assert!(world.repoll);
}

#[test]
fn repeat_with_a_count_runs_that_many_rounds() {
    let mut world = new_world();
    let action = Action::Repeat(RepeatAction::new(
        debug("round"),
        Some(3),
        EventLimit::new(1, 1000),
    ));
    let (_, result) = settle(&action, Task::New, &mut world, 0);
    assert!(matches!(result, ActionPoll::Ready(Ok(()))));
    assert_eq!(world.log.len(), 3);
}

#[test]
fn repeat_without_a_count_fails_when_it_runs_away() {
    let mut world = new_world();
    let action = Action::Repeat(RepeatAction::new(
        debug("round"),
        None,
        EventLimit::new(4, 1000),
    ));
    let (_, result) = settle(&action, Task::New, &mut world, 0);
    match result {
        ActionPoll::Ready(Err(e)) => {
            assert!(matches!(e, ActionError::Runaway(_)));
            assert_eq!(e.to_string(), "Repetition too fast in repeat action");
        }
        other => panic!("{:?}", other),
    }
    assert_eq!(world.log.len(), 4);
}

#[test]
fn repeat_without_a_count_goes_on_at_a_slow_pace() {
    let mut world = new_world();
    let mut body = SequenceAction::new();
    body.add_owned_action(debug("round"));
    body.add_owned_action(Action::Wait(WaitAction::new(300)));
    let action = Action::Repeat(RepeatAction::new(
        Action::Sequence(body),
        None,
        EventLimit::new(4, 1000),
    ));
    let mut task = Task::New;
    for now in 0..3000 {
        let (t, result) = settle(&action, task, &mut world, now);
        task = t;
        assert!(matches!(result, ActionPoll::Pending));
    }
    assert_eq!(world.log.len(), 10);
}

#[test]
fn repeat_hands_on_the_error_of_its_body() {
    let mut world = new_world();
    let body = Action::WaitTag(WaitTagAction::new("T".to_string(), TagCondition::Changed));
    let action = Action::Repeat(RepeatAction::new(body, Some(5), EventLimit::new(10, 1000)));
    let (_, result) = settle(&action, Task::New, &mut world, 0);
    assert!(matches!(
        result,
        ActionPoll::Ready(Err(ActionError::Tag(tag_dispatcher::Error::TagNotFound)))
    ));
}

#[test]
fn sequence_ends_with_the_first_error() {
    let mut world = new_world();
    let mut seq = SequenceAction::new();
    seq.add_owned_action(debug("before"));
    seq.add_owned_action(Action::WaitTag(WaitTagAction::new(
        "T".to_string(),
        TagCondition::Changed,
    )));
    seq.add_owned_action(debug("after"));
    let action = Action::Sequence(seq);
    let (_, result) = settle(&action, Task::New, &mut world, 0);
    assert!(matches!(
        result,
        ActionPoll::Ready(Err(ActionError::Tag(tag_dispatcher::Error::TagNotFound)))
    ));
    assert_eq!(world.log, vec!["before".to_string()]);
}

#[test]
fn empty_sequence_and_group_end_at_once() {
    let mut world = new_world();
    let (_, result) = settle(
        &Action::Sequence(SequenceAction::new()),
        Task::New,
        &mut world,
        0,
    );
    assert!(matches!(result, ActionPoll::Ready(Ok(()))));
    let (_, result) = settle(
        &Action::Parallel(ParallelAction::new()),
        Task::New,
        &mut world,
        0,
    );
    assert!(matches!(result, ActionPoll::Ready(Ok(()))));
}

#[test]
fn parallel_waits_for_all_parts() {
    let mut world = new_world();
    let mut first = SequenceAction::new();
    first.add_owned_action(Action::Wait(WaitAction::new(50)));
    first.add_owned_action(debug("short"));
    let mut second = SequenceAction::new();
    second.add_owned_action(Action::Wait(WaitAction::new(80)));
    second.add_owned_action(debug("long"));
    let mut group = ParallelAction::new();
    group.add_owned_action(Action::Sequence(second));
    group.add_owned_action(Action::Sequence(first));
    let action = Action::Parallel(group);
    let mut task = Task::New;
    let mut ended = None;
    for now in 0..200 {
        let (t, result) = settle(&action, task, &mut world, now);
        task = t;
        if let ActionPoll::Ready(r) = result {
            assert!(r.is_ok());
            ended = Some(now);
            break;
        }
    }
    assert_eq!(world.log, vec!["short".to_string(), "long".to_string()]);
    assert!(ended.is_some());
    assert!(ended.unwrap() >= 80 && ended.unwrap() < 90);
}

#[test]
fn parallel_fails_with_the_first_error_and_gives_up_the_rest() {
    let mut world = new_world();
    world.tags.add_tag("Out", None);
    let mut group = ParallelAction::new();
    group.add_owned_action(Action::SetTag(SetTagAction::new(
        "Out".to_string(),
        "1".to_string(),
    )));
    group.add_owned_action(Action::WaitTag(WaitTagAction::new(
        "Missing".to_string(),
        TagCondition::Changed,
    )));
    let action = Action::Parallel(group);
    let mut task = Task::New;
    let mut outcome = None;
    for now in 0..10 {
        let (t, result) = settle(&action, task, &mut world, now);
        task = t;
        if let ActionPoll::Ready(r) = result {
            outcome = Some(r);
            break;
        }
    }
    assert!(matches!(
        outcome,
        Some(Err(ActionError::Tag(tag_dispatcher::Error::TagNotFound)))
    ));
    // The write that was given up is no longer waited for.
    let wait = world.tags.async_set_tag("Out", "2", 0);
    assert!(!world.tags.poll_set_tag(&wait, 0));
    world.tags.write_acknowledged(&vec!["Out".to_string()]);
    assert!(world.tags.poll_set_tag(&wait, 0));
}

#[test]
fn alarm_functions_ignore_and_restore() {
    let mut world = new_world();
    world.tags.add_tag("Count", None);
    world.alarms.add_filter(
        "F",
        parse_filter("Priority < 5").unwrap(),
        Some("Count".to_string()),
        None,
    );
    world
        .alarms
        .handle_notification(&alarm(1, "Warning", 1), &mut world.tags);
    world
        .alarms
        .handle_notification(&alarm(2, "Warning", 1), &mut world.tags);
    assert_eq!(world.alarms.get_filter_count("F").unwrap(), 2);
    assert_eq!(world.tags.get_value("Count"), Some("2".to_string()));
    let mut ignore = AlarmFunctionAction::new("F".to_string(), AlarmOp::Ignore);
    ignore.permanent = false;
    let (_, result) = settle(&Action::AlarmFunction(ignore), Task::New, &mut world, 0);
    assert!(matches!(result, ActionPoll::Ready(Ok(()))));
    assert_eq!(world.alarms.get_filter_count("F").unwrap(), 0);
    assert_eq!(world.tags.get_value("Count"), Some("0".to_string()));
    let restore = AlarmFunctionAction::new("F".to_string(), AlarmOp::Restore);
    let (_, result) = settle(&Action::AlarmFunction(restore), Task::New, &mut world, 0);
    assert!(matches!(result, ActionPoll::Ready(Ok(()))));
    assert_eq!(world.alarms.get_filter_count("F").unwrap(), 2);
    // A filter that is not known is passed over.
    let unknown = AlarmFunctionAction::new("G".to_string(), AlarmOp::Ignore);
    let (_, result) = settle(&Action::AlarmFunction(unknown), Task::New, &mut world, 0);
    assert!(matches!(result, ActionPoll::Ready(Ok(()))));
}

#[test]
fn cancel_gives_up_a_pending_write() {
    let mut world = new_world();
    world.tags.add_tag("Out", None);
    let action = Action::SetTag(SetTagAction::new("Out".to_string(), "1".to_string()));
    let (task, result) = settle(&action, Task::New, &mut world, 0);
    assert!(matches!(result, ActionPoll::Pending));
    let ticket = match &task {
        Task::SetTag { wait } => *wait,
        other => panic!("{:?}", matches!(other, Task::New)),
    };
    assert!(!world.tags.poll_set_tag(&ticket, 0));
    cancel(task, &mut world);
    assert!(world.tags.poll_set_tag(&ticket, 0));
}

#[test]
fn debug_and_wait_on_their_own() {
    let d = DebugAction::new("line".to_string());
    assert_eq!(d.run(), "line");
    let w = WaitAction::new(250);
    assert_eq!(w.run(1000), 1250);
    assert_eq!(w.run(u64::MAX - 10), u64::MAX);
    let g = GotoAction::new(2, 5);
    assert_eq!(
        g.run(),
        GotoRequest {
            state_machine: 5,
            state_index: 2
        }
    );
}
