use mtp_audioplayer::actions::action::{Action, ActionError, World};
use mtp_audioplayer::actions::debug::DebugAction;
use mtp_audioplayer::actions::goto::GotoAction;
use mtp_audioplayer::actions::sequence::SequenceAction;
use mtp_audioplayer::actions::wait::WaitAction;
use mtp_audioplayer::app_config::{AlarmContext, StateMachineContext, TagContext};
use mtp_audioplayer::clip_player::ClipPlayer;
use mtp_audioplayer::clip_queue::ClipQueue;
use mtp_audioplayer::event_limit::EventLimit;
use mtp_audioplayer::state_machine::{MachinePoll, StateMachine};

fn new_world() -> World {
    World::new(
        TagContext::new(),
        AlarmContext::new(),
        ClipQueue::new(ClipPlayer::new()),
    )
}

/// Polls the machines at one instant until nothing can go on at once.
fn settle(
    ctx: &mut StateMachineContext,
    world: &mut World,
    now: u64,
) -> Result<bool, ActionError> {
    loop {
        world.repoll = false;
        let stopped = ctx.poll_all(world, now)?;
        if !world.repoll {
            return Ok(stopped);
        }
    }
}

fn debug(text: &str) -> Action {
    Action::Debug(DebugAction::new(text.to_string()))
}

fn two_states(limit: EventLimit, wait_ms: u64) -> StateMachine {
    let mut sm = StateMachine::new("Cycle", limit);
    let mut a = SequenceAction::new();
    a.add_owned_action(Action::Wait(WaitAction::new(wait_ms)));
    a.add_owned_action(Action::Goto(GotoAction::new(1, 0)));
    let state = sm.add_state("A");
    sm.set_action(state, Action::Sequence(a));
    let mut b = SequenceAction::new();
    b.add_owned_action(Action::Wait(WaitAction::new(wait_ms)));
    b.add_owned_action(Action::Goto(GotoAction::new(0, 0)));
    let state = sm.add_state("B");
    sm.set_action(state, Action::Sequence(b));
    sm
}

#[test]
fn test_state_machine() {
    let mut sm = StateMachine::new("SM1", EventLimit::new(100, 1000));
    let mut seq1 = SequenceAction::new();
    seq1.add_owned_action(debug("State 1"));
    seq1.add_owned_action(Action::Wait(WaitAction::new(100)));
    seq1.add_owned_action(debug("State 1 again"));
    seq1.add_owned_action(Action::Goto(GotoAction::new(1, 0)));

    let state = sm.add_state("State 1");
    sm.set_action(state, Action::Sequence(seq1));

    let mut seq2 = SequenceAction::new();
    seq2.add_owned_action(debug("State 2"));
    seq2.add_owned_action(Action::Goto(GotoAction::new(0, 0)));
    let state = sm.add_state("State 2");
    sm.set_action(state, Action::Sequence(seq2));

    sm.goto(0);
    let mut ctx = StateMachineContext {
        state_machines: vec![sm],
    };
    let mut world = new_world();
    let mut now = 0;
    while now <= 1000 {
        let stopped = settle(&mut ctx, &mut world, now).unwrap();
        assert!(!stopped);
        now += 10;
    }
    assert_eq!(world.log[0], "State 1");
    assert_eq!(world.log[1], "State 1 again");
    assert_eq!(world.log[2], "State 2");
    assert_eq!(world.log[3], "State 1");
    // One round takes 100 ms: eleven rounds begin in the first second, ten
    // of them end.
    assert_eq!(world.log.len(), 11 + 10 + 10);
    assert_eq!(world.log.iter().filter(|l| *l == "State 2").count(), 10);
}

#[test]
fn state_names_are_found_in_order() {
    let mut sm = StateMachine::new("M", EventLimit::new(5, 1000));
    assert_eq!(sm.name(), "M");
    assert!(sm.has_name("M"));
    assert!(!sm.has_name("m"));
    assert_eq!(sm.add_state("first"), 0);
    assert_eq!(sm.add_state("second"), 1);
    assert_eq!(sm.add_state("first"), 2);
    assert_eq!(sm.find_state_index("first"), Some(0));
    assert_eq!(sm.find_state_index("second"), Some(1));
    assert_eq!(sm.find_state_index("third"), None);
}

#[test]
fn a_stopped_machine_reports_stopped() {
    let mut sm = StateMachine::new("M", EventLimit::new(5, 1000));
    let state = sm.add_state("only");
    sm.set_action(state, debug("hello"));
    let mut world = new_world();
    assert!(matches!(sm.poll(&mut world, 0), MachinePoll::Stopped));
    assert!(world.log.is_empty());
    sm.run();
    assert!(matches!(sm.poll(&mut world, 0), MachinePoll::Running));
    while world.repoll {
        world.repoll = false;
        assert!(matches!(sm.poll(&mut world, 0), MachinePoll::Running));
    }
    assert_eq!(world.log, vec!["hello".to_string()]);
    // The action has ended: the machine stays in its state and does not
    // start the action again.
    assert!(matches!(sm.poll(&mut world, 5), MachinePoll::Running));
    assert_eq!(world.log.len(), 1);
    sm.stop();
    assert!(matches!(sm.poll(&mut world, 6), MachinePoll::Stopped));
}

#[test]
fn goto_to_the_same_state_starts_it_again() {
    let mut sm = StateMachine::new("M", EventLimit::new(5, 1000));
    let state = sm.add_state("only");
    sm.set_action(state, debug("again"));
    let mut world = new_world();
    sm.run();
    sm.poll(&mut world, 0);
    sm.poll(&mut world, 0);
    let before = world.log.len();
    assert_eq!(before, 1);
    sm.goto(0);
    sm.poll(&mut world, 1);
    sm.poll(&mut world, 1);
    assert_eq!(world.log.len(), 2);
}

#[test]
fn goto_gives_up_the_running_action_at_the_next_poll() {
    let mut sm = StateMachine::new("M", EventLimit::new(5, 1000));
    let mut seq = SequenceAction::new();
    seq.add_owned_action(Action::Wait(WaitAction::new(1000)));
    seq.add_owned_action(debug("never"));
    let first = sm.add_state("waits");
    sm.set_action(first, Action::Sequence(seq));
    let second = sm.add_state("talks");
    sm.set_action(second, debug("second"));
    let mut world = new_world();
    sm.run();
    for now in 0..10 {
        assert!(matches!(sm.poll(&mut world, now), MachinePoll::Running));
    }
    assert!(world.log.is_empty());
    sm.goto(1);
    let mut now = 10;
    loop {
        world.repoll = false;
        assert!(matches!(sm.poll(&mut world, now), MachinePoll::Running));
        if !world.repoll {
            break;
        }
        now += 1;
    }
    for now in 1000..1010 {
        sm.poll(&mut world, now);
    }
    assert_eq!(world.log, vec!["second".to_string()]);
}

#[test]
fn goto_cycle_fails_with_a_tight_limit() {
    let mut ctx = StateMachineContext {
        state_machines: vec![two_states(EventLimit::new(10, 1000), 1)],
    };
    ctx.run_all();
    let mut world = new_world();
    let mut failed_at = None;
    for now in 0..5000 {
        match settle(&mut ctx, &mut world, now) {
            Ok(stopped) => assert!(!stopped),
            Err(e) => {
                assert!(matches!(e, ActionError::Runaway(_)));
                assert_eq!(
                    e.to_string(),
                    "State changed too fast for state machine Cycle"
                );
                failed_at = Some(now);
                break;
            }
        }
    }
    // A change every millisecond: the eleventh change comes after ten
    // milliseconds and is refused.
    assert_eq!(failed_at, Some(10));
}

#[test]
fn goto_cycle_goes_on_with_a_wide_limit() {
    let mut ctx = StateMachineContext {
        state_machines: vec![two_states(EventLimit::new(1000, 1000), 1)],
    };
    ctx.run_all();
    let mut world = new_world();
    for now in 0..5000 {
        let stopped = settle(&mut ctx, &mut world, now).unwrap();
        assert!(!stopped);
    }
}

#[test]
fn goto_cycle_at_the_rate_of_the_limit_goes_on() {
    // Ten changes in a second are allowed: a change every 100 ms never
    // fails.
    let mut ctx = StateMachineContext {
        state_machines: vec![two_states(EventLimit::new(10, 1000), 100)],
    };
    ctx.run_all();
    let mut world = new_world();
    for now in 0..5000 {
        let stopped = settle(&mut ctx, &mut world, now).unwrap();
        assert!(!stopped);
    }
}

#[test]
fn a_machine_tells_another_to_change() {
    let mut first = StateMachine::new("first", EventLimit::new(10, 1000));
    let s = first.add_state("start");
    first.set_action(s, Action::Goto(GotoAction::new(1, 1)));
    let mut second = StateMachine::new("second", EventLimit::new(10, 1000));
    let s = second.add_state("idle");
    second.set_action(s, debug("idle"));
    let s = second.add_state("told");
    second.set_action(s, debug("told"));
    let mut ctx = StateMachineContext {
        state_machines: vec![first, second],
    };
    ctx.run_all();
    let mut world = new_world();
    settle(&mut ctx, &mut world, 0).unwrap();
    assert_eq!(world.log.last().map(|s| s.as_str()), Some("told"));
    assert!(world.gotos.is_empty());
}

#[test]
fn all_machines_stopped_is_reported() {
    let mut sm = StateMachine::new("M", EventLimit::new(5, 1000));
    let s = sm.add_state("only");
    sm.set_action(s, debug("x"));
    let mut ctx = StateMachineContext {
        state_machines: vec![sm],
    };
    let mut world = new_world();
    assert!(settle(&mut ctx, &mut world, 0).unwrap());
    ctx.run_all();
    assert!(!settle(&mut ctx, &mut world, 0).unwrap());
}
