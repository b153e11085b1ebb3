use mtp_audioplayer::actions::action::{Action, ActionError, World};
use mtp_audioplayer::actions::alarm_function::AlarmOp;
use mtp_audioplayer::actions::set_volume::TagOrConst;
use mtp_audioplayer::actions::wait_alarm::AlarmCondition;
use mtp_audioplayer::actions::wait_tag::TagCondition;
use mtp_audioplayer::alarm_filter::parse_filter;
use mtp_audioplayer::app_config::{
    action_conf_to_action, setup_alarms, setup_state_machines, setup_tags, setup_volume_control,
    ActionBuildData, AlarmContext, BindError, NamedSamples, PlaybackContext, PlaybackError,
    StateMachineContext, TagContext, VolumeControlContext,
};
use mtp_audioplayer::clip_player::{ClipPlayer, SampleFormat};
use mtp_audioplayer::clip_queue::ClipQueue;
use mtp_audioplayer::event_limit::EventLimit;
use mtp_audioplayer::read_config::{
    ActionType, AlarmFilterConfig, NamedAlarmFilter, PlayerConfig, StateConfig,
    StateMachineConfig, VolumeConfig,
};
use mtp_audioplayer::sample_buffer::SampleBuffer;
use mtp_audioplayer::state_machine::StateMachine;
use mtp_audioplayer::volume_control::VolumeControl;
use std::sync::Arc;

fn config() -> PlayerConfig {
    PlayerConfig {
        bind: "/tmp/siemens/automation/HmiRunTime".to_string(),
        playback_device: "default".to_string(),
        rate: 44100,
        channels: 2,
        sample_format: SampleFormat::I16,
        clip_root: "/".to_string(),
        clips: Vec::new(),
        tags: vec!["Alarm".to_string(), "Count".to_string(), "Alarm".to_string()],
        named_alarm_filters: vec![NamedAlarmFilter {
            id: "Warnings".to_string(),
            filter: AlarmFilterConfig {
                filter_predicate: parse_filter("AlarmClassName = 'Warning'").unwrap(),
                tag_matching: Some("Count".to_string()),
                tag_ignored: None,
            },
        }],
        state_machines: Vec::new(),
        volume_config: vec![VolumeConfig {
            id: "Master".to_string(),
            device: "hw:0".to_string(),
            initial_volume: None,
        }],
    }
}

fn playback() -> PlaybackContext {
    PlaybackContext {
        rate: 44100,
        channels: 2,
        clips: vec![
            NamedSamples {
                name: "Beep".to_string(),
                samples: Arc::new(SampleBuffer::I16(vec![1, 2, 3])),
            },
            NamedSamples {
                name: "Horn".to_string(),
                samples: Arc::new(SampleBuffer::I16(vec![4, 5])),
            },
            NamedSamples {
                name: "Beep".to_string(),
                samples: Arc::new(SampleBuffer::I16(vec![6])),
            },
        ],
    }
}

fn state(id: &str, action: ActionType) -> StateConfig {
    StateConfig {
        id: id.to_string(),
        action,
    }
}

struct Fixture {
    playback: PlaybackContext,
    tags: TagContext,
    volume: VolumeControlContext,
    alarms: AlarmContext,
    machines: Vec<StateMachine>,
    limit: EventLimit,
}

fn fixture() -> Fixture {
    let conf = config();
    let mut first = StateMachine::new("First", EventLimit::new(10, 1000));
    first.add_state("Idle");
    first.add_state("Busy");
    let mut second = StateMachine::new("Second", EventLimit::new(10, 1000));
    second.add_state("Off");
    second.add_state("On");
    second.add_state("Idle");
    Fixture {
        playback: playback(),
        tags: setup_tags(&conf),
        volume: setup_volume_control(&conf),
        alarms: setup_alarms(&conf),
        machines: vec![first, second],
        limit: EventLimit::new(3, 1000),
    }
}

fn bind(f: &Fixture, current: usize, conf: &ActionType) -> Result<Action, BindError> {
    let data = ActionBuildData {
        clips: &f.playback.clips,
        tag_ctxt: &f.tags,
        volume_control: &f.volume,
        alarm_ctxt: &f.alarms,
        state_machines: &f.machines,
        current_state_machine: current,
        repeat_limit: &f.limit,
    };
    action_conf_to_action(&data, conf)
}

fn error_text(r: Result<Action, BindError>) -> String {
    match r {
        Err(e) => e.to_string(),
        Ok(_) => panic!("the action was built"),
    }
}

#[test]
fn tags_filters_and_controls_come_from_the_configuration() {
    let conf = config();
    let tags = setup_tags(&conf);
    assert_eq!(
        tags.tag_names(),
        vec!["Alarm".to_string(), "Count".to_string()]
    );
    assert_eq!(tags.get_value("Alarm"), None);
    let alarms = setup_alarms(&conf);
    assert!(alarms.has_filter("Warnings"));
    assert_eq!(alarms.get_filter_count("Warnings").unwrap(), 0);
    let volume = setup_volume_control(&conf);
    assert_eq!(volume.controls, vec!["Master".to_string()]);
    let control = VolumeControl::new("hw:0");
    assert_eq!(control.device, "hw:0");
}

#[test]
fn clips_are_found_by_name() {
    let p = playback();
    assert_eq!(Arc::strong_count(&p.clips[0].samples), 1);
    let beep = p.play("Beep").unwrap();
    assert!(Arc::ptr_eq(&beep, &p.clips[0].samples));
    // The samples are shared, not copied.
    assert_eq!(Arc::strong_count(&p.clips[0].samples), 2);
    let horn = p.play("Horn").unwrap();
    assert!(Arc::ptr_eq(&horn, &p.clips[1].samples));
    match p.play("Bell") {
        Err(PlaybackError::NameNotFound(n)) => {
            assert_eq!(n, "Bell");
            assert_eq!(
                PlaybackError::NameNotFound(n).to_string(),
                "Clip 'Bell' not found"
            );
        }
        other => panic!("{:?}", other),
    }
}

#[test]
fn play_is_bound_to_the_samples_of_its_clip() {
    let f = fixture();
    let conf = ActionType::Play {
        priority: 4,
        timeout: Some(250),
        sound: "Horn".to_string(),
    };
    match bind(&f, 0, &conf).unwrap() {
        Action::Play(a) => {
            assert_eq!(a.priority, 4);
            assert_eq!(a.timeout, Some(250));
            assert!(Arc::ptr_eq(&a.samples, &f.playback.clips[1].samples));
        }
        _ => panic!("not a play action"),
    }
    let missing = ActionType::Play {
        priority: 0,
        timeout: None,
        sound: "Bell".to_string(),
    };
    assert_eq!(error_text(bind(&f, 0, &missing)), "No clip named 'Bell'");
}

#[test]
fn goto_is_resolved_within_and_across_machines() {
    let f = fixture();
    match bind(&f, 0, &ActionType::Goto("Busy".to_string())).unwrap() {
        Action::Goto(g) => {
            assert_eq!(g.state_machine, 0);
            assert_eq!(g.state_index, 1);
        }
        _ => panic!("not a goto"),
    }
    match bind(&f, 1, &ActionType::Goto("Idle".to_string())).unwrap() {
        Action::Goto(g) => {
            assert_eq!(g.state_machine, 1);
            assert_eq!(g.state_index, 2);
        }
        _ => panic!("not a goto"),
    }
    match bind(&f, 0, &ActionType::Goto("Second:On".to_string())).unwrap() {
        Action::Goto(g) => {
            assert_eq!(g.state_machine, 1);
            assert_eq!(g.state_index, 1);
        }
        _ => panic!("not a goto"),
    }
    assert_eq!(
        error_text(bind(&f, 0, &ActionType::Goto("On".to_string()))),
        "No state named 'On' in state machine 'First'"
    );
    assert_eq!(
        error_text(bind(&f, 0, &ActionType::Goto("Third:On".to_string()))),
        "No state machine named 'Third'"
    );
    assert_eq!(
        error_text(bind(&f, 0, &ActionType::Goto("Second:Busy".to_string()))),
        "No state named 'Second:Busy' in state machine 'Second'"
    );
}

#[test]
fn names_of_tags_filters_and_controls_are_checked() {
    let f = fixture();
    let wait_tag = ActionType::WaitTag {
        tag_name: "Missing".to_string(),
        condition: TagCondition::Changed,
    };
    assert_eq!(error_text(bind(&f, 0, &wait_tag)), "No tag named 'Missing'");
    let wait_alarm = ActionType::WaitAlarm {
        filter_name: "Errors".to_string(),
        condition: AlarmCondition::Any,
    };
    assert_eq!(
        error_text(bind(&f, 0, &wait_alarm)),
        "No alarm filter named 'Errors'"
    );
    let ignore = ActionType::IgnoreAlarms {
        filter: "Errors".to_string(),
        permanent: true,
    };
    assert_eq!(
        error_text(bind(&f, 0, &ignore)),
        "No alarm filter named 'Errors'"
    );
    let restore = ActionType::RestoreAlarms {
        filter: "Errors".to_string(),
    };
    assert_eq!(
        error_text(bind(&f, 0, &restore)),
        "No alarm filter named 'Errors'"
    );
    let volume = ActionType::SetVolume {
        control: "Side".to_string(),
        value: TagOrConst::Const(0),
    };
    assert_eq!(
        error_text(bind(&f, 0, &volume)),
        "No volume control named 'Side' found."
    );
    let volume = ActionType::SetVolume {
        control: "Master".to_string(),
        value: TagOrConst::Tag {
            tag_name: "Level".to_string(),
        },
    };
    assert_eq!(error_text(bind(&f, 0, &volume)), "No tag named 'Level'");
    let set = ActionType::SetTag {
        tag_name: "Missing".to_string(),
        value: "1".to_string(),
    };
    assert_eq!(error_text(bind(&f, 0, &set)), "No tag named 'Missing'");
    let set = ActionType::SetTag {
        tag_name: "Count".to_string(),
        value: "1".to_string(),
    };
    match bind(&f, 0, &set).unwrap() {
        Action::SetTag(a) => {
            assert_eq!(a.tag_name, "Count");
            assert_eq!(a.value, "1");
        }
        _ => panic!("not a write"),
    }
}

#[test]
fn leaves_keep_their_values() {
    let f = fixture();
    match bind(&f, 0, &ActionType::Wait(1500)).unwrap() {
        Action::Wait(w) => assert_eq!(w.timeout, 1500),
        _ => panic!(),
    }
    match bind(&f, 0, &ActionType::Debug("hello".to_string())).unwrap() {
        Action::Debug(d) => assert_eq!(d.text, "hello"),
        _ => panic!(),
    }
    let ignore = ActionType::IgnoreAlarms {
        filter: "Warnings".to_string(),
        permanent: true,
    };
    match bind(&f, 0, &ignore).unwrap() {
        Action::AlarmFunction(a) => {
            assert_eq!(a.filter, "Warnings");
            assert_eq!(a.op, AlarmOp::Ignore);
            assert!(a.permanent);
        }
        _ => panic!(),
    }
    let restore = ActionType::RestoreAlarms {
        filter: "Warnings".to_string(),
    };
    match bind(&f, 0, &restore).unwrap() {
        Action::AlarmFunction(a) => {
            assert_eq!(a.filter, "Warnings");
            assert_eq!(a.op, AlarmOp::Restore);
        }
        _ => panic!(),
    }
    let wait_tag = ActionType::WaitTag {
        tag_name: "Alarm".to_string(),
        condition: TagCondition::GreaterEqual(7),
    };
    match bind(&f, 0, &wait_tag).unwrap() {
        Action::WaitTag(a) => {
            assert_eq!(a.tag, "Alarm");
            assert!(matches!(a.condition, TagCondition::GreaterEqual(7)));
        }
        _ => panic!(),
    }
    let volume = ActionType::SetVolume {
        control: "Master".to_string(),
        value: TagOrConst::Const(11),
    };
    match bind(&f, 0, &volume).unwrap() {
        Action::SetVolume(a) => {
            assert_eq!(a.control, "Master");
            assert!(matches!(a.value, TagOrConst::Const(11)));
        }
        _ => panic!(),
    }
}

#[test]
fn the_first_unknown_name_of_a_tree_is_the_error() {
    let f = fixture();
    let tree = ActionType::Sequence(vec![
        ActionType::Debug("a".to_string()),
        ActionType::Repeat {
            count: Some(2),
            action: Box::new(ActionType::Parallel(vec![
                ActionType::Wait(1),
                ActionType::Goto("Nowhere".to_string()),
                ActionType::Play {
                    priority: 0,
                    timeout: None,
                    sound: "Bell".to_string(),
                },
            ])),
        },
        ActionType::WaitTag {
            tag_name: "Missing".to_string(),
            condition: TagCondition::Changed,
        },
    ]);
    assert_eq!(
        error_text(bind(&f, 1, &tree)),
        "No state named 'Nowhere' in state machine 'Second'"
    );
}

#[test]
fn composites_keep_their_shape() {
    let f = fixture();
    let tree = ActionType::Sequence(vec![
        ActionType::Debug("a".to_string()),
        ActionType::Repeat {
            count: Some(2),
            action: Box::new(ActionType::Parallel(vec![
                ActionType::Wait(1),
                ActionType::Wait(2),
            ])),
        },
    ]);
    match bind(&f, 0, &tree).unwrap() {
        Action::Sequence(s) => {
            assert_eq!(s.actions.len(), 2);
            assert!(matches!(s.actions[0], Action::Debug(_)));
            match &s.actions[1] {
                Action::Repeat(r) => {
                    assert_eq!(r.count, Some(2));
                    assert_eq!(r.repeat_limit.max_events(), 3);
                    assert_eq!(r.repeat_limit.window(), 1000);
                    match &*r.action {
                        Action::Parallel(p) => assert_eq!(p.actions.len(), 2),
                        _ => panic!(),
                    }
                }
                _ => panic!(),
            }
        }
        _ => panic!(),
    }
}

fn two_machines() -> PlayerConfig {
    let mut conf = config();
    conf.state_machines = vec![
        StateMachineConfig {
            id: "Main".to_string(),
            states: vec![
                state(
                    "Start",
                    ActionType::Sequence(vec![
                        ActionType::Debug("start".to_string()),
                        ActionType::Goto("Light:On".to_string()),
                        ActionType::Goto("Wait".to_string()),
                    ]),
                ),
                state("Wait", ActionType::Debug("waiting".to_string())),
            ],
        },
        StateMachineConfig {
            id: "Light".to_string(),
            states: vec![
                state("Off", ActionType::Debug("off".to_string())),
                state("On", ActionType::Debug("on".to_string())),
            ],
        },
    ];
    conf
}

fn settle(
    ctx: &mut StateMachineContext,
    world: &mut World,
    now: u64,
) -> Result<bool, ActionError> {
    loop {
        world.repoll = false;
        let stopped = ctx.poll_all(world, now)?;
        if !world.repoll {
            return Ok(stopped);
        }
    }
}

#[test]
fn state_machines_are_set_up_and_run() {
    let conf = two_machines();
    let tags = setup_tags(&conf);
    let alarms = setup_alarms(&conf);
    let volume = setup_volume_control(&conf);
    let limit = EventLimit::new(10, 1000);
    let mut ctx =
        setup_state_machines(&conf, &playback(), &tags, &volume, &alarms, &limit).unwrap();
    assert_eq!(ctx.state_machines.len(), 2);
    assert_eq!(ctx.state_machines[0].name(), "Main");
    assert_eq!(ctx.state_machines[1].name(), "Light");
    assert_eq!(ctx.state_machines[0].find_state_index("Wait"), Some(1));
    assert_eq!(ctx.state_machines[1].find_state_index("On"), Some(1));
    let mut world = World::new(tags, alarms, ClipQueue::new(ClipPlayer::new()));
    // Nothing runs before the machines are started.
    assert!(settle(&mut ctx, &mut world, 0).unwrap());
    assert!(world.log.is_empty());
    ctx.run_all();
    assert!(!settle(&mut ctx, &mut world, 0).unwrap());
    assert_eq!(
        world.log,
        vec![
            "start".to_string(),
            "off".to_string(),
            "on".to_string(),
            "waiting".to_string()
        ]
    );
}

#[test]
fn setting_up_stops_at_the_first_unknown_name() {
    let mut conf = two_machines();
    conf.state_machines[1].states.push(state(
        "Broken",
        ActionType::Play {
            priority: 0,
            timeout: None,
            sound: "Bell".to_string(),
        },
    ));
    conf.state_machines[0]
        .states
        .push(state("Lost", ActionType::Goto("Light:Dim".to_string())));
    let tags = setup_tags(&conf);
    let alarms = setup_alarms(&conf);
    let volume = setup_volume_control(&conf);
    let limit = EventLimit::new(10, 1000);
    match setup_state_machines(&conf, &playback(), &tags, &volume, &alarms, &limit) {
        Err(e) => assert_eq!(
            e.to_string(),
            "No state named 'Light:Dim' in state machine 'Light'"
        ),
        Ok(_) => panic!("the machines were set up"),
    }
}
