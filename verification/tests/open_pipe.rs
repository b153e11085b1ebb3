use mtp_audioplayer::actions::action::World;
use mtp_audioplayer::alarm_filter::parse_filter;
use mtp_audioplayer::app_config::{AlarmContext, TagContext};
use mtp_audioplayer::clip_player::ClipPlayer;
use mtp_audioplayer::clip_queue::ClipQueue;
use mtp_audioplayer::ingress;
use mtp_audioplayer::open_pipe::alarm_data::{AlarmData, AlarmId, Timestamp};
use mtp_audioplayer::open_pipe::alarm_server::{AlarmServer, Notice};
use mtp_audioplayer::open_pipe::connection::{
    frame_command, Connection, ErrorInfo, Message, MessageVariant, NotifyAlarm, NotifyAlarms,
    NotifyTag, NotifyTags, NotifyWriteTag, NotifyWriteTags, ParamWrapperCap,
    SubscribeAlarmParams, TagData, WriteTagValue,
};
use mtp_audioplayer::open_pipe::lines::{find_eol, take_lines};
use mtp_audioplayer::open_pipe::route::{pipe_route, web_route, Server};
use serde_json::Value;

fn sample_reply() -> Message {
    Message {
        message: MessageVariant::NotifySubscribeTag(ParamWrapperCap {
            params: NotifyTags {
                tags: vec![NotifyTag {
                    data: TagData {
                        name: "Value".to_string(),
                        quality: "Good".to_string(),
                        quality_code: 192,
                        value: "32".to_string(),
                    },
                    time_stamp: "2021-03-23T11:23:11Z".to_string(),
                    error: ErrorInfo {
                        error_code: 29100,
                        error_description: "Error".to_string(),
                    },
                }],
            },
        }),
        client_cookie: "hksjdhljdfhjhioehuh".to_string(),
    }
}

/// The JSON text of a notification of tags, as it travels.
fn reply_json(reply: &Message) -> String {
    let tags = match &reply.message {
        MessageVariant::NotifySubscribeTag(p) => &p.params.tags,
        other => panic!("{:?}", other),
    };
    let mut list = Vec::new();
    for t in tags {
        let mut tag = serde_json::Map::new();
        tag.insert("Name".to_string(), Value::from(t.data.name.clone()));
        tag.insert("Value".to_string(), Value::from(t.data.value.clone()));
        tag.insert("Quality".to_string(), Value::from(t.data.quality.clone()));
        tag.insert("QualityCode".to_string(), Value::from(t.data.quality_code));
        tag.insert("TimeStamp".to_string(), Value::from(t.time_stamp.clone()));
        tag.insert("ErrorCode".to_string(), Value::from(t.error.error_code));
        tag.insert(
            "ErrorDescription".to_string(),
            Value::from(t.error.error_description.clone()),
        );
        list.push(Value::Object(tag));
    }
    let mut params = serde_json::Map::new();
    params.insert("Tags".to_string(), Value::Array(list));
    let mut msg = serde_json::Map::new();
    msg.insert(
        "Message".to_string(),
        Value::from("NotifySubscribeTag".to_string()),
    );
    msg.insert("Params".to_string(), Value::Object(params));
    msg.insert(
        "ClientCookie".to_string(),
        Value::from(reply.client_cookie.clone()),
    );
    serde_json::ser::to_string(&Value::Object(msg)).unwrap()
}

fn notify_alarm(id: &str, class: &str, priority: &str, time: &str) -> NotifyAlarm {
    NotifyAlarm {
        name: format!("alarm{}", id),
        id: id.to_string(),
        alarm_class_name: class.to_string(),
        alarm_class_symbol: "W".to_string(),
        event_text: "Something happened".to_string(),
        instance_id: "1".to_string(),
        priority: priority.to_string(),
        state: "1".to_string(),
        state_text: "Incoming".to_string(),
        state_machine: "7".to_string(),
        modification_time: time.to_string(),
    }
}

fn notify_tag(name: &str, value: &str, error_code: u32) -> NotifyTag {
    NotifyTag {
        data: TagData {
            name: name.to_string(),
            value: value.to_string(),
            quality: "Good".to_string(),
            quality_code: 192,
        },
        time_stamp: "2021-03-23T11:23:11Z".to_string(),
        error: ErrorInfo {
            error_code,
            error_description: String::new(),
        },
    }
}

fn new_world() -> World {
    World::new(
        TagContext::new(),
        AlarmContext::new(),
        ClipQueue::new(ClipPlayer::new()),
    )
}

fn alarm_ids(msg: &Message) -> Vec<String> {
    match &msg.message {
        MessageVariant::NotifySubscribeAlarm(p) => {
            p.params.alarms.iter().map(|a| a.id.clone()).collect()
        }
        other => panic!("{:?}", other),
    }
}

#[test]
fn connection_serialize_test() {
    let reply = sample_reply();
    let json = reply_json(&reply);
    println!("{}", json);
    let line = frame_command(&json);
    let mut expected = json.clone().into_bytes();
    expected.push(b'\n');
    assert_eq!(line, expected);
    let read: Value = serde_json::from_slice(&line).unwrap();
    assert_eq!(read["Message"], "NotifySubscribeTag");
    assert_eq!(read["ClientCookie"], "hksjdhljdfhjhioehuh");
    assert_eq!(read["Params"]["Tags"][0]["QualityCode"], 192);
    assert_eq!(read["Params"]["Tags"][0]["ErrorCode"], 29100);
}

#[test]
fn open_pipe_serialize_test() {
    let reply = sample_reply();
    match &reply.message {
        MessageVariant::NotifySubscribeTag(p) => {
            let tag = &p.params.tags[0];
            assert_eq!(tag.data.name, "Value");
            assert_eq!(tag.data.quality, "Good");
            assert_eq!(tag.data.quality_code, 192);
            assert_eq!(tag.time_stamp, "2021-03-23T11:23:11Z");
            assert_eq!(tag.data.value, "32");
            assert_eq!(tag.error.error_code, 29100);
            assert_eq!(tag.error.error_description, "Error");
        }
        other => panic!("{:?}", other),
    }
    assert_eq!(reply.client_cookie, "hksjdhljdfhjhioehuh");
    println!("{}", reply_json(&reply));
}

#[test]
fn outgoing_text_outside_ascii_is_escaped() {
    assert_eq!(frame_command("abc"), b"abc\n".to_vec());
    assert_eq!(frame_command(""), b"\n".to_vec());
    assert_eq!(
        frame_command("{\"V\":\"\u{e5}\u{20ac}\"}"),
        b"{\"V\":\"\\u00e5\\u20ac\"}\n".to_vec()
    );
    assert_eq!(frame_command("\u{7f}"), vec![0x7f, b'\n']);
    assert_eq!(frame_command("\u{80}"), b"\\u0080\n".to_vec());
    assert_eq!(frame_command("\u{ffff}"), b"\\uffff\n".to_vec());
    // A character beyond sixteen bits is written as a surrogate pair.
    assert_eq!(
        frame_command("\u{1f600}"),
        b"\\ud83d\\ude00\n".to_vec()
    );
    assert_eq!(
        frame_command("\u{10000}\u{10ffff}"),
        b"\\ud800\\udc00\\udbff\\udfff\n".to_vec()
    );
}

#[test]
fn escaped_text_reads_back_as_the_same_value() {
    let text = "Tr\u{e4}ger \u{2713} ok \u{1f600}\u{10348}";
    let json = serde_json::to_string(&Value::from(text)).unwrap();
    let line = frame_command(&json);
    assert!(line.iter().all(|b| *b < 128));
    let read: Value = serde_json::from_slice(&line).unwrap();
    assert_eq!(read, Value::from(text));
}

#[test]
fn cookies_are_numbered_from_one() {
    let mut conn = Connection::new(4711);
    assert_eq!(conn.get_cookie(), "cookie_4711_1");
    assert_eq!(conn.get_cookie(), "cookie_4711_2");
    let msg = conn.subscribe_tags(vec!["A".to_string(), "B".to_string()]);
    assert_eq!(msg.client_cookie, "cookie_4711_3");
    match msg.message {
        MessageVariant::SubscribeTag(p) => {
            assert_eq!(p.params.tags, vec!["A".to_string(), "B".to_string()])
        }
        other => panic!("{:?}", other),
    }
    let msg = conn.write_tags(vec![WriteTagValue {
        name: "A".to_string(),
        value: "1".to_string(),
    }]);
    assert_eq!(msg.client_cookie, "cookie_4711_4");
    match msg.message {
        MessageVariant::WriteTag(p) => {
            assert_eq!(p.params.tags.len(), 1);
            assert_eq!(p.params.tags[0].name, "A");
            assert_eq!(p.params.tags[0].value, "1");
        }
        other => panic!("{:?}", other),
    }
    let msg = conn.subscribe_alarms();
    assert_eq!(msg.client_cookie, "cookie_4711_5");
    match msg.message {
        MessageVariant::SubscribeAlarm(p) => {
            assert!(p.params.system_names.is_none());
            assert!(p.params.filter.is_none());
            assert!(p.params.language_id.is_none());
        }
        other => panic!("{:?}", other),
    }
}

#[test]
fn answers_carry_the_cookie_of_the_request() {
    let msg = Connection::unsubscribe_tags("c1");
    assert!(matches!(msg.message, MessageVariant::UnsubscribeTag));
    assert_eq!(msg.client_cookie, "c1");
    let msg = Connection::notify_unsubscibe_tags("c2");
    assert!(matches!(msg.message, MessageVariant::NotifyUnsubscribeTag));
    assert_eq!(msg.client_cookie, "c2");
    let msg = Connection::unsubscribe_alarms("c3");
    assert!(matches!(msg.message, MessageVariant::UnsubscribeAlarm));
    assert_eq!(msg.client_cookie, "c3");
    let msg = Connection::error_subscibe_tags(7, "bad".to_string(), "c4");
    match msg.message {
        MessageVariant::ErrorSubscribeTag(e) => {
            assert_eq!(e.error_code, 7);
            assert_eq!(e.error_description, "bad");
        }
        other => panic!("{:?}", other),
    }
    let msg = Connection::notify_subscibe_tags(
        NotifyTags {
            tags: vec![notify_tag("A", "1", 0)],
        },
        "c5",
    );
    assert_eq!(msg.client_cookie, "c5");
    assert!(matches!(msg.message, MessageVariant::NotifySubscribeTag(_)));
}

#[test]
fn error_info_as_text() {
    let e = ErrorInfo {
        error_code: 29100,
        error_description: "Error".to_string(),
    };
    assert_eq!(e.to_string(), "Error (0x000071ac)");
    let e = ErrorInfo {
        error_code: u32::MAX,
        error_description: String::new(),
    };
    assert_eq!(e.to_string(), " (0xffffffff)");
    let e = ErrorInfo::default();
    assert_eq!(e.to_string(), " (0x00000000)");
    let copy = e.duplicate();
    assert_eq!(copy.error_code, 0);
}

#[test]
fn alarm_record_from_its_travelling_form() {
    let a = AlarmData::from_notify(notify_alarm(
        "17",
        "Warning",
        "-3",
        "2019-01-30 11:25:39.9780320",
    ));
    assert_eq!(a.id, 17);
    assert_eq!(a.name, "alarm17");
    assert_eq!(a.alarm_class_name, "Warning");
    assert_eq!(a.priority, -3);
    assert_eq!(a.state, 1);
    assert_eq!(a.instance_id, 1);
    assert_eq!(a.state_machine, 7);
    assert_eq!(
        a.modification_time,
        Timestamp {
            secs: 1_548_847_539,
            nanos: 978_032_000
        }
    );
    assert_eq!(AlarmId::from_alarm(&a), AlarmId { id: 17 });
}

#[test]
fn numbers_that_cannot_be_read_are_zero() {
    let mut n = notify_alarm("x17", "Warning", "", "2019-01-30 11:25:39");
    n.state = "2147483648".to_string();
    n.instance_id = "+12".to_string();
    n.state_machine = " 3".to_string();
    let a = AlarmData::from_notify(n);
    assert_eq!(a.id, 0);
    assert_eq!(a.priority, 0);
    assert_eq!(a.state, 0);
    assert_eq!(a.instance_id, 12);
    assert_eq!(a.state_machine, 0);
    assert_eq!(
        a.modification_time,
        Timestamp {
            secs: 1_548_847_539,
            nanos: 0
        }
    );
}

#[test]
fn a_time_that_cannot_be_read_is_the_current_time() {
    let a = AlarmData::from_notify(notify_alarm("1", "Warning", "1", "yesterday"));
    // Some time after the start of 2020.
    assert!(a.modification_time.secs > 1_577_836_800);
    assert!(a.modification_time.nanos < 2_000_000_000);
    let given = Timestamp { secs: 5, nanos: 6 };
    let b = AlarmData::from_parts(notify_alarm("1", "Warning", "1", "yesterday"), None, given);
    assert_eq!(b.modification_time, given);
    let read = Timestamp { secs: 7, nanos: 8 };
    let c = AlarmData::from_parts(
        notify_alarm("1", "Warning", "1", "yesterday"),
        Some(read),
        given,
    );
    assert_eq!(c.modification_time, read);
}

#[test]
fn alarm_record_to_its_travelling_form() {
    let a = AlarmData {
        name: "Foo".to_string(),
        id: -5,
        alarm_class_name: "Warning".to_string(),
        alarm_class_symbol: "W".to_string(),
        event_text: "This is a warning".to_string(),
        instance_id: 0,
        priority: 2147483647,
        state: i32::MIN,
        state_text: "Incoming".to_string(),
        state_machine: 7,
        modification_time: Timestamp {
            secs: 1_548_847_539,
            nanos: 978_032_000,
        },
    };
    let n = a.to_notify();
    assert_eq!(n.name, "Foo");
    assert_eq!(n.id, "-5");
    assert_eq!(n.instance_id, "0");
    assert_eq!(n.priority, "2147483647");
    assert_eq!(n.state, "-2147483648");
    assert_eq!(n.state_machine, "7");
    assert_eq!(n.modification_time, "2019-01-30 11:25:39.978032");
    let back = AlarmData::from_notify(n);
    assert_eq!(back.id, a.id);
    assert_eq!(back.state, a.state);
    assert_eq!(back.priority, a.priority);
    assert_eq!(back.modification_time, a.modification_time);
    let copy = a.duplicate();
    assert_eq!(copy.event_text, "This is a warning");
    assert_eq!(copy.modification_time, a.modification_time);
}

#[test]
fn a_whole_second_travels_without_a_fraction() {
    let a = AlarmData::from_notify(notify_alarm("1", "W", "1", "1970-01-01 00:00:10"));
    assert_eq!(a.modification_time, Timestamp { secs: 10, nanos: 0 });
    assert_eq!(a.to_notify().modification_time, "1970-01-01 00:00:10");
}

#[test]
fn find_eol_finds_the_first_end_of_line() {
    assert_eq!(find_eol(b"abc\ndef\r", 0), Some(3));
    assert_eq!(find_eol(b"abc\ndef\r", 3), Some(3));
    assert_eq!(find_eol(b"abc\ndef\r", 4), Some(7));
    assert_eq!(find_eol(b"abc\ndef\r", 8), None);
    assert_eq!(find_eol(b"abc\ndef\r", 100), None);
    assert_eq!(find_eol(b"abc", 0), None);
    assert_eq!(find_eol(b"", 0), None);
    assert_eq!(find_eol(b"\r\n", 0), Some(0));
}

#[test]
fn lines_are_cut_at_every_end_of_line() {
    let mut buffer = b"first\r\nsecond\n\nthi".to_vec();
    let lines = take_lines(&mut buffer, 0);
    assert_eq!(lines, vec![b"first".to_vec(), b"second".to_vec()]);
    assert_eq!(buffer, b"thi".to_vec());
    let pos = buffer.len();
    buffer.extend_from_slice(b"rd");
    assert!(take_lines(&mut buffer, pos).is_empty());
    assert_eq!(buffer, b"third".to_vec());
    let pos = buffer.len();
    buffer.extend_from_slice(b"\n");
    assert_eq!(take_lines(&mut buffer, pos), vec![b"third".to_vec()]);
    assert!(buffer.is_empty());
    assert!(take_lines(&mut buffer, 0).is_empty());
}

#[test]
fn the_first_end_of_line_is_looked_for_from_the_given_place() {
    let mut buffer = b"a\nb\nc".to_vec();
    let lines = take_lines(&mut buffer, 2);
    assert_eq!(lines, vec![b"a\nb".to_vec()]);
    assert_eq!(buffer, b"c".to_vec());
}

#[test]
fn alarm_server_keeps_the_alarms_in_the_order_of_their_ids() {
    let mut server = AlarmServer::new();
    let reply = server.subscribe(
        SubscribeAlarmParams {
            system_names: None,
            filter: None,
            language_id: Some(1033),
        },
        "client",
    );
    assert_eq!(reply.client_cookie, "client");
    assert!(alarm_ids(&reply).is_empty());
    let report = |ids: &[&str]| -> Vec<AlarmData> {
        ids.iter()
            .map(|id| AlarmData::from_notify(notify_alarm(id, "W", "1", "2019-01-30 11:25:39")))
            .collect()
    };
    let notices = server.notify_subscribe(report(&["5", "2", "9", "2", "-1"]), "source");
    assert_eq!(notices.len(), 1);
    assert_eq!(notices[0].recipient, "client");
    assert_eq!(notices[0].message.client_cookie, "source");
    assert_eq!(
        alarm_ids(&notices[0].message),
        vec!["5", "2", "9", "2", "-1"]
    );
    let reply = server.subscribe(
        SubscribeAlarmParams {
            system_names: None,
            filter: None,
            language_id: None,
        },
        "second",
    );
    assert_eq!(alarm_ids(&reply), vec!["-1", "2", "5", "9"]);
    // The one that reports is not told.
    let notices = server.notify_subscribe(report(&["3"]), "client");
    assert_eq!(notices.len(), 1);
    assert_eq!(notices[0].recipient, "second");
}

#[test]
fn a_known_alarm_changes_its_state_and_time_only() {
    let mut server = AlarmServer::new();
    let first = AlarmData::from_notify(notify_alarm("4", "W", "1", "2019-01-30 11:25:39"));
    server.notify_subscribe(vec![first], "source");
    let mut again = notify_alarm("4", "Other", "8", "2020-01-30 11:25:39");
    again.state = "6".to_string();
    server.notify_subscribe(vec![AlarmData::from_notify(again)], "source");
    let reply = server.subscribe(
        SubscribeAlarmParams {
            system_names: None,
            filter: None,
            language_id: None,
        },
        "client",
    );
    match &reply.message {
        MessageVariant::NotifySubscribeAlarm(p) => {
            assert_eq!(p.params.alarms.len(), 1);
            let a = &p.params.alarms[0];
            assert_eq!(a.id, "4");
            assert_eq!(a.alarm_class_name, "W");
            assert_eq!(a.priority, "1");
            assert_eq!(a.state, "6");
            assert_eq!(a.modification_time, "2020-01-30 11:25:39");
        }
        other => panic!("{:?}", other),
    }
}

#[test]
fn alarm_server_handles_messages() {
    let mut server = AlarmServer::new();
    let mut outbox: Vec<Notice> = Vec::new();
    let reply = server.handle_message(
        Message {
            message: MessageVariant::SubscribeAlarm(ParamWrapperCap {
                params: SubscribeAlarmParams {
                    system_names: None,
                    filter: None,
                    language_id: None,
                },
            }),
            client_cookie: "a".to_string(),
        },
        &mut outbox,
    );
    assert!(matches!(
        reply.unwrap().message,
        MessageVariant::NotifySubscribeAlarm(_)
    ));
    let reply = server.handle_message(
        Message {
            message: MessageVariant::NotifySubscribeAlarm(ParamWrapperCap {
                params: NotifyAlarms {
                    alarms: vec![notify_alarm("1", "W", "1", "2019-01-30 11:25:39")],
                },
            }),
            client_cookie: "b".to_string(),
        },
        &mut outbox,
    );
    assert!(reply.is_none());
    assert_eq!(outbox.len(), 1);
    assert_eq!(outbox[0].recipient, "a");
    assert_eq!(alarm_ids(&outbox[0].message), vec!["1"]);
    let reply = server.handle_message(
        Message {
            message: MessageVariant::UnsubscribeAlarm,
            client_cookie: "a".to_string(),
        },
        &mut outbox,
    );
    assert!(matches!(
        reply.unwrap().message,
        MessageVariant::NotifyUnsubscribeAlarm
    ));
    let reply = server
        .handle_message(
            Message {
                message: MessageVariant::UnsubscribeAlarm,
                client_cookie: "a".to_string(),
            },
            &mut outbox,
        )
        .unwrap();
    assert_eq!(reply.client_cookie, "a");
    match reply.message {
        MessageVariant::ErrorUnsubscribeAlarm(e) => {
            assert_eq!(e.error_code, 4);
            assert_eq!(e.error_description, "No matching subscription");
        }
        other => panic!("{:?}", other),
    }
    let reply = server.handle_message(
        Message {
            message: MessageVariant::UnsubscribeTag,
            client_cookie: "a".to_string(),
        },
        &mut outbox,
    );
    assert!(reply.is_none());
    assert_eq!(outbox.len(), 1);
}

#[test]
fn ingress_routes_tag_changes() {
    let mut world = new_world();
    world.tags.add_tag("A", None);
    world.tags.add_tag("B", Some("old".to_string()));
    let (_, wait) = world.tags.wait_value("B").unwrap();
    let msg = Connection::notify_subscibe_tags(
        NotifyTags {
            tags: vec![notify_tag("A", "1", 0), notify_tag("B", "2", 0)],
        },
        "c",
    );
    ingress::handle_message(&mut world, &msg);
    assert_eq!(world.tags.get_value("A"), Some("1".to_string()));
    assert_eq!(world.tags.get_value("B"), Some("2".to_string()));
    assert_eq!(world.tags.poll_wait(&wait).unwrap(), Some("2".to_string()));
    assert!(world.tags.take_requests().is_empty());
}

#[test]
fn ingress_routes_alarms_and_acknowledgments() {
    let mut world = new_world();
    world
        .alarms
        .add_filter("F", parse_filter("Priority <= 7").unwrap(), None, None);
    let msg = Message {
        message: MessageVariant::NotifySubscribeAlarm(ParamWrapperCap {
            params: NotifyAlarms {
                alarms: vec![
                    notify_alarm("1", "W", "3", "2019-01-30 11:25:39"),
                    notify_alarm("2", "W", "9", "2019-01-30 11:25:39"),
                    notify_alarm("3", "W", "7", "2019-01-30 11:25:39"),
                ],
            },
        }),
        client_cookie: "c".to_string(),
    };
    ingress::handle_message(&mut world, &msg);
    assert_eq!(world.alarms.get_filter_count("F").unwrap(), 2);

    let wait = world.tags.async_set_tag("Out", "1", 0);
    assert!(!world.tags.poll_set_tag(&wait, 1));
    let ack = Message {
        message: MessageVariant::NotifyWriteTag(ParamWrapperCap {
            params: NotifyWriteTags {
                tags: vec![NotifyWriteTag {
                    name: "Out".to_string(),
                    error: ErrorInfo::default(),
                }],
            },
        }),
        client_cookie: "c".to_string(),
    };
    ingress::handle_message(&mut world, &ack);
    assert!(world.tags.poll_set_tag(&wait, 1));
    // Other messages change nothing.
    ingress::handle_message(&mut world, &Connection::unsubscribe_tags("c"));
    assert_eq!(world.alarms.get_filter_count("F").unwrap(), 2);
}

#[test]
fn the_answer_to_a_subscription_gives_the_accepted_tags() {
    let answer = NotifyTags {
        tags: vec![
            notify_tag("A", "1", 0),
            notify_tag("B", "2", 5),
            notify_tag("C", "3", 0),
        ],
    };
    let values = ingress::subscribe_tags(&answer);
    assert_eq!(values.len(), 2);
    assert_eq!(values[0].name, "A");
    assert_eq!(values[0].value, "1");
    assert_eq!(values[1].name, "C");
    assert_eq!(values[1].value, "3");
    let alarms = ingress::subscribe_alarms(&NotifyAlarms {
        alarms: vec![
            notify_alarm("8", "W", "3", "2019-01-30 11:25:39"),
            notify_alarm("9", "X", "4", "2019-01-30 11:25:40"),
        ],
    });
    assert_eq!(alarms.len(), 2);
    assert_eq!(alarms[0].id, 8);
    assert_eq!(alarms[1].id, 9);
    assert_eq!(alarms[1].alarm_class_name, "X");
    assert_eq!(alarms[1].modification_time.secs - alarms[0].modification_time.secs, 1);
}

#[test]
fn messages_go_to_the_server_that_keeps_their_subject() {
    let tags = || ParamWrapperCap {
        params: NotifyTags { tags: Vec::new() },
    };
    let alarms = || ParamWrapperCap {
        params: NotifyAlarms { alarms: Vec::new() },
    };
    let subscribe = || {
        ParamWrapperCap::new(SubscribeAlarmParams {
            system_names: None,
            filter: None,
            language_id: None,
        })
    };
    assert_eq!(
        pipe_route(&MessageVariant::UnsubscribeTag),
        Some(Server::Tags)
    );
    assert_eq!(
        pipe_route(&MessageVariant::SubscribeAlarm(subscribe())),
        Some(Server::Alarms)
    );
    assert_eq!(
        pipe_route(&MessageVariant::ReadAlarm(subscribe())),
        Some(Server::Alarms)
    );
    assert_eq!(
        pipe_route(&MessageVariant::NotifySubscribeAlarm(alarms())),
        Some(Server::Alarms)
    );
    assert_eq!(
        pipe_route(&MessageVariant::UnsubscribeAlarm),
        Some(Server::Alarms)
    );
    // What a server sends is nothing that a server takes from the pipe.
    assert_eq!(pipe_route(&MessageVariant::NotifySubscribeTag(tags())), None);
    assert_eq!(pipe_route(&MessageVariant::NotifyUnsubscribeTag), None);
    assert_eq!(pipe_route(&MessageVariant::NotifyUnsubscribeAlarm), None);
    assert_eq!(
        pipe_route(&MessageVariant::ErrorReadAlarm(ErrorInfo::default())),
        None
    );
    assert_eq!(
        web_route(&MessageVariant::NotifySubscribeTag(tags())),
        Server::Tags
    );
    assert_eq!(
        web_route(&MessageVariant::ErrorWriteTag(ErrorInfo::default())),
        Server::Tags
    );
    assert_eq!(
        web_route(&MessageVariant::NotifyUnsubscribeAlarm),
        Server::Alarms
    );
    assert_eq!(
        web_route(&MessageVariant::ErrorReadAlarm(ErrorInfo::default())),
        Server::Alarms
    );
}
