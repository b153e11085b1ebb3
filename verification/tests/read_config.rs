use mtp_audioplayer::actions::wait_alarm::AlarmCondition;
use mtp_audioplayer::actions::wait_tag::TagCondition;
use mtp_audioplayer::clip_player::SampleFormat;
use mtp_audioplayer::read_config::action_reader::parse_action;
use mtp_audioplayer::read_config::document::read_document;
use mtp_audioplayer::read_config::error::{ConfigError, ConfigErrorKind, TextPos};
use mtp_audioplayer::read_config::number::{
    parse_bool, parse_int, IntErrorKind, NumberKind, Numbers,
};
use mtp_audioplayer::read_config::reader::{check_element_ns, text_content, Stop};
use mtp_audioplayer::read_config::xml::{blank, trim, whitespace, Attribute, NodeKind, XmlNode};
use mtp_audioplayer::read_config::{ActionType, ClipType, PlayerConfig, ReadError};
use std::time::Duration;

const NS: &str = "http://www.elektro-kapsel.se/audioplayer/v1";

fn convert(node: &roxmltree::Node) -> XmlNode {
    let pos = node.document().text_pos_at(node.range().start);
    let kind = if node.is_element() {
        NodeKind::Element
    } else if node.is_text() {
        NodeKind::Text
    } else {
        NodeKind::Other
    };
    XmlNode {
        kind,
        namespace: node.tag_name().namespace().map(|s| s.to_string()),
        name: node.tag_name().name().to_string(),
        attributes: node
            .attributes()
            .iter()
            .map(|a| Attribute {
                namespace: a.namespace().map(|s| s.to_string()),
                name: a.name().to_string(),
                value: a.value().to_string(),
            })
            .collect(),
        text: if node.is_text() {
            node.text().unwrap_or("").to_string()
        } else {
            String::new()
        },
        children: node.children().map(|c| convert(&c)).collect(),
        pos: TextPos {
            row: pos.row,
            col: pos.col,
        },
    }
}

fn tree(input: &str) -> XmlNode {
    let document = roxmltree::Document::parse(input).unwrap();
    convert(&document.root_element())
}

fn parse_duration(time_str: &str) -> Result<Duration, String> {
    let time_str = time_str.trim();
    let split = match time_str.char_indices().last() {
        Some((at, _)) => at,
        None => return Err("Empty duration".to_string()),
    };
    let (value_str, unit_str) = time_str.split_at(split);
    let value: f64 = value_str
        .trim()
        .parse()
        .map_err(|e: std::num::ParseFloatError| e.to_string())?;
    if value < 0.0 {
        return Err("Negative duration not allowed".to_string());
    }
    let scale = match unit_str {
        "s" => 1.0,
        "m" => 60.0,
        "h" => 60.0 * 60.0,
        u => return Err(format!("Unknown time unit '{}'", u)),
    };
    Duration::try_from_secs_f64(value * scale).map_err(|e| e.to_string())
}

fn read_number(kind: NumberKind, text: &str) -> Result<u64, String> {
    match kind {
        NumberKind::Double => text
            .parse::<f64>()
            .map(f64::to_bits)
            .map_err(|e| e.to_string()),
        NumberKind::Single => text
            .parse::<f32>()
            .map(|v| u64::from(v.to_bits()))
            .map_err(|e| e.to_string()),
        NumberKind::Millis => parse_duration(text).map(|d| d.as_millis() as u64),
    }
}

fn read(input: &str) -> Result<PlayerConfig, String> {
    let root = tree(input);
    let mut numbers = Numbers::new();
    loop {
        match read_document(&root, &numbers) {
            Ok(player) => return Ok(player),
            Err(Stop::Ask(q)) => {
                let reading = read_number(q.kind, &q.text);
                numbers.answer(q.kind, &q.text, reading);
            }
            Err(Stop::Fail(e)) => return Err(e.to_string()),
        }
    }
}

fn read_error(body: &str) -> String {
    let doc = format!("<audioplayer xmlns=\"{}\">{}</audioplayer>", NS, body);
    match read(&doc) {
        Err(e) => e,
        Ok(c) => panic!("read as {:?}", c),
    }
}

fn action(xml: &str) -> Result<ActionType, String> {
    let doc = format!("<state xmlns=\"{}\">{}</state>", NS, xml);
    let root = tree(&doc);
    let node = root
        .children
        .iter()
        .find(|c| c.kind == NodeKind::Element)
        .unwrap();
    let mut numbers = Numbers::new();
    loop {
        match parse_action(node, &numbers) {
            Ok(a) => return Ok(a),
            Err(Stop::Ask(q)) => {
                let reading = read_number(q.kind, &q.text);
                numbers.answer(q.kind, &q.text, reading);
            }
            Err(Stop::Fail(e)) => return Err(e.to_string()),
        }
    }
}

const PLAYER: &str = r#"<?xml version="1.0" encoding="UTF-8"?>
<audioplayer xmlns="http://www.elektro-kapsel.se/audioplayer/v1">
  <!-- where the runtime listens -->
  <bind>/tmp/pipe</bind>
  <playback_device rate="48000" channels="1" format="f32">plughw:SoundBar</playback_device>
  <clips path="sounds">
    <file id="SoundAlarm">Alarm.wav</file>
    <file id="SoundInfo" amplitude="0.5">Info.wav</file>
    <sine id="Beep" amplitude="0.25" frequency="440" duration="1.5s"/>
    <file id="SoundAlarm" amplitude="2">Other.wav</file>
  </clips>
  <tags>
    <tag>Alarm</tag>
    <tag>Level</tag>
  </tags>
  <alarms>
    <filter id="Warnings" tag_matching="Count">
      AlarmClassName = 'Warning' AND Priority &lt;= 7
    </filter>
    <filter id="All" tag_ignored="Ignored">Priority >= 0</filter>
  </alarms>
  <state_machine id="Main">
    <state id="Idle">
      <wait_tag gt="0.5">Alarm</wait_tag>
      <goto>Sound</goto>
    </state>
    <state id="Sound">
      <repeat count="3">
        <play priority="5" timeout="2s">SoundAlarm</play>
        <wait>250ms</wait>
      </repeat>
    </state>
    <state id="Quiet"/>
  </state_machine>
  <state_machine id="Other">
    <state id="Only"><debug>hello</debug></state>
  </state_machine>
</audioplayer>
"#;

#[test]
fn a_document_with_a_wrong_duration_is_refused() {
    // `250ms` has the unit `s` after a value that is no number.
    assert_eq!(read(PLAYER).unwrap_err(), "invalid float literal");
}

#[test]
fn a_whole_configuration_is_read() {
    let doc = PLAYER.replace("250ms", "0.25s");
    let conf = read(&doc).unwrap();
    assert_eq!(conf.bind, "/tmp/pipe");
    assert_eq!(conf.playback_device, "plughw:SoundBar");
    assert_eq!(conf.rate, 48000);
    assert_eq!(conf.channels, 1);
    assert_eq!(conf.sample_format, SampleFormat::F32);
    assert_eq!(conf.clip_root, "sounds");
    assert_eq!(conf.clips.len(), 3);
    assert_eq!(conf.clips[0].id, "SoundAlarm");
    match &conf.clips[0].clip {
        ClipType::File {
            file_name,
            amplitude,
        } => {
            assert_eq!(file_name, "Other.wav");
            assert_eq!(f32::from_bits(*amplitude), 2.0);
        }
        other => panic!("{:?}", other),
    }
    match &conf.clips[1].clip {
        ClipType::File { amplitude, .. } => assert_eq!(f32::from_bits(*amplitude), 0.5),
        other => panic!("{:?}", other),
    }
    assert_eq!(conf.clips[2].id, "Beep");
    match &conf.clips[2].clip {
        ClipType::Sine {
            amplitude,
            frequency,
            duration,
        } => {
            assert_eq!(f64::from_bits(*amplitude), 0.25);
            assert_eq!(f64::from_bits(*frequency), 440.0);
            assert_eq!(*duration, 1500);
        }
        other => panic!("{:?}", other),
    }
    assert_eq!(conf.tags, vec!["Alarm".to_string(), "Level".to_string()]);
    assert_eq!(conf.named_alarm_filters.len(), 2);
    assert_eq!(conf.named_alarm_filters[0].id, "Warnings");
    assert_eq!(
        conf.named_alarm_filters[0].filter.filter_predicate.to_string(),
        "(AlarmClassName = 'Warning') AND (Priority <= 7)"
    );
    assert_eq!(
        conf.named_alarm_filters[0].filter.tag_matching,
        Some("Count".to_string())
    );
    assert_eq!(conf.named_alarm_filters[0].filter.tag_ignored, None);
    assert_eq!(
        conf.named_alarm_filters[1].filter.filter_predicate.to_string(),
        "NOT (Priority < 0)"
    );
    assert_eq!(
        conf.named_alarm_filters[1].filter.tag_ignored,
        Some("Ignored".to_string())
    );
    assert!(conf.volume_config.is_empty());

    assert_eq!(conf.state_machines.len(), 2);
    let main = &conf.state_machines[0];
    assert_eq!(main.id, "Main");
    assert_eq!(main.states.len(), 3);
    assert_eq!(main.states[0].id, "Idle");
    match &main.states[0].action {
        ActionType::Parallel(actions) => {
            assert_eq!(actions.len(), 2);
            match &actions[0] {
                ActionType::WaitTag {
                    tag_name,
                    condition: TagCondition::Greater(limit),
                } => {
                    assert_eq!(tag_name, "Alarm");
                    assert_eq!(f64::from_bits(*limit), 0.5);
                }
                other => panic!("{:?}", other),
            }
            assert!(matches!(&actions[1], ActionType::Goto(t) if t == "Sound"));
        }
        other => panic!("{:?}", other),
    }
    match &main.states[1].action {
        ActionType::Repeat { count, action } => {
            assert_eq!(*count, Some(3));
            match &**action {
                ActionType::Sequence(actions) => {
                    assert_eq!(actions.len(), 2);
                    match &actions[0] {
                        ActionType::Play {
                            priority,
                            timeout,
                            sound,
                        } => {
                            assert_eq!(*priority, 5);
                            assert_eq!(*timeout, Some(2000));
                            assert_eq!(sound, "SoundAlarm");
                        }
                        other => panic!("{:?}", other),
                    }
                    assert!(matches!(&actions[1], ActionType::Wait(250)));
                }
                other => panic!("{:?}", other),
            }
        }
        other => panic!("{:?}", other),
    }
    // A state without an action runs nothing.
    assert!(matches!(&main.states[2].action, ActionType::Parallel(a) if a.is_empty()));
    let other = &conf.state_machines[1];
    assert_eq!(other.id, "Other");
    assert!(matches!(&other.states[0].action, ActionType::Debug(t) if t == "hello"));
}

#[test]
fn an_empty_configuration_has_the_first_values() {
    let conf = read(&format!("<audioplayer xmlns=\"{}\"/>", NS)).unwrap();
    assert_eq!(conf.bind, "/tmp/siemens/automation/HmiRunTime");
    assert_eq!(conf.playback_device, "");
    assert_eq!(conf.rate, 44100);
    assert_eq!(conf.channels, 2);
    assert_eq!(conf.sample_format, SampleFormat::I16);
    assert!(conf.clips.is_empty());
    assert!(conf.tags.is_empty());
    assert!(conf.named_alarm_filters.is_empty());
    assert!(conf.state_machines.is_empty());
}

#[test]
fn an_element_that_is_not_known_is_refused() {
    let doc = r#"<?xml version="1.0" encoding="UTF-8"?>
<audioplayer xmlns="http://www.elektro-kapsel.se/audioplayer/v1">
  <bind>/tmp/siemens/automation/HmiRunTime</bind>
  <playback_device rate="44100" channels="2">plughw:SoundBar</playback_device>
  <tags>
    <tag>SoundAlarm</tag>
  </tags>
  <actions>
    <sequence id="AlarmOnce">
      <play>SoundAlarm</play>
    </sequence>
  </actions>
</audioplayer>
"#;
    assert_eq!(read(doc).unwrap_err(), "8:3: Unexpected element");
}

#[test]
fn the_root_must_be_the_player() {
    assert_eq!(
        read(&format!("<player xmlns=\"{}\"/>", NS)).unwrap_err(),
        "The root node must be 'audioplayer'"
    );
    assert_eq!(
        read("<audioplayer/>").unwrap_err(),
        "The root node must be 'audioplayer'"
    );
    assert_eq!(
        read("<audioplayer xmlns=\"http://example.com/other\"/>").unwrap_err(),
        "The root node must be 'audioplayer'"
    );
}

#[test]
fn errors_name_their_place_and_kind() {
    assert_eq!(
        read_error("<x:bind xmlns:x=\"urn:other\">a</x:bind>"),
        "1:66: Incorrect namespace for element"
    );
    assert_eq!(
        read_error("stray<bind>a</bind>"),
        "1:66: Unexpected non-whitespace text"
    );
    assert_eq!(
        read_error("<bind>a<b/></bind>"),
        "1:73: Unexpected element"
    );
    assert_eq!(
        read_error("<clips><file id=\"a\">f</file></clips>"),
        "1:66: Missing attribute 'path'"
    );
    assert_eq!(
        read_error("<clips path=\"p\"><file>f</file></clips>"),
        "1:82: Missing attribute 'id'"
    );
    assert_eq!(
        read_error("<clips path=\"p\"><tone/></clips>"),
        "1:82: Unexpected element"
    );
    assert_eq!(
        read_error("<tags><name>a</name></tags>"),
        "1:72: Unexpected element"
    );
    assert_eq!(
        read_error("<alarms><rule/></alarms>"),
        "1:74: Unexpected element"
    );
    assert_eq!(
        read_error("<state_machine id=\"m\"><step/></state_machine>"),
        "1:88: Unexpected element"
    );
    assert_eq!(
        read_error("<state_machine><state id=\"s\"/></state_machine>"),
        "1:66: Missing attribute 'id'"
    );
}

#[test]
fn attributes_that_cannot_be_read() {
    assert_eq!(
        read_error("<playback_device rate=\"fast\" channels=\"2\">d</playback_device>"),
        "1:66: Failed to parse attribute 'rate': invalid digit found in string"
    );
    assert_eq!(
        read_error("<playback_device rate=\"\" channels=\"2\">d</playback_device>"),
        "1:66: Failed to parse attribute 'rate': cannot parse integer from empty string"
    );
    assert_eq!(
        read_error("<playback_device rate=\"-1\" channels=\"2\">d</playback_device>"),
        "1:66: Failed to parse attribute 'rate': invalid digit found in string"
    );
    assert_eq!(
        read_error("<playback_device rate=\"44100\" channels=\"256\">d</playback_device>"),
        "1:66: Failed to parse attribute 'channels': number too large to fit in target type"
    );
    assert_eq!(
        read_error("<playback_device rate=\"44100\">d</playback_device>"),
        "1:66: Missing attribute 'channels'"
    );
    assert_eq!(
        read_error("<playback_device rate=\"1\" channels=\"2\" format=\"i8\">d</playback_device>"),
        "Invalid sample format"
    );
    assert_eq!(
        read_error("<clips path=\"p\"><file id=\"a\" amplitude=\"loud\">f</file></clips>"),
        "1:82: Failed to parse attribute 'amplitude': invalid float literal"
    );
    assert_eq!(
        read_error(
            "<clips path=\"p\"><sine id=\"a\" amplitude=\"1\" frequency=\"2\" duration=\"3d\"/></clips>"
        ),
        "1:82: Failed to parse attribute 'duration': Unknown time unit 'd'"
    );
    assert_eq!(
        read_error(
            "<clips path=\"p\"><sine id=\"a\" amplitude=\"1\" frequency=\"2\" duration=\"-3s\"/></clips>"
        ),
        "1:82: Failed to parse attribute 'duration': Negative duration not allowed"
    );
    assert_eq!(
        read_error("<clips path=\"p\"><sine id=\"a\" amplitude=\"1\" duration=\"3s\"/></clips>"),
        "1:82: Missing attribute 'frequency'"
    );
}

#[test]
fn a_filter_that_cannot_be_read_is_reported_at_its_text() {
    assert_eq!(
        read_error("<alarms><filter id=\"f\">Colour = 'red'</filter></alarms>"),
        "1:89: Failed to parse alarm filter: Name of filter criterion not recognized: Colour"
    );
    assert_eq!(
        read_error("<alarms><filter id=\"f\"/></alarms>"),
        format!(
            "1:74: Failed to parse alarm filter: {}",
            mtp_audioplayer::alarm_filter::parse_filter("")
                .unwrap_err()
                .to_string()
        )
    );
    assert_eq!(
        read_error("<alarms><filter>Priority = 1</filter></alarms>"),
        "1:74: Missing attribute 'id'"
    );
}

#[test]
fn actions_are_read_by_their_names() {
    assert!(matches!(action("<debug>hi</debug>"), Ok(ActionType::Debug(t)) if t == "hi"));
    assert!(matches!(action("<goto>M:S</goto>"), Ok(ActionType::Goto(t)) if t == "M:S"));
    assert!(matches!(action("<wait>2m</wait>"), Ok(ActionType::Wait(120_000))));
    assert!(matches!(action("<wait> 1h </wait>"), Ok(ActionType::Wait(3_600_000))));
    assert!(matches!(
        action("<play>Beep</play>"),
        Ok(ActionType::Play { priority: 0, timeout: None, sound }) if sound == "Beep"
    ));
    assert!(matches!(
        action("<play priority=\"-3\">Beep</play>"),
        Ok(ActionType::Play { priority: -3, .. })
    ));
    assert!(matches!(
        action("<set_tag tag=\"Out\">1</set_tag>"),
        Ok(ActionType::SetTag { tag_name, value }) if tag_name == "Out" && value == "1"
    ));
    assert!(matches!(
        action("<ignore_alarms>F</ignore_alarms>"),
        Ok(ActionType::IgnoreAlarms { filter, permanent: false }) if filter == "F"
    ));
    assert!(matches!(
        action("<ignore_alarms permanent=\"true\">F</ignore_alarms>"),
        Ok(ActionType::IgnoreAlarms { permanent: true, .. })
    ));
    assert!(matches!(
        action("<restore_alarms>F</restore_alarms>"),
        Ok(ActionType::RestoreAlarms { filter }) if filter == "F"
    ));
    for (word, condition) in [
        ("none", AlarmCondition::NoAlarm),
        ("any", AlarmCondition::Any),
        ("inc", AlarmCondition::Inc),
        ("dec", AlarmCondition::Dec),
    ] {
        match action(&format!("<wait_alarm count=\"{}\">F</wait_alarm>", word)) {
            Ok(ActionType::WaitAlarm {
                filter_name,
                condition: c,
            }) => {
                assert_eq!(filter_name, "F");
                assert_eq!(c, condition);
            }
            other => panic!("{:?}", other),
        }
    }
    assert!(matches!(
        action("<repeat><debug>a</debug></repeat>"),
        Ok(ActionType::Repeat { count: None, .. })
    ));
    assert!(matches!(
        action("<sequence><debug>a</debug></sequence>"),
        Ok(ActionType::Debug(_))
    ));
    assert!(matches!(
        action("<sequence><debug>a</debug><debug>b</debug></sequence>"),
        Ok(ActionType::Sequence(a)) if a.len() == 2
    ));
    assert!(matches!(
        action("<parallel><debug>a</debug> <debug>b</debug> <debug>c</debug></parallel>"),
        Ok(ActionType::Parallel(a)) if a.len() == 3
    ));
    assert!(matches!(
        action("<parallel><wait>1s</wait></parallel>"),
        Ok(ActionType::Wait(1000))
    ));
}

#[test]
fn actions_that_cannot_be_read() {
    assert_eq!(
        action("<sequence> </sequence>").unwrap_err(),
        "No action in sequence"
    );
    assert_eq!(
        action("<parallel/>").unwrap_err(),
        "No action in parallel"
    );
    assert_eq!(
        action("<repeat count=\"2\"/>").unwrap_err(),
        "No action in sequence"
    );
    assert_eq!(
        action("<repeat count=\"0\"><debug>a</debug></repeat>").unwrap_err(),
        "1:60: Failed to parse attribute 'count': number would be zero for non-zero type"
    );
    assert_eq!(
        action("<repeat count=\"4294967296\"><debug>a</debug></repeat>").unwrap_err(),
        "1:60: Failed to parse attribute 'count': number too large to fit in target type"
    );
    assert_eq!(
        action("<play priority=\"-2147483649\">a</play>").unwrap_err(),
        "1:60: Failed to parse attribute 'priority': number too small to fit in target type"
    );
    assert_eq!(
        action("<play timeout=\"soon\">a</play>").unwrap_err(),
        "invalid float literal"
    );
    assert_eq!(
        action("<play timeout=\"5d\">a</play>").unwrap_err(),
        "Unknown time unit 'd'"
    );
    assert_eq!(
        action("<wait>5</wait>").unwrap_err(),
        "cannot parse float from empty string"
    );
    assert_eq!(action("<wait></wait>").unwrap_err(), "Empty duration");
    assert_eq!(
        action("<wait_alarm count=\"some\">F</wait_alarm>").unwrap_err(),
        "1:60: Failed to parse attribute 'count': Must be one of 'none', 'any', 'inc' or 'dec'"
    );
    assert_eq!(
        action("<wait_alarm>F</wait_alarm>").unwrap_err(),
        "1:60: Missing attribute 'count'"
    );
    assert_eq!(
        action("<set_tag>1</set_tag>").unwrap_err(),
        "1:60: Missing attribute 'tag'"
    );
    assert_eq!(
        action("<ignore_alarms permanent=\"yes\">F</ignore_alarms>").unwrap_err(),
        "1:60: Failed to parse attribute 'permanent': provided string was not `true` or `false`"
    );
    assert_eq!(
        action("<shout>F</shout>").unwrap_err(),
        "1:60: Unexpected element"
    );
    assert_eq!(
        action("<sequence><debug>a</debug>b</sequence>").unwrap_err(),
        "1:86: Unexpected non-whitespace text"
    );
}

#[test]
fn a_wait_for_a_tag_has_exactly_one_condition() {
    let exclusive = "1:60: Exactly one of the attributes 'eq', 'ne', 'lt', 'le', 'gt', 'ge', 'eq_str', 'ne_str' is required";
    assert_eq!(action("<wait_tag>T</wait_tag>").unwrap_err(), exclusive);
    assert_eq!(
        action("<wait_tag eq=\"1\" changed=\"\">T</wait_tag>").unwrap_err(),
        exclusive
    );
    assert_eq!(
        action("<wait_tag lt=\"1\" ge=\"1\">T</wait_tag>").unwrap_err(),
        exclusive
    );
    // The attributes are looked at in their order: the number that cannot
    // be read comes before the second condition.
    assert_eq!(
        action("<wait_tag lt=\"x\" ge=\"1\">T</wait_tag>").unwrap_err(),
        "1:60: Failed to parse attribute 'lt': invalid float literal"
    );
    assert_eq!(
        action("<wait_tag ne_str=\"a\">T</wait_tag>").unwrap_err(),
        exclusive
    );
    let table: [(&str, fn(&TagCondition) -> bool); 6] = [
        ("eq", |c| matches!(c, TagCondition::EqualNumber(_))),
        ("ne", |c| matches!(c, TagCondition::NotEqualNumber(_))),
        ("lt", |c| matches!(c, TagCondition::Less(_))),
        ("le", |c| matches!(c, TagCondition::LessEqual(_))),
        ("gt", |c| matches!(c, TagCondition::Greater(_))),
        ("ge", |c| matches!(c, TagCondition::GreaterEqual(_))),
    ];
    for (name, is_kind) in table {
        match action(&format!("<wait_tag {}=\"-2.5\">T</wait_tag>", name)) {
            Ok(ActionType::WaitTag {
                tag_name,
                condition,
            }) => {
                assert_eq!(tag_name, "T");
                assert!(is_kind(&condition), "{}: {:?}", name, condition);
                assert_eq!(condition.limit().map(f64::from_bits), Some(-2.5));
            }
            other => panic!("{:?}", other),
        }
    }
    assert!(matches!(
        action("<wait_tag eq_str=\"on\">T</wait_tag>"),
        Ok(ActionType::WaitTag { condition: TagCondition::EqualString(s), .. }) if s == "on"
    ));
    assert!(matches!(
        action("<wait_tag changed=\"\">T</wait_tag>"),
        Ok(ActionType::WaitTag {
            condition: TagCondition::Changed,
            ..
        })
    ));
}

#[test]
fn the_reader_asks_for_the_numbers_it_needs() {
    let root = tree(&format!(
        "<state xmlns=\"{}\"><wait_tag gt=\"0.5\">T</wait_tag></state>",
        NS
    ));
    let node = &root.children[0];
    let mut numbers = Numbers::new();
    match parse_action(node, &numbers) {
        Err(Stop::Ask(q)) => {
            assert_eq!(q.kind, NumberKind::Double);
            assert_eq!(q.text, "0.5");
        }
        other => panic!("{:?}", other),
    }
    // An answer to another question does not help.
    numbers.answer(NumberKind::Single, "0.5", Ok(1));
    numbers.answer(NumberKind::Double, "0.50", Ok(2));
    assert!(matches!(parse_action(node, &numbers), Err(Stop::Ask(_))));
    numbers.answer(NumberKind::Double, "0.5", Ok(77));
    numbers.answer(NumberKind::Double, "0.5", Ok(78));
    assert!(matches!(
        parse_action(node, &numbers),
        Ok(ActionType::WaitTag {
            condition: TagCondition::Greater(77),
            ..
        })
    ));
    let mut refusing = Numbers::new();
    refusing.answer(NumberKind::Double, "0.5", Err("no number".to_string()));
    match parse_action(node, &refusing) {
        Err(Stop::Fail(ReadError::Config(e))) => {
            assert!(matches!(
                &e.kind,
                ConfigErrorKind::ParseAttribute(n, m) if n == "gt" && m == "no number"
            ));
            assert_eq!(e.pos, node.pos);
        }
        other => panic!("{:?}", other),
    }
}

#[test]
fn a_tree_written_by_hand() {
    let text = |t: &str| XmlNode {
        kind: NodeKind::Text,
        namespace: None,
        name: String::new(),
        attributes: Vec::new(),
        text: t.to_string(),
        children: Vec::new(),
        pos: TextPos { row: 2, col: 9 },
    };
    let comment = XmlNode {
        kind: NodeKind::Other,
        namespace: None,
        name: String::new(),
        attributes: Vec::new(),
        text: String::new(),
        children: Vec::new(),
        pos: TextPos { row: 2, col: 12 },
    };
    let node = XmlNode {
        kind: NodeKind::Element,
        namespace: Some(NS.to_string()),
        name: "set_tag".to_string(),
        attributes: vec![
            Attribute {
                namespace: Some("urn:other".to_string()),
                name: "tag".to_string(),
                value: "Wrong".to_string(),
            },
            Attribute {
                namespace: None,
                name: "tag".to_string(),
                value: "Out".to_string(),
            },
            Attribute {
                namespace: None,
                name: "tag".to_string(),
                value: "Late".to_string(),
            },
        ],
        text: String::new(),
        children: vec![text("on"), comment, text(" and on")],
        pos: TextPos { row: 2, col: 1 },
    };
    assert_eq!(node.attribute("tag"), Some(&"Out".to_string()));
    assert_eq!(node.attribute("Tag"), None);
    assert_eq!(text_content(&node).unwrap(), "on and on");
    assert!(matches!(check_element_ns(&node), Ok(true)));
    assert!(matches!(check_element_ns(&text(" \n\t")), Ok(false)));
    assert!(matches!(check_element_ns(&text(" x ")), Err(_)));
    match parse_action(&node, &Numbers::new()) {
        Ok(ActionType::SetTag { tag_name, value }) => {
            assert_eq!(tag_name, "Out");
            assert_eq!(value, "on and on");
        }
        other => panic!("{:?}", other),
    }
}

#[test]
fn whole_numbers_are_read_as_the_language_reads_them() {
    let texts = [
        "", "+", "-", "0", "-0", "+0", "00012", "255", "256", "-1", "+255", "2147483647",
        "2147483648", "-2147483648", "-2147483649", "4294967295", "4294967296", "12a", "a12",
        "99999999999999999999x", "x99999999999999999999", "-99999999999999999999x", "1 ", " 1",
        "--1", "+-1", "1_000", "١٢", "1e3", "-",
    ];
    for t in texts {
        let as_i32 = parse_int(t, i64::from(i32::MIN), i64::from(i32::MAX));
        match t.parse::<i32>() {
            Ok(v) => assert_eq!(as_i32, Ok(i64::from(v)), "i32 of {:?}", t),
            Err(e) => assert_eq!(
                as_i32.map_err(|k| k.to_string()),
                Err(e.to_string()),
                "i32 of {:?}",
                t
            ),
        }
        let as_u32 = parse_int(t, 0, i64::from(u32::MAX));
        match t.parse::<u32>() {
            Ok(v) => assert_eq!(as_u32, Ok(i64::from(v)), "u32 of {:?}", t),
            Err(e) => assert_eq!(
                as_u32.map_err(|k| k.to_string()),
                Err(e.to_string()),
                "u32 of {:?}",
                t
            ),
        }
        let as_u8 = parse_int(t, 0, 255);
        match t.parse::<u8>() {
            Ok(v) => assert_eq!(as_u8, Ok(i64::from(v)), "u8 of {:?}", t),
            Err(e) => assert_eq!(
                as_u8.map_err(|k| k.to_string()),
                Err(e.to_string()),
                "u8 of {:?}",
                t
            ),
        }
    }
    assert_eq!(
        IntErrorKind::Zero.to_string(),
        "0".parse::<std::num::NonZeroU32>().unwrap_err().to_string()
    );
    assert_eq!(parse_bool("true"), Some(true));
    assert_eq!(parse_bool("false"), Some(false));
    assert_eq!(parse_bool("True"), None);
    assert_eq!(parse_bool(""), None);
}

#[test]
fn white_space_is_what_the_language_takes_for_it() {
    for n in 0..=0x10ffffu32 {
        if let Some(c) = char::from_u32(n) {
            assert_eq!(whitespace(c), c.is_whitespace(), "U+{:04X}", n);
        }
    }
    let texts = [
        "",
        " ",
        "a",
        "  a b  ",
        "\t\r\n x",
        "x \u{a0}\u{2003}",
        "\u{3000}\u{1680}",
        "\u{feff}a\u{feff}",
        " \u{200b} ",
    ];
    for t in texts {
        assert_eq!(trim(t), t.trim(), "{:?}", t);
        assert_eq!(blank(t), t.trim().is_empty(), "{:?}", t);
    }
}

#[test]
fn configuration_errors_as_text() {
    let at = TextPos { row: 12, col: 7 };
    let text = |kind: ConfigErrorKind| ConfigError { kind, pos: at }.to_string();
    assert_eq!(
        text(ConfigErrorKind::WrongNamespace),
        "12:7: Incorrect namespace for element"
    );
    assert_eq!(
        text(ConfigErrorKind::UnexpectedAttribute),
        "12:7: Unexpected attribute"
    );
    assert_eq!(
        text(ConfigErrorKind::MissingAttribute("id".to_string())),
        "12:7: Missing attribute 'id'"
    );
    assert_eq!(
        text(ConfigErrorKind::ParseFilter("bad".to_string())),
        "12:7: Failed to parse alarm filter: bad"
    );
    assert_eq!(
        ReadError::Message("plain".to_string()).to_string(),
        "plain"
    );
}
