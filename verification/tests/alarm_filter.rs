use mtp_audioplayer::alarm_filter::parser::{int_criterion, state_criterion, string_criterion};
use mtp_audioplayer::alarm_filter::{
    parse_filter, AlarmState, BoolOp, ErrorKind, FilterError, FilterErrorKind, IntCriterion,
    StringCriterion,
};
use mtp_audioplayer::open_pipe::alarm_data::AlarmData;
use mtp_audioplayer::open_pipe::connection::NotifyAlarm;

#[test]
fn test_criterion_parser() {
    assert_eq!(
        string_criterion("Name!='djkss'").unwrap().1.to_string(),
        "NOT (Name = 'djkss')"
    );
    assert_eq!(
        string_criterion("AlarmClassName = 'djkss'")
            .unwrap()
            .1
            .to_string(),
        "AlarmClassName = 'djkss'"
    );
    assert_eq!(
        int_criterion("Priority!=45").unwrap().1.to_string(),
        "NOT (Priority = 45)"
    );
    assert_eq!(
        state_criterion("State = 2").unwrap().1.to_string(),
        "State = 'RaisedCleared'"
    );
    assert_eq!(
        int_criterion("Priority< 6").unwrap().1.to_string(),
        "Priority < 6"
    );
    assert_eq!(
        int_criterion("Priority<= 6").unwrap().1.to_string(),
        "Priority <= 6"
    );
    assert_eq!(
        int_criterion("Priority  > 9").unwrap().1.to_string(),
        "NOT (Priority <= 9)"
    );
    assert_eq!(
        int_criterion("Priority >= 6").unwrap().1.to_string(),
        "NOT (Priority < 6)"
    );
}

#[test]
fn test_filter_parser() {
    assert_eq!(
        parse_filter("AlarmClassName = 'adjk' AND Priority < 8")
            .unwrap()
            .to_string(),
        "(AlarmClassName = 'adjk') AND (Priority < 8)"
    );
    assert_eq!(
        parse_filter("AlarmClassName = 'ad' AND State = 8 OR State = 5")
            .unwrap()
            .to_string(),
        "((AlarmClassName = 'ad') AND (State = 'Removed')) OR (State = 'RaisedAcknowledged')"
    );
    assert_eq!(
        parse_filter("AlarmClassName = 'ad' AND (State = 8 OR State = 'norMAL')")
            .unwrap()
            .to_string(),
        "(AlarmClassName = 'ad') AND ((State = 'Removed') OR (State = 'Normal'))"
    );
    assert_eq!(
        parse_filter("AlarmClassName = 'ad' OR NOT State = 'RaisedClearedAcknowledged' AND State = 'RaisedAcknowledgedCleared'")
            .unwrap()
            .to_string(),
        "(AlarmClassName = 'ad') OR ((NOT (State = 'RaisedClearedAcknowledged')) AND (State = 'RaisedAcknowledgedCleared'))"
    );
}

#[test]
fn test_alarm_state() {
    assert_eq!(AlarmState::from_str("NOrmal"), Ok(AlarmState::Normal));
    assert_eq!(
        AlarmState::from_str("in,ack"),
        Ok(AlarmState::RaisedAcknowledged)
    );
    assert_eq!(
        AlarmState::from_str("in,ack,out"),
        Ok(AlarmState::RaisedAcknowledgedCleared)
    );
    assert_eq!(
        AlarmState::from_str("incoming outgoing acknowledged"),
        Ok(AlarmState::RaisedClearedAcknowledged)
    );
    assert_eq!(AlarmState::from_str("REMOVED"), Ok(AlarmState::Removed));
    assert_eq!(
        AlarmState::from_str("7"),
        Ok(AlarmState::RaisedClearedAcknowledged)
    );
    assert_eq!(AlarmState::from_str("1").map(|s| s.as_str()), Ok("Raised"));
    assert_eq!(
        AlarmState::from_str("normal").map(|s| s.as_str()),
        Ok("Normal")
    );
    assert_eq!(
        AlarmState::from_str("raisedcleared").map(|s| s.as_str()),
        Ok("RaisedCleared")
    );
    assert_eq!(
        AlarmState::from_str("incoming,acknowledged").map(|s| s.as_str()),
        Ok("RaisedAcknowledged")
    );
    assert_eq!(
        AlarmState::from_str("in,out ack").map(|s| s.as_str()),
        Ok("RaisedClearedAcknowledged")
    );
    assert_eq!(
        AlarmState::from_str("in/ack/out").map(|s| s.as_str()),
        Ok("RaisedAcknowledgedCleared")
    );
    assert_eq!(AlarmState::from_str("8").map(|s| s.as_str()), Ok("Removed"));
}

#[test]
fn test_filter_parser_failure() {
    let res = parse_filter("AlarmClassName = 'ad' OR ");
    match &res {
        Err(FilterError {
            input,
            kind: FilterErrorKind::Nom(ErrorKind::Eof),
        }) if input == " OR " => {}
        _ => panic!("Unexpected result: {:?}", res),
    }

    let res = parse_filter("AlarmClassName + 8");
    match &res {
        Err(FilterError {
            input,
            kind: FilterErrorKind::Nom(ErrorKind::Tag),
        }) if input == "+ 8" => {}
        _ => panic!("Unexpected result: {:?}", res),
    }
}

#[test]
fn alarm_state_errors_name_the_input() {
    let err = AlarmState::from_str("3").unwrap_err();
    assert_eq!(err.to_string(), "Integer 3 is not a valid alarm state");
    let err = AlarmState::from_str("out,in").unwrap_err();
    assert_eq!(err.to_string(), "String \"out,in\" is not a valid alarm state");
    let err = AlarmState::from_str("in,outgoing").unwrap_err();
    assert_eq!(
        err.to_string(),
        "String \"in,outgoing\" is not a valid alarm state"
    );
    assert!(AlarmState::from_str("").is_err());
    assert!(AlarmState::from_str("4294967296").is_err());
}

#[test]
fn alarm_state_round_trips_through_its_name() {
    let all = [
        AlarmState::Normal,
        AlarmState::Raised,
        AlarmState::RaisedCleared,
        AlarmState::RaisedAcknowledged,
        AlarmState::RaisedAcknowledgedCleared,
        AlarmState::RaisedClearedAcknowledged,
        AlarmState::Removed,
    ];
    for state in all {
        assert_eq!(AlarmState::from_str(state.as_str()), Ok(state));
        assert_eq!(AlarmState::from_code(state.code()), Some(state));
    }
    assert_eq!(AlarmState::from_code(3), None);
    assert_eq!(AlarmState::from_code(128), None);
}

#[test]
fn filter_round_trips_through_its_text() {
    let texts = [
        "Priority = -5",
        "NOT (ID <= 2147483647)",
        "(InstanceID < -2147483648) OR ((Name = 'a b') AND (State = 'Removed'))",
        "((Priority = 1) AND (Priority = 2)) AND (Priority = 3)",
    ];
    for text in texts {
        let op = parse_filter(text).unwrap();
        assert_eq!(op.to_string(), text);
    }
}

#[test]
fn comparison_signs_are_normalised() {
    assert_eq!(
        parse_filter("Priority>7").unwrap().to_string(),
        "NOT (Priority <= 7)"
    );
    assert_eq!(
        parse_filter("Priority>=7").unwrap().to_string(),
        "NOT (Priority < 7)"
    );
    assert_eq!(
        parse_filter("State!='in/out'").unwrap().to_string(),
        "NOT (State = 'RaisedCleared')"
    );
    assert_eq!(
        parse_filter("Name = 'it''s'").unwrap().to_string(),
        "Name = 'it''s'"
    );
}

#[test]
fn a_quote_in_a_text_is_written_twice_and_read_back() {
    for text in [
        "Name = ''''",
        "Name = ''",
        "Name='''a'",
        "AlarmClassName != 'a''''b'''",
        "NOT (Name = 'it''s') AND AlarmClassName = 'x''' OR Name = '''y'",
    ] {
        let first = parse_filter(text).unwrap();
        let written = first.to_string();
        let second = parse_filter(&written).unwrap();
        assert_eq!(second.to_string(), written, "{}", text);
        assert_eq!(format!("{:?}", second), format!("{:?}", first), "{}", text);
    }
    match parse_filter("Name = ''''").unwrap() {
        BoolOp::StringEqual(_, v) => assert_eq!(v, "'"),
        other => panic!("{:?}", other),
    }
    assert_eq!(
        parse_filter("Name = ''''").unwrap().to_string(),
        "Name = ''''"
    );
    let built = BoolOp::StringEqual(StringCriterion::AlarmName, "a'b''".to_string());
    assert_eq!(built.to_string(), "Name = 'a''b'''''");
    match parse_filter(&built.to_string()).unwrap() {
        BoolOp::StringEqual(_, v) => assert_eq!(v, "a'b''"),
        other => panic!("{:?}", other),
    }
}

#[test]
fn repeated_operators_nest_to_the_right_of_the_first_operand() {
    match parse_filter("ID=1 OR ID=2 OR ID=3 OR ID=4").unwrap() {
        BoolOp::Or(first, rest) => {
            assert!(matches!(*first, BoolOp::IntEqual(IntCriterion::Id, 1)));
            assert_eq!(rest.to_string(), "((ID = 2) OR (ID = 3)) OR (ID = 4)");
        }
        other => panic!("Unexpected result: {:?}", other),
    }
}

#[test]
fn parse_errors_tell_position_and_kind() {
    let err = parse_filter("Colour = 'red'").unwrap_err();
    assert_eq!(err.input, "");
    assert!(matches!(&err.kind, FilterErrorKind::InvalidCriterionName(n) if n == "Colour"));
    assert_eq!(
        err.to_string(),
        "Name of filter criterion not recognized: Colour"
    );

    let err = parse_filter("State = 3").unwrap_err();
    assert_eq!(err.input, "");
    assert!(matches!(&err.kind, FilterErrorKind::Error(_)));
    assert_eq!(err.to_string(), "Integer 3 is not a valid alarm state");

    let err = parse_filter("Priority = 2147483648").unwrap_err();
    assert_eq!(err.input, "2147483648");
    assert!(matches!(err.kind, FilterErrorKind::Nom(ErrorKind::Char)));
    assert_eq!(err.to_string(), "Char");

    let err = parse_filter("(ID = 1").unwrap_err();
    assert!(matches!(err.kind, FilterErrorKind::Nom(ErrorKind::Alpha)));
    assert_eq!(err.input, "(ID = 1");

    let err = parse_filter("ID = 1 ").unwrap_err();
    assert!(matches!(err.kind, FilterErrorKind::Nom(ErrorKind::Eof)));
    assert_eq!(err.input, " ");

    let err = parse_filter("").unwrap_err();
    assert!(matches!(err.kind, FilterErrorKind::Nom(ErrorKind::Alpha)));
}

#[test]
fn criterion_names() {
    assert_eq!(StringCriterion::AlarmClassName.as_str(), "AlarmClassName");
    assert_eq!(StringCriterion::AlarmName.as_str(), "Name");
    assert_eq!(IntCriterion::Id.as_str(), "ID");
    assert_eq!(IntCriterion::InstanceId.as_str(), "InstanceID");
    assert_eq!(IntCriterion::Priority.as_str(), "Priority");
    assert_eq!(IntCriterion::AlarmState.as_str(), "State");
}

fn warning_alarm() -> NotifyAlarm {
    NotifyAlarm {
        name: "Foo".to_string(),
        id: "0".to_string(),
        alarm_class_name: "Warning".to_string(),
        alarm_class_symbol: "W".to_string(),
        event_text: "This is a warning".to_string(),
        instance_id: "52".to_string(),
        priority: "7".to_string(),
        state: "1".to_string(),
        state_text: "Incoming".to_string(),
        state_machine: "7".to_string(),
        modification_time: "019-01-30 11:25:39.9780320".to_string(),
    }
}

#[test]
fn test_filter_evaluate() {
    let alarm_data = AlarmData::from_notify(warning_alarm());

    let filter_text = "Name='Foo' AND ID=0 AND InstanceID=52 AND AlarmClassName ='Warning' AND Priority=7 AND State=1";
    let filter = parse_filter(filter_text).unwrap();
    assert_eq!(filter.evaluate(&alarm_data), true);
}

#[test]
fn filter_evaluates_each_operator() {
    let alarm = AlarmData::from_notify(warning_alarm());
    let cases = [
        ("Priority < 8", true),
        ("Priority < 7", false),
        ("Priority <= 7", true),
        ("Priority > 7", false),
        ("Priority >= 7", true),
        ("Priority != 7", false),
        ("ID = 0 OR ID = 1", true),
        ("NOT ID = 0", false),
        ("(ID = 1 OR ID = 0) AND Name != 'Bar'", true),
        ("State = 'in'", true),
        ("State = 'Raised'", true),
        ("State != 'incoming'", false),
        ("State = 'in/out'", false),
        ("AlarmClassName = 'warning'", false),
        ("InstanceID = 52 AND Name = 'Foo'", true),
    ];
    for (text, expected) in cases {
        let filter = parse_filter(text).unwrap();
        assert_eq!(filter.evaluate(&alarm), expected, "{}", text);
    }
}
