use mtp_audioplayer::alarm_filter::AlarmState;
use mtp_audioplayer::id_set::IdSet;
use mtp_audioplayer::name_set::{position, NameSet};
use mtp_audioplayer::open_pipe::connection::MessageVariant;
use mtp_audioplayer::open_pipe::tag_server::TagServer;
use mtp_audioplayer::text::{
    char_at, chars_to_string, i64_to_string, parse_i32, parse_u32, push_decimal, read_digits,
    same_str, str_to_chars, u64_to_string,
};
use std::str::FromStr;

#[test]
fn numbers_as_decimal_text() {
    assert_eq!(u64_to_string(0), "0");
    assert_eq!(u64_to_string(7), "7");
    assert_eq!(u64_to_string(1234567890), "1234567890");
    assert_eq!(u64_to_string(u64::MAX), "18446744073709551615");
    assert_eq!(i64_to_string(0), "0");
    assert_eq!(i64_to_string(-1), "-1");
    assert_eq!(i64_to_string(i64::MAX), "9223372036854775807");
    assert_eq!(i64_to_string(i64::MIN), "-9223372036854775808");
    let mut out = vec!['x'];
    push_decimal(405, &mut out);
    assert_eq!(out, vec!['x', '4', '0', '5']);
}

#[test]
fn decimal_text_as_numbers() {
    assert_eq!(parse_i32("0"), Some(0));
    assert_eq!(parse_i32("007"), Some(7));
    assert_eq!(parse_i32("-12"), Some(-12));
    assert_eq!(parse_i32("+12"), Some(12));
    assert_eq!(parse_i32("2147483647"), Some(i32::MAX));
    assert_eq!(parse_i32("2147483648"), None);
    assert_eq!(parse_i32("-2147483648"), Some(i32::MIN));
    assert_eq!(parse_i32("-2147483649"), None);
    assert_eq!(parse_i32(""), None);
    assert_eq!(parse_i32("-"), None);
    assert_eq!(parse_i32("+"), None);
    assert_eq!(parse_i32(" 1"), None);
    assert_eq!(parse_i32("1 "), None);
    assert_eq!(parse_i32("1.0"), None);
    assert_eq!(parse_i32("12a"), None);
    assert_eq!(parse_i32("99999999999999999999999"), None);
    assert_eq!(parse_u32("0"), Some(0));
    assert_eq!(parse_u32("+5"), Some(5));
    assert_eq!(parse_u32("4294967295"), Some(u32::MAX));
    assert_eq!(parse_u32("4294967296"), None);
    assert_eq!(parse_u32("-1"), None);
    assert_eq!(parse_u32("-0"), None);
    assert_eq!(parse_u32(""), None);
}

#[test]
fn the_numbers_are_read_as_the_language_reads_them() {
    let texts = [
        "0", "-0", "+0", "17", "-17", "+17", "0000", "2147483647", "2147483648", "-2147483648",
        "-2147483649", "", "+", "-", "1e3", "0x10", "١٢", "4294967295", "4294967296", "--1",
        "+-1", "1_000",
    ];
    for t in texts {
        assert_eq!(parse_i32(t), t.parse::<i32>().ok(), "i32 of {:?}", t);
        assert_eq!(parse_u32(t), t.parse::<u32>().ok(), "u32 of {:?}", t);
    }
    for n in [0i64, 1, -1, 10, -10, 99, 100, i64::MIN, i64::MAX] {
        assert_eq!(i64_to_string(n), n.to_string());
    }
}

#[test]
fn digits_are_read_up_to_a_limit() {
    let v = str_to_chars("ab1234cd");
    assert_eq!(read_digits(&v, 2, 6, 10_000), Some(1234));
    assert_eq!(read_digits(&v, 2, 6, 1234), Some(1234));
    assert_eq!(read_digits(&v, 2, 6, 1233), None);
    assert_eq!(read_digits(&v, 2, 2, 10), Some(0));
    assert_eq!(read_digits(&v, 1, 6, 10_000), None);
    assert_eq!(read_digits(&v, 2, 7, 10_000), None);
}

#[test]
fn texts_and_their_characters() {
    let v = str_to_chars("h\u{e9}llo");
    assert_eq!(v, vec!['h', '\u{e9}', 'l', 'l', 'o']);
    assert_eq!(char_at(&v, 1), '\u{e9}');
    assert_eq!(chars_to_string(&v, 1, 4), "\u{e9}ll");
    assert_eq!(chars_to_string(&v, 2, 2), "");
    assert_eq!(chars_to_string(&v, 0, 5), "h\u{e9}llo");
    assert!(same_str("abc", "abc"));
    assert!(!same_str("abc", "abd"));
    assert!(!same_str("abc", "ab"));
    assert!(same_str("", ""));
}

#[test]
fn state_names_are_read_in_any_letter_case() {
    assert_eq!(AlarmState::from_str("NORMAL").unwrap(), AlarmState::Normal);
    assert_eq!(
        AlarmState::from_str("IN,ACK").unwrap(),
        AlarmState::RaisedAcknowledged
    );
    assert_eq!(
        AlarmState::from_str("Incoming OUTGOING").unwrap(),
        AlarmState::RaisedCleared
    );
    // The Kelvin sign is a capital letter whose small letter is `k`.
    assert_eq!(
        AlarmState::from_str("in,ac\u{212a}").unwrap(),
        AlarmState::RaisedAcknowledged
    );
    let err = AlarmState::from_str("\u{c4}NDERUNG").unwrap_err();
    assert_eq!(
        err.to_string(),
        "String \"\u{c4}NDERUNG\" is not a valid alarm state"
    );
}

#[test]
fn id_sets() {
    let mut a = IdSet::new();
    assert_eq!(a.len(), 0);
    assert!(a.insert(3));
    assert!(a.insert(-1));
    assert!(!a.insert(3));
    assert!(a.insert(i32::MIN));
    assert_eq!(a.len(), 3);
    assert!(a.contains(-1));
    assert!(!a.contains(0));
    let mut b = a.duplicate();
    assert!(b.remove(3));
    assert!(!b.remove(3));
    assert!(b.insert(8));
    assert_eq!(b.len(), 3);
    assert_eq!(a.len(), 3);
    assert_eq!(a.difference_len(&b), 1);
    assert_eq!(b.difference_len(&a), 1);
    assert_eq!(a.difference_len(&a), 0);
    assert_eq!(a.difference_len(&IdSet::new()), 3);
}

#[test]
fn name_sets() {
    let mut s = NameSet::new();
    assert!(s.is_empty());
    assert!(s.insert("b"));
    assert!(s.insert("a"));
    assert!(!s.insert("b"));
    assert_eq!(s.len(), 2);
    assert!(!s.is_empty());
    assert!(s.contains("a"));
    assert!(!s.contains("c"));
    assert_eq!(s.get(0), "b");
    assert_eq!(s.get(1), "a");
    let names = vec!["x".to_string(), "y".to_string(), "x".to_string()];
    assert_eq!(position(&names, "x"), Some(0));
    assert_eq!(position(&names, "y"), Some(1));
    assert_eq!(position(&names, "z"), None);
}

#[test]
fn notifications_carry_the_current_time() {
    let mut server = TagServer::new(false);
    let mut notifications = NameSet::new();
    server.set_tag_value("Tag0", "0", &mut notifications);
    let reply = server.subscribe(&vec!["Tag0".to_string()], "c");
    match &reply.message {
        MessageVariant::NotifySubscribeTag(p) => {
            let stamp = &p.params.tags[0].time_stamp;
            let time = chrono::DateTime::parse_from_rfc3339(stamp).unwrap();
            assert!(time.timestamp() > 1_577_836_800);
        }
        other => panic!("{:?}", other),
    }
}

#[test]
fn a_state_is_parsed_from_its_text() {
    assert_eq!("NORMAL".parse::<AlarmState>().unwrap(), AlarmState::Normal);
    assert_eq!(
        "in ack".parse::<AlarmState>().unwrap(),
        AlarmState::RaisedAcknowledged
    );
    assert_eq!("6".parse::<AlarmState>().unwrap(), AlarmState::from_str("6").unwrap());
    let err = "loud".parse::<AlarmState>().unwrap_err();
    assert_eq!(err.to_string(), "String \"loud\" is not a valid alarm state");
    let err = <AlarmState as FromStr>::from_str("4711").unwrap_err();
    assert_eq!(err.to_string(), "Integer 4711 is not a valid alarm state");
}
