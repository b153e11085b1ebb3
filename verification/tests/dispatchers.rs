use mtp_audioplayer::actions::alarm_dispatcher::{self, AlarmDispatcher};
use mtp_audioplayer::actions::alarm_functions::AlarmFunctions;
use mtp_audioplayer::actions::tag_dispatcher::{self, TagDispatcher};
use mtp_audioplayer::actions::tag_setter::TagSetter;
use mtp_audioplayer::alarm_filter::parse_filter;
use mtp_audioplayer::app_config::{AlarmContext, AlarmFilterState, TagContext};
use mtp_audioplayer::open_pipe::alarm_data::{AlarmData, Timestamp};

fn alarm(id: i32, class: &str, priority: i32) -> AlarmData {
    AlarmData {
        name: format!("alarm{}", id),
        id,
        alarm_class_name: class.to_string(),
        alarm_class_symbol: "S".to_string(),
        event_text: "text".to_string(),
        instance_id: 1,
        priority,
        state: 1,
        state_text: "Incoming".to_string(),
        state_machine: 7,
        modification_time: Timestamp { secs: 0, nanos: 0 },
    }
}

fn with_state(mut a: AlarmData, state: i32) -> AlarmData {
    a.state = state;
    a
}

#[test]
fn a_waiter_sees_only_changes_after_it_was_armed() {
    let mut tags = TagContext::new();
    tags.add_tag("T", None);
    tags.tag_changed("T", "before");
    let (value, wait) = tags.wait_value("T").unwrap();
    assert_eq!(value, Some("before".to_string()));
    assert_eq!(tags.poll_wait(&wait).unwrap(), None);
    tags.tag_changed("T", "after");
    assert_eq!(tags.poll_wait(&wait).unwrap(), Some("after".to_string()));
    // A waiter armed now has to wait for the next change.
    let (value, late) = tags.wait_value("T").unwrap();
    assert_eq!(value, Some("after".to_string()));
    assert_eq!(tags.poll_wait(&late).unwrap(), None);
    assert_eq!(
        tags.poll_version("T", wait.version).unwrap(),
        Some("after".to_string())
    );
}

#[test]
fn a_change_of_another_tag_wakes_nobody() {
    let mut tags = TagContext::new();
    tags.add_tag("T", Some("1".to_string()));
    tags.add_tag("U", Some("1".to_string()));
    let (_, wait) = tags.wait_value("T").unwrap();
    tags.tag_changed("U", "2");
    assert_eq!(tags.poll_wait(&wait).unwrap(), None);
    tags.tag_changed("V", "2");
    assert_eq!(tags.poll_wait(&wait).unwrap(), None);
    assert!(!tags.has_tag("V"));
}

#[test]
fn a_change_to_the_same_value_wakes_the_waiters() {
    let mut tags = TagContext::new();
    tags.add_tag("T", Some("1".to_string()));
    let (_, wait) = tags.wait_value("T").unwrap();
    tags.tag_changed("T", "1");
    assert_eq!(tags.poll_wait(&wait).unwrap(), Some("1".to_string()));
}

#[test]
fn tags_are_registered_once() {
    let mut tags = TagContext::new();
    assert!(tags.tag_names().is_empty());
    tags.add_tag("A", Some("1".to_string()));
    tags.add_tag("B", None);
    tags.add_tag("A", Some("2".to_string()));
    assert_eq!(tags.tag_names(), vec!["A".to_string(), "B".to_string()]);
    assert_eq!(tags.get_value("A"), Some("1".to_string()));
    assert_eq!(tags.get_value("B"), None);
    assert_eq!(tags.get_value("C"), None);
    assert!(tags.has_tag("B"));
    assert!(matches!(
        tags.wait_value("C"),
        Err(tag_dispatcher::Error::TagNotFound)
    ));
    assert!(matches!(
        tags.poll_version("C", 0),
        Err(tag_dispatcher::Error::TagNotFound)
    ));
}

#[test]
fn set_tag_changes_the_value_and_queues_the_write() {
    let mut tags = TagContext::new();
    tags.add_tag("Out", None);
    let (_, wait) = tags.wait_value("Out").unwrap();
    tags.set_tag("Out", "5");
    assert_eq!(tags.get_value("Out"), Some("5".to_string()));
    assert_eq!(tags.poll_wait(&wait).unwrap(), Some("5".to_string()));
    tags.set_tag("Other", "6");
    let requests = tags.take_requests();
    assert_eq!(requests.len(), 2);
    assert_eq!(requests[0].tag_name, "Out");
    assert_eq!(requests[0].value, "5");
    assert_eq!(requests[1].tag_name, "Other");
    assert_eq!(requests[1].value, "6");
    assert!(tags.take_requests().is_empty());
}

#[test]
fn a_write_waits_for_its_acknowledgment_or_its_deadline() {
    let mut tags = TagContext::new();
    tags.add_tag("Out", None);
    let first = tags.async_set_tag("Out", "1", 1000);
    let second = tags.async_set_tag("Else", "1", 1200);
    assert_eq!(first.deadline, 1500);
    assert_eq!(second.deadline, 1700);
    assert_ne!(first.ticket, second.ticket);
    assert!(!tags.poll_set_tag(&first, 1499));
    tags.write_acknowledged(&vec!["Else".to_string()]);
    assert!(tags.poll_set_tag(&second, 1201));
    assert!(!tags.poll_set_tag(&first, 1499));
    assert!(tags.poll_set_tag(&first, 1500));
    // The write was given up at its deadline: it is done from then on.
    assert!(tags.poll_set_tag(&first, 0));
}

#[test]
fn a_forgotten_write_is_done() {
    let mut tags = TagContext::new();
    let wait = tags.async_set_tag("Out", "1", 0);
    assert!(!tags.poll_set_tag(&wait, 1));
    tags.forget(wait.ticket);
    assert!(tags.poll_set_tag(&wait, 1));
}

#[test]
fn alarm_filter_scenario() {
    let mut tags = TagContext::new();
    let mut alarms = AlarmContext::new();
    alarms.add_filter(
        "F",
        parse_filter("AlarmClassName='Warning' AND Priority<=7").unwrap(),
        None,
        None,
    );
    alarms.handle_notification(&alarm(1, "Warning", 3), &mut tags);
    alarms.handle_notification(&alarm(2, "Alarm", 3), &mut tags);
    alarms.handle_notification(&alarm(3, "Warning", 9), &mut tags);
    assert_eq!(alarms.get_filter_count("F").unwrap(), 1);
}

#[test]
fn ignore_and_restore_scenario() {
    let mut tags = TagContext::new();
    let mut alarms = AlarmContext::new();
    alarms.add_filter(
        "F",
        parse_filter("AlarmClassName='Warning' AND Priority<=7").unwrap(),
        None,
        None,
    );
    alarms.handle_notification(&alarm(1, "Warning", 3), &mut tags);
    alarms.handle_notification(&alarm(2, "Warning", 4), &mut tags);
    assert_eq!(alarms.get_filter_count("F").unwrap(), 2);
    alarms.ignore_matched_alarms("F", false, &mut tags);
    assert_eq!(alarms.get_filter_count("F").unwrap(), 0);
    alarms.handle_notification(&alarm(2, "Warning", 9), &mut tags);
    assert_eq!(alarms.get_filter_count("F").unwrap(), 0);
    alarms.restore_ignored_alarms("F", &mut tags);
    assert_eq!(alarms.get_filter_count("F").unwrap(), 1);
}

#[test]
fn ignoring_for_good_outlives_the_match() {
    let mut tags = TagContext::new();
    let mut filter = AlarmFilterState::new(
        "F".to_string(),
        parse_filter("Priority <= 7").unwrap(),
        Some("Count".to_string()),
        Some("Ignored".to_string()),
    );
    assert!(filter.handle_notification(&alarm(1, "W", 3), &mut tags));
    assert!(filter.handle_notification(&alarm(2, "W", 3), &mut tags));
    assert!(!filter.handle_notification(&alarm(2, "W", 4), &mut tags));
    filter.ignore_matching(true, &mut tags);
    assert_eq!(filter.count(), 0);
    assert_eq!(filter.matching_count(), 0);
    assert_eq!(tags.get_value("Ignored"), None);
    assert!(filter.handle_notification(&alarm(1, "W", 9), &mut tags));
    assert_eq!(filter.matching_count(), 0);
    // The alarm comes back: it is still ignored.
    assert!(filter.handle_notification(&alarm(1, "W", 3), &mut tags));
    assert_eq!(filter.count(), 0);
    // A new alarm is not ignored.
    assert!(filter.handle_notification(&alarm(3, "W", 3), &mut tags));
    assert_eq!(filter.count(), 1);
    filter.restore(&mut tags);
    assert_eq!(filter.count(), 3);
}

#[test]
fn the_passed_over_state_changes_nothing() {
    let mut tags = TagContext::new();
    let mut filter = AlarmFilterState::new(
        "F".to_string(),
        parse_filter("Priority <= 7").unwrap(),
        None,
        None,
    );
    assert!(!filter.handle_notification(&with_state(alarm(1, "W", 3), 128), &mut tags));
    assert_eq!(filter.count(), 0);
    assert!(filter.handle_notification(&with_state(alarm(1, "W", 3), 1), &mut tags));
    assert!(!filter.handle_notification(&with_state(alarm(1, "W", 9), 128), &mut tags));
    assert_eq!(filter.count(), 1);
}

#[test]
fn the_count_is_the_matching_latest_reports_without_the_ignored() {
    let mut tags = TagContext::new();
    let mut filter = AlarmFilterState::new(
        "F".to_string(),
        parse_filter("Priority < 5").unwrap(),
        None,
        None,
    );
    let reports = [
        (1, 1),
        (2, 9),
        (3, 4),
        (1, 7),
        (2, 2),
        (4, 0),
        (3, 3),
        (5, 5),
        (1, 1),
    ];
    for (id, priority) in reports {
        filter.handle_notification(&alarm(id, "W", priority), &mut tags);
    }
    // Latest per id: 1 -> 1, 2 -> 2, 3 -> 3, 4 -> 0, 5 -> 5.
    assert_eq!(filter.matching_count(), 4);
    assert_eq!(filter.count(), 4);
    filter.ignore_matching(false, &mut tags);
    assert_eq!(filter.count(), 0);
    filter.handle_notification(&alarm(6, "W", 1), &mut tags);
    filter.handle_notification(&alarm(4, "W", 8), &mut tags);
    // Matching: 1, 2, 3, 6; ignored: 1, 2, 3.
    assert_eq!(filter.matching_count(), 1);
    assert_eq!(filter.count(), 1);
}

#[test]
fn the_filter_tells_its_tags() {
    let mut tags = TagContext::new();
    tags.add_tag("Count", None);
    tags.add_tag("Ignored", None);
    let mut alarms = AlarmContext::new();
    alarms.add_filter(
        "F",
        parse_filter("Priority <= 7").unwrap(),
        Some("Count".to_string()),
        Some("Ignored".to_string()),
    );
    alarms.handle_notification(&alarm(1, "W", 3), &mut tags);
    assert_eq!(tags.get_value("Count"), Some("1".to_string()));
    assert_eq!(tags.get_value("Ignored"), Some("0".to_string()));
    alarms.handle_notification(&alarm(2, "W", 3), &mut tags);
    alarms.ignore_matched_alarms("F", false, &mut tags);
    assert_eq!(tags.get_value("Count"), Some("0".to_string()));
    assert_eq!(tags.get_value("Ignored"), Some("2".to_string()));
    let requests = tags.take_requests();
    assert!(requests.len() >= 4);
    assert_eq!(requests.last().unwrap().tag_name, "Ignored");
    assert_eq!(requests.last().unwrap().value, "2");
}

#[test]
fn alarm_waiters_are_woken_by_a_change_of_the_matching_set() {
    let mut tags = TagContext::new();
    let mut alarms = AlarmContext::new();
    alarms.add_filter("F", parse_filter("Priority <= 7").unwrap(), None, None);
    alarms.add_filter("G", parse_filter("Priority > 7").unwrap(), None, None);
    assert!(alarms.has_filter("F"));
    assert!(!alarms.has_filter("H"));
    let (count, wait_f) = alarms.wait_alarm_filter("F").unwrap();
    assert_eq!(count, 0);
    let (_, wait_g) = alarms.wait_alarm_filter("G").unwrap();
    assert_eq!(alarms.poll_wait(&wait_f).unwrap(), None);
    alarms.handle_notification(&alarm(1, "W", 3), &mut tags);
    assert_eq!(alarms.poll_wait(&wait_f).unwrap(), Some(1));
    assert_eq!(alarms.poll_wait(&wait_g).unwrap(), None);
    assert_eq!(alarms.poll_version("F", wait_f.version).unwrap(), Some(1));
    alarms.handle_notification(&alarm(1, "W", 8), &mut tags);
    assert_eq!(alarms.poll_wait(&wait_g).unwrap(), Some(1));
    assert_eq!(alarms.get_filter_count("F").unwrap(), 0);
    assert_eq!(alarms.get_filter_count("G").unwrap(), 1);
}

#[test]
fn unknown_filters_are_errors_for_waiters_only() {
    let mut tags = TagContext::new();
    let mut alarms = AlarmContext::new();
    assert!(matches!(
        alarms.get_filter_count("F"),
        Err(alarm_dispatcher::Error::AlarmFilterNotFound)
    ));
    assert!(matches!(
        alarms.wait_alarm_filter("F"),
        Err(alarm_dispatcher::Error::AlarmFilterNotFound)
    ));
    assert!(matches!(
        alarms.poll_version("F", 0),
        Err(alarm_dispatcher::Error::AlarmFilterNotFound)
    ));
    alarms.ignore_matched_alarms("F", true, &mut tags);
    alarms.restore_ignored_alarms("F", &mut tags);
    alarms.handle_notification(&alarm(1, "W", 3), &mut tags);
    assert!(tags.take_requests().is_empty());
}

#[test]
fn dispatcher_errors_as_text() {
    assert_eq!(
        tag_dispatcher::Error::TagNotFound.to_string(),
        "Can't subscribe to tag, not found"
    );
    assert_eq!(
        tag_dispatcher::Error::DispatcherNotAvailable.to_string(),
        "Tag dispatcher not available"
    );
    assert_eq!(
        alarm_dispatcher::Error::AlarmFilterNotFound.to_string(),
        "Alarm filter not found"
    );
    assert_eq!(
        alarm_dispatcher::Error::DispatcherNotAvailable.to_string(),
        "Alarm dispatcher not available"
    );
}

fn value_through<D: TagDispatcher>(dispatcher: &D, tag: &str) -> Option<String> {
    let (value, _) = dispatcher.wait_value(tag).unwrap();
    assert_eq!(value, dispatcher.get_value(tag));
    value
}

fn set_through<S: TagSetter>(setter: &mut S, tag: &str, value: &str) -> u64 {
    setter.set_tag(tag, "first");
    setter.async_set_tag(tag, value, 40).deadline
}

fn count_through<D: AlarmDispatcher>(dispatcher: &D, filter: &str) -> u32 {
    let (count, _) = dispatcher.wait_alarm_filter(filter).unwrap();
    assert_eq!(count, dispatcher.get_filter_count(filter).unwrap());
    count
}

fn ignore_through<F: AlarmFunctions>(functions: &mut F, filter: &str, tags: &mut TagContext) {
    functions.ignore_matched_alarms(filter, false, tags);
}

fn restore_through<F: AlarmFunctions>(functions: &mut F, filter: &str, tags: &mut TagContext) {
    functions.restore_ignored_alarms(filter, tags);
}

#[test]
fn the_dispatchers_behind_their_traits() {
    let mut tags = TagContext::new();
    tags.add_tag("T", None);
    assert_eq!(value_through(&tags, "T"), None);
    assert_eq!(set_through(&mut tags, "T", "second"), 540);
    assert_eq!(value_through(&tags, "T"), Some("second".to_string()));
    let requests = tags.take_requests();
    assert_eq!(requests.len(), 2);
    assert_eq!(requests[0].value, "first");
    assert_eq!(requests[1].value, "second");

    let mut alarms = AlarmContext::new();
    alarms.add_filter("F", parse_filter("Priority <= 7").unwrap(), None, None);
    alarms.handle_notification(&alarm(1, "W", 3), &mut tags);
    assert_eq!(count_through(&alarms, "F"), 1);
    ignore_through(&mut alarms, "F", &mut tags);
    assert_eq!(count_through(&alarms, "F"), 0);
    restore_through(&mut alarms, "F", &mut tags);
    assert_eq!(count_through(&alarms, "F"), 1);
}

#[test]
fn a_filter_added_under_a_known_name_takes_its_place() {
    let mut tags = TagContext::new();
    tags.add_tag("Low", None);
    tags.add_tag("High", None);
    let mut alarms = AlarmContext::new();
    alarms.add_filter(
        "F",
        parse_filter("Priority <= 7").unwrap(),
        Some("Low".to_string()),
        None,
    );
    alarms.add_filter("G", parse_filter("Priority > 0").unwrap(), None, None);
    alarms.handle_notification(&alarm(1, "W", 3), &mut tags);
    assert_eq!(alarms.get_filter_count("F").unwrap(), 1);
    assert_eq!(tags.get_value("Low"), Some("1".to_string()));
    tags.take_requests();
    alarms.add_filter(
        "F",
        parse_filter("Priority > 7").unwrap(),
        Some("High".to_string()),
        None,
    );
    // The new filter starts without alarms; the other filter is untouched.
    assert_eq!(alarms.get_filter_count("F").unwrap(), 0);
    assert_eq!(alarms.get_filter_count("G").unwrap(), 1);
    alarms.handle_notification(&alarm(2, "W", 5), &mut tags);
    alarms.handle_notification(&alarm(3, "W", 9), &mut tags);
    assert_eq!(alarms.get_filter_count("F").unwrap(), 1);
    assert_eq!(alarms.get_filter_count("G").unwrap(), 3);
    // The filter that gave way no longer writes its tag.
    assert_eq!(tags.get_value("Low"), Some("1".to_string()));
    assert_eq!(tags.get_value("High"), Some("1".to_string()));
    let requests = tags.take_requests();
    assert!(requests.iter().all(|r| r.tag_name != "Low"));
}
