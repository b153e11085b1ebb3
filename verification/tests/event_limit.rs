use mtp_audioplayer::event_limit::EventLimit;

#[test]
fn allows_n_events_per_window() {
    let mut limit = EventLimit::new(3, 1000);
    assert!(limit.count(0));
    assert!(limit.count(10));
    assert!(limit.count(999));
    // The fourth event in the window is refused
    assert!(!limit.count(999));
    // 1000 - 0 >= 1000: the first event has left the window
    assert!(limit.count(1000));
    assert!(!limit.count(1009));
    assert!(limit.count(1010));
}

#[test]
fn window_slides_with_time() {
    let mut limit = EventLimit::new(10, 1000);
    let mut accepted = Vec::new();
    for t in 0..3000u64 {
        if t % 50 == 0 {
            if limit.count(t) {
                accepted.push(t);
            }
        }
    }
    for (i, t) in accepted.iter().enumerate() {
        if i + 10 < accepted.len() {
            assert!(accepted[i + 10] - t >= 1000);
        }
    }
    assert_eq!(accepted.len(), 30);
}

#[test]
fn time_never_runs_backwards() {
    let mut limit = EventLimit::new(1, 100);
    assert!(limit.count(500));
    // A time before the last one is taken as the last one
    assert!(!limit.count(0));
    assert!(!limit.count(599));
    assert!(limit.count(600));
}

#[test]
fn zero_events_or_zero_window() {
    let mut never = EventLimit::new(0, 1000);
    assert!(!never.count(0));
    assert!(!never.count(5000));
    let mut always = EventLimit::new(1, 0);
    assert!(always.count(7));
    assert!(always.count(7));
    assert_eq!(always.max_events(), 1);
    assert_eq!(always.window(), 0);
}

#[test]
fn clone_counts_on_its_own() {
    let mut limit = EventLimit::new(1, 100);
    let mut copy = limit.clone();
    assert!(limit.count(0));
    assert!(copy.count(0));
    assert!(!limit.count(1));
    assert!(!copy.count(1));
}

#[test]
fn events_that_keep_their_distance_are_never_refused() {
    // A thousand per second allows one every millisecond, for ever.
    let mut limit = EventLimit::new(1000, 1000);
    for now in 0..5000u64 {
        assert!(limit.count(now), "refused at {}", now);
    }
    // Ten per second allows one every hundred milliseconds.
    let mut limit = EventLimit::new(10, 1000);
    for step in 0..200u64 {
        assert!(limit.count(step * 100), "refused at step {}", step);
    }
    // One every 99 milliseconds is too fast in the end.
    let mut limit = EventLimit::new(10, 1000);
    let refused = (0..200u64).find(|step| !limit.count(step * 99));
    assert_eq!(refused, Some(10));
}
