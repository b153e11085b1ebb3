use mtp_audioplayer::priority_scheduler::{Scheduler, TokenPoll};

#[test]
fn test_equal_prority() {
    let mut sched = Scheduler::new();
    let token1 = sched.get_token(3).token;
    let token2 = sched.get_token(3).token;
    let token3 = sched.get_token(3).token;
    assert!(token1.is_active(&sched));
    assert!(token2.is_waiting(&sched));
    assert!(token3.is_waiting(&sched));
    // The first token is given back after 500 ms
    let released = token1.release(&mut sched);
    println!("Release token1");
    assert!(released.removed);
    assert_eq!(released.activated, Some(token2.id));
    assert!(token1.is_released(&sched));
    assert!(token2.is_active(&sched));
    let released = token2.release(&mut sched);
    println!("Release token2");
    assert_eq!(released.activated, Some(token3.id));
    assert!(token3.is_active(&sched));
    let released = token3.release(&mut sched);
    println!("Release token3");
    assert_eq!(released.activated, None);
    assert_eq!(sched.len(), 0);
}

#[test]
fn test_higher_prority() {
    let mut sched = Scheduler::new();
    let token1 = sched.get_token(3).token;
    let grant3 = sched.get_token(4);
    let token3 = grant3.token;
    println!("Forced release token1");
    assert_eq!(grant3.preempted, Some(token1.id));
    assert!(token1.is_released(&sched));
    assert!(token3.is_active(&sched));
    // After 300 ms the third token is given back
    let released = token3.release(&mut sched);
    println!("Release token3");
    assert_eq!(released.activated, None);
    // After 500 ms the second task asks for a token
    let grant2 = sched.get_token(4);
    let token2 = grant2.token;
    assert_eq!(grant2.preempted, None);
    assert!(token2.is_active(&sched));
    token2.release(&mut sched);
    println!("Release token2");
    assert!(token2.is_released(&sched));
}

#[test]
fn tokens_are_ordered_by_priority_then_age() {
    let mut sched = Scheduler::new();
    let a = sched.get_token(5).token;
    let b = sched.get_token(1).token;
    let c = sched.get_token(3).token;
    let d = sched.get_token(3).token;
    let e = sched.get_token(5).token;
    assert_eq!(a.id, 1);
    assert_eq!(e.id, 5);
    assert!(a.is_active(&sched));
    let mut order = Vec::new();
    let mut next = Some(a.id);
    while let Some(id) = next {
        order.push(id);
        next = sched.release(id).activated;
    }
    assert_eq!(order, vec![a.id, e.id, c.id, d.id, b.id]);
}

#[test]
fn release_of_a_waiting_token_wakes_nobody() {
    let mut sched = Scheduler::new();
    let a = sched.get_token(1).token;
    let b = sched.get_token(1).token;
    let r = sched.release(b.id);
    assert!(r.removed);
    assert_eq!(r.activated, None);
    assert!(a.is_active(&sched));
    let r = sched.release(b.id);
    assert!(!r.removed);
    assert!(!sched.is_active(99));
    assert!(sched.is_released(99));
}

#[test]
fn waiting_token_times_out_at_its_deadline() {
    let mut sched = Scheduler::new();
    let a = sched.get_token(1).token;
    let b = sched.get_token(1).token;
    assert_eq!(sched.poll_token(&a, 0, Some(10)), TokenPoll::Ready);
    assert_eq!(sched.poll_token(&b, 9, Some(10)), TokenPoll::Waiting);
    assert_eq!(sched.poll_token(&b, 1000, None), TokenPoll::Waiting);
    assert_eq!(sched.poll_token(&b, 10, Some(10)), TokenPoll::TimedOut);
    assert!(b.is_released(&sched));
    assert_eq!(sched.len(), 1);
    assert_eq!(sched.poll_token(&b, 11, Some(10)), TokenPoll::Ready);
}
