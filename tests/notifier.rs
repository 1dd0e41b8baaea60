use sart::notifier::{
    initial_word, release_outcome, release_word, retain_word, update_acquired, update_outcome,
    wake_reaches_payload, wake_release_mask, wake_step, AtomicFFICWaker, WakeStep, COUNT_MASK,
    LOCKED, NEW, NOTIFIED,
};

#[test]
fn fresh_word_has_one_handle_and_no_payload() {
    assert_eq!(initial_word(), NEW | 1);
    assert_eq!(initial_word(), 0x2000_0000_0000_0001);
}

#[test]
fn retain_and_release_move_only_the_count() {
    let w = LOCKED | NOTIFIED | 5;
    assert_eq!(retain_word(w), LOCKED | NOTIFIED | 6);
    let (after, decision) = release_word(w);
    assert_eq!(after, LOCKED | NOTIFIED | 4);
    assert!(!decision.last);
    assert_eq!(decision.prev, w);
}

#[test]
fn last_release_frees_initialized_payload_only() {
    assert!(release_outcome(1).last);
    assert!(!release_outcome(NEW | 1).last);
    assert!(!release_outcome(2).last);
    assert!(!release_outcome(NEW | 2).last);
    assert!(release_outcome(LOCKED | NOTIFIED | 1).last);
}

#[test]
fn wake_delegates_when_locked_and_acquires_when_free() {
    match wake_step(LOCKED | 3) {
        WakeStep::Delegate { next } => assert_eq!(next, LOCKED | NOTIFIED | 3),
        WakeStep::Acquire { .. } => panic!("expected delegation"),
    }
    match wake_step(NEW | 3) {
        WakeStep::Acquire { next } => assert_eq!(next, LOCKED | NOTIFIED | NEW | 3),
        WakeStep::Delegate { .. } => panic!("expected acquisition"),
    }
    assert!(wake_reaches_payload(LOCKED | 2));
    assert!(!wake_reaches_payload(NEW | 2));
    assert_eq!((LOCKED | NOTIFIED | 7) & wake_release_mask(), NOTIFIED | 7);
}

#[test]
fn update_decisions_follow_the_flags() {
    assert!(update_acquired(NOTIFIED | 1));
    assert!(!update_acquired(LOCKED | 1));
    let d = update_outcome(LOCKED | NOTIFIED | NEW | 2);
    assert!(d.wake_new);
    assert!(!d.free_old);
    let d = update_outcome(LOCKED | 2);
    assert!(!d.wake_new);
    assert!(d.free_old);
    assert_eq!((LOCKED | NOTIFIED | NEW | 2) & COUNT_MASK, 2);
}

#[test]
fn retain_release_pairs_destroy_exactly_once() {
    let n = AtomicFFICWaker::new();
    assert_eq!(n.load(), NEW | 1);
    assert!(n.try_lock());
    n.end_update();
    n.inc();
    n.inc();
    let mut lasts = 0;
    for _ in 0..3 {
        let d = n.dec();
        if d.last {
            lasts += 1;
        }
    }
    assert_eq!(lasts, 1);
    assert_eq!(n.load() & COUNT_MASK, 0);
}

#[test]
fn never_initialized_payload_is_not_freed() {
    let n = AtomicFFICWaker::new();
    let d = n.dec();
    assert!(!d.last);
    assert_eq!(n.load(), NEW);
}

#[test]
fn initialized_payload_freed_by_last_release() {
    let n = AtomicFFICWaker::new();
    assert!(n.try_lock());
    let first = n.end_update();
    assert!(!first.free_old);
    assert!(!first.wake_new);
    let d = n.dec();
    assert!(d.last);
}

#[test]
fn wake_during_update_is_applied_by_update() {
    let n = AtomicFFICWaker::new();
    assert!(n.try_lock());
    assert!(!n.try_lock());
    let seen = n.load();
    match n.try_wake(seen) {
        Ok(WakeStep::Delegate { next }) => assert_eq!(next, seen | NOTIFIED),
        other => panic!("expected delegation, got {}", other.is_ok()),
    }
    let d = n.end_update();
    assert!(d.wake_new);
    assert_eq!(n.load(), 1);
}

#[test]
fn wake_with_free_lock_takes_it_and_leaves_notified() {
    let n = AtomicFFICWaker::new();
    assert!(n.try_lock());
    n.end_update();
    let seen = n.load();
    match n.try_wake(seen) {
        Ok(WakeStep::Acquire { next }) => assert_eq!(next, LOCKED | NOTIFIED | 1),
        other => panic!("expected acquisition, got {}", other.is_ok()),
    }
    n.end_wake();
    assert_eq!(n.load(), NOTIFIED | 1);
    assert!(n.try_lock());
    assert!(n.end_update().wake_new);
}

#[test]
fn stale_wake_attempt_reports_the_current_word() {
    let n = AtomicFFICWaker::new();
    let stale = n.load();
    n.inc();
    let mut outcome = n.try_wake(stale);
    while let Ok(_) = outcome {
        outcome = n.try_wake(stale);
    }
    assert_eq!(outcome.err(), Some(NEW | 2));
}
