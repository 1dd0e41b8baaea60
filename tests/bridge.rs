use sart::bridge::{
    advance, BridgePhase, CWaker, FFIFuture, MaybeData, PollStep, Result, Terminal, Verb,
};

#[test]
fn same_waker_is_delivered_once() {
    let mut f = FFIFuture::new();
    assert!(f.waker_changed(0x1000, 0x2000));
    assert!(!f.waker_changed(0x1000, 0x2000));
    assert!(f.waker_changed(0x1000, 0x3000));
    assert!(f.waker_changed(0x1008, 0x3000));
}

#[test]
fn ready_value_marks_collected_and_cleans_up() {
    let mut f = FFIFuture::new();
    assert!(matches!(f.terminal(), Terminal::Abort));
    assert!(matches!(f.on_collect::<u32>(Result::pending()), PollStep::Pending));
    assert!(matches!(f.terminal(), Terminal::Abort));
    match f.on_collect(Result::ready(42u32)) {
        PollStep::Ready(v) => assert_eq!(v, 42),
        _ => panic!("expected a value"),
    }
    assert!(matches!(f.terminal(), Terminal::Cleanup));
}

#[test]
fn nonzero_flag_without_value_is_a_glitch() {
    let mut f = FFIFuture::new();
    let answer: Result<u8> = Result { flag: 1, output: MaybeData::Nothing };
    assert!(matches!(f.on_collect(answer), PollStep::Glitch));
    assert!(matches!(f.terminal(), Terminal::Abort));
}

#[test]
fn value_wins_over_flag() {
    let mut f = FFIFuture::new();
    let answer = Result { flag: 3, output: MaybeData::Just(9i64) };
    assert!(matches!(f.on_collect(answer), PollStep::Ready(9)));
}

#[test]
fn pending_then_ready_then_cleanup_then_nothing() {
    let mut p = BridgePhase::Fresh;
    for v in [Verb::Seal, Verb::Waker, Verb::PollPending, Verb::Waker, Verb::PollReady, Verb::Cleanup] {
        p = advance(p, v).expect("verb accepted");
    }
    assert!(matches!(p, BridgePhase::Cleaned));
    for v in [Verb::Seal, Verb::Waker, Verb::PollPending, Verb::PollReady, Verb::Cleanup, Verb::Abort] {
        assert!(advance(BridgePhase::Cleaned, v).is_none());
    }
}

#[test]
fn abort_before_completion_ends_protocol() {
    let p = advance(BridgePhase::Fresh, Verb::Seal).unwrap();
    let p = advance(p, Verb::PollPending).unwrap();
    let p = advance(p, Verb::Abort).unwrap();
    assert!(matches!(p, BridgePhase::Aborted));
    assert!(advance(BridgePhase::Aborted, Verb::Cleanup).is_none());
    assert!(advance(BridgePhase::Aborted, Verb::Abort).is_none());
}

#[test]
fn protocol_misuse_is_refused() {
    assert!(advance(BridgePhase::Fresh, Verb::PollPending).is_none());
    assert!(advance(BridgePhase::Fresh, Verb::Cleanup).is_none());
    assert!(advance(BridgePhase::Sealed, Verb::Seal).is_none());
    assert!(advance(BridgePhase::Polling, Verb::Cleanup).is_none());
    assert!(advance(BridgePhase::Completed, Verb::Abort).is_none());
    assert!(advance(BridgePhase::Completed, Verb::PollReady).is_none());
}

#[test]
fn waker_payload_copies_bit_for_bit() {
    let w = CWaker { _unknown: [7; 16] };
    let c = w.unsafe_bitcopy();
    assert_eq!(c._unknown, [7; 16]);
}
