use bytes::Bytes;
use speedtest_fileserver::guard::{GuardAction, GuardEvent, TimeoutGuard, SEND_TIMEOUT_MS};

fn block(n: u8) -> Bytes {
    Bytes::copy_from_slice(&[n; 4])
}

fn forwarded(a: GuardAction) -> Option<Bytes> {
    match a {
        GuardAction::Forward(b) => Some(b),
        _ => None,
    }
}

#[test]
fn prompt_blocks_pass_unchanged_in_order() {
    let mut g = TimeoutGuard::new(0, SEND_TIMEOUT_MS);
    let times = [100u64, 19_000, 38_000, 57_999];
    for (i, t) in times.iter().enumerate() {
        let out = forwarded(g.step(GuardEvent::Block { block: block(i as u8), at: *t }));
        assert_eq!(out, Some(block(i as u8)));
    }
    assert_eq!(g.forwarded(), 4);
    assert_eq!(g.deadline(), 57_999 + SEND_TIMEOUT_MS);
    assert!(!g.is_ended());
    assert!(matches!(g.step(GuardEvent::Exhausted), GuardAction::End));
    assert!(g.is_ended());
}

#[test]
fn late_block_ends_after_earlier_ones() {
    let mut g = TimeoutGuard::new(0, 20);
    assert!(forwarded(g.step(GuardEvent::Block { block: block(1), at: 5 })).is_some());
    assert!(forwarded(g.step(GuardEvent::Block { block: block(2), at: 24 })).is_some());
    // the third block comes at the deadline: two were delivered, then the end
    assert!(matches!(g.step(GuardEvent::Block { block: block(3), at: 44 }), GuardAction::End));
    assert_eq!(g.forwarded(), 2);
    assert!(matches!(g.step(GuardEvent::Block { block: block(4), at: 45 }), GuardAction::End));
    assert_eq!(g.forwarded(), 2);
}

#[test]
fn timer_before_deadline_waits() {
    let mut g = TimeoutGuard::new(10, 20);
    assert_eq!(g.deadline(), 30);
    assert!(matches!(g.step(GuardEvent::Elapsed { at: 29 }), GuardAction::Wait));
    assert!(!g.is_ended());
    assert!(matches!(g.step(GuardEvent::Elapsed { at: 30 }), GuardAction::End));
    assert!(g.is_ended());
}

#[test]
fn first_block_late_delivers_nothing() {
    let mut g = TimeoutGuard::new(0, 20);
    assert!(matches!(g.step(GuardEvent::Block { block: block(1), at: 21 }), GuardAction::End));
    assert_eq!(g.forwarded(), 0);
}

#[test]
fn deadline_saturates() {
    let mut g = TimeoutGuard::new(u64::MAX - 5, 20);
    assert_eq!(g.deadline(), u64::MAX);
    assert!(forwarded(g.step(GuardEvent::Block { block: block(1), at: u64::MAX - 1 })).is_some());
    assert_eq!(g.deadline(), u64::MAX);
}
