//! Periods of the download loop's housekeeping.
use rbitcoin_ibd::cadence::{
    IbdLoopCadence, ASSIGN_PERIOD_NS, HEADERS_PERIOD_NS, HYGIENE_PERIOD_NS, PEER_SLOW_PERIOD_NS,
};
use rbitcoin_ibd::time::{Duration, Instant};

#[test]
fn assign_due_first_then_period_unless_inflight_empty() {
    let mut c = IbdLoopCadence::new();
    let t0 = Instant::at_nanos(7_000_000_000);
    assert!(c.assign_due(t0, false), "first turn is due");
    c.mark_assign(t0);
    assert!(
        !c.assign_due(t0.plus(Duration::from_millis(49)), false),
        "event-rate assign is the waste"
    );
    assert!(c.assign_due(t0.plus(Duration::from_nanos(ASSIGN_PERIOD_NS)), false));
    assert!(
        c.assign_due(t0.plus(Duration::from_millis(1)), true),
        "empty inflight must not wait the period"
    );
}

#[test]
fn peer_slow_is_one_second_not_every_turn() {
    let mut c = IbdLoopCadence::new();
    let t0 = Instant::at_nanos(7_000_000_000);
    assert!(c.peer_slow_due(t0));
    c.mark_peer_slow(t0);
    assert!(!c.peer_slow_due(t0.plus(Duration::from_millis(50))));
    assert!(!c.peer_slow_due(t0.plus(Duration::from_millis(999))));
    assert!(c.peer_slow_due(t0.plus(Duration::from_nanos(PEER_SLOW_PERIOD_NS))));
}

#[test]
fn hygiene_period_or_bloated() {
    let mut c = IbdLoopCadence::new();
    let t0 = Instant::at_nanos(7_000_000_000);
    assert!(c.hygiene_due(t0, false));
    c.mark_hygiene(t0);
    assert!(!c.hygiene_due(t0.plus(Duration::from_millis(50)), false));
    assert!(
        c.hygiene_due(t0.plus(Duration::from_millis(1)), true),
        "ghost-bloated deque skips the wait"
    );
    assert!(c.hygiene_due(t0.plus(Duration::from_nanos(HYGIENE_PERIOD_NS)), false));
}

#[test]
fn headers_period_or_empty_path() {
    let mut c = IbdLoopCadence::new();
    let t0 = Instant::at_nanos(7_000_000_000);
    assert!(c.headers_due(t0, false));
    c.mark_headers(t0);
    assert!(
        !c.headers_due(t0.plus(Duration::from_millis(50)), false),
        "locator_hashes must not run on every frame"
    );
    assert!(
        c.headers_due(t0.plus(Duration::from_millis(1)), true),
        "empty path header fan is immediate"
    );
    assert!(c.headers_due(t0.plus(Duration::from_nanos(HEADERS_PERIOD_NS)), false));
}

#[test]
fn durations_and_instants_saturate() {
    assert_eq!(Duration::from_millis(3).ns, 3_000_000);
    assert_eq!(Duration::from_secs(2).as_millis(), 2_000);
    assert_eq!(Duration::from_secs(u64::MAX).ns, u64::MAX);
    let t = Instant::at_nanos(u64::MAX - 1);
    assert_eq!(t.plus(Duration::from_nanos(5)).ns, u64::MAX);
    assert_eq!(Instant::at_nanos(1).saturating_duration_since(t).ns, 0);
}

#[test]
fn clock_that_steps_back_is_not_due() {
    let mut c = IbdLoopCadence::new();
    c.mark_headers(Instant::at_nanos(5_000_000_000));
    assert!(!c.headers_due(Instant::at_nanos(1), false));
}
