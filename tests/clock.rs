use playback_core::clock::{PositionClock, SPEED_UNIT};

const SEC: u64 = 1_000_000;
const NANOS: u64 = 1_000_000_000;

#[test]
fn new_clock_reads_zero() {
    let c = PositionClock::new();
    assert!(!c.is_running());
    assert_eq!(c.elapsed(5 * SEC, SPEED_UNIT), 0);
}

#[test]
fn play_pause_sums_scaled_intervals() {
    let mut c = PositionClock::new();
    c.play(0);
    c.stop(SEC, SPEED_UNIT);
    assert_eq!(c.elapsed(3 * SEC, SPEED_UNIT), NANOS);
    c.play(5 * SEC);
    c.stop(7 * SEC, 2 * SPEED_UNIT);
    assert_eq!(c, PositionClock::Stopped { elapsed: 5 * NANOS });
    c.play(10 * SEC);
    c.stop(10 * SEC + 500_000, 500);
    assert_eq!(c.elapsed(20 * SEC, SPEED_UNIT), 5 * NANOS + 250_000_000);
}

#[test]
fn running_clock_reads_live_time() {
    let mut c = PositionClock::new();
    c.play(2 * SEC);
    assert!(c.is_running());
    assert_eq!(c.elapsed(2 * SEC, SPEED_UNIT), 0);
    assert_eq!(c.elapsed(4 * SEC, SPEED_UNIT), 2 * NANOS);
    assert_eq!(c.elapsed(4 * SEC, 1500), 3 * NANOS);
    // An instant before the start accrues nothing.
    assert_eq!(c.elapsed(SEC, SPEED_UNIT), 0);
}

#[test]
fn play_twice_keeps_start() {
    let mut c = PositionClock::new();
    c.play(SEC);
    c.play(3 * SEC);
    assert_eq!(c, PositionClock::Playing { since: SEC, base: 0 });
}

#[test]
fn stop_when_stopped_changes_nothing() {
    let mut c = PositionClock::Stopped { elapsed: 42 };
    c.stop(9 * SEC, 2 * SPEED_UNIT);
    assert_eq!(c, PositionClock::Stopped { elapsed: 42 });
}

#[test]
fn reset_reads_zero_from_any_state() {
    let mut running = PositionClock::Playing { since: SEC, base: 7 * NANOS };
    running.reset();
    assert_eq!(running.elapsed(100 * SEC, SPEED_UNIT), 0);
    assert!(!running.is_running());
    let mut stopped = PositionClock::Stopped { elapsed: 3 * NANOS };
    stopped.reset();
    assert_eq!(stopped.elapsed(100 * SEC, 2 * SPEED_UNIT), 0);
}

#[test]
fn seek_reads_target_running_and_stopped() {
    let mut running = PositionClock::Playing { since: 0, base: 0 };
    running.seek(8 * SEC, 30 * NANOS);
    assert_eq!(running.elapsed(8 * SEC, 2 * SPEED_UNIT), 30 * NANOS);
    assert!(running.is_running());
    assert_eq!(running.elapsed(9 * SEC, SPEED_UNIT), 31 * NANOS);

    let mut stopped = PositionClock::Stopped { elapsed: NANOS };
    stopped.seek(8 * SEC, 30 * NANOS);
    assert_eq!(stopped, PositionClock::Stopped { elapsed: 30 * NANOS });
}

#[test]
fn restamp_does_not_rescale_past_time() {
    // Paused at ten seconds, resumed, speed raised to double at once.
    let mut c = PositionClock::Stopped { elapsed: 10 * NANOS };
    c.play(20 * SEC);
    c.restamp(20 * SEC, SPEED_UNIT);
    assert_eq!(c.elapsed(21 * SEC, 2 * SPEED_UNIT), 12 * NANOS);

    // Speed raised after one more second at normal speed.
    let mut d = PositionClock::Stopped { elapsed: 10 * NANOS };
    d.play(20 * SEC);
    d.restamp(21 * SEC, SPEED_UNIT);
    assert_eq!(d.elapsed(21 * SEC, 2 * SPEED_UNIT), 11 * NANOS);
    assert_eq!(d.elapsed(22 * SEC, 2 * SPEED_UNIT), 13 * NANOS);
}

#[test]
fn restamp_when_stopped_changes_nothing() {
    let mut c = PositionClock::Stopped { elapsed: 5 };
    c.restamp(SEC, 3 * SPEED_UNIT);
    assert_eq!(c, PositionClock::Stopped { elapsed: 5 });
}

#[test]
fn elapsed_saturates_at_the_largest_value() {
    let c = PositionClock::Playing { since: 0, base: u64::MAX - 10 };
    assert_eq!(c.elapsed(u64::MAX, u32::MAX), u64::MAX);
    let d = PositionClock::Playing { since: 0, base: 0 };
    assert_eq!(d.elapsed(u64::MAX, u32::MAX), u64::MAX);
}
