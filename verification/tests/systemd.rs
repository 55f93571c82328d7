use alarm_daemon::systemd::{ping_period_for, u64_ms};
use alarm_daemon::time::Duration;

#[test]
fn ping_period_is_half_of_watchdog_period() {
    assert_eq!(ping_period_for(Duration::from_secs(10)), Duration::from_secs(5));
    assert_eq!(
        ping_period_for(Duration::from_millis(200)),
        Duration::from_millis(100)
    );
}

#[test]
fn ping_period_clamps_to_one_millisecond_for_pathological_inputs() {
    assert_eq!(ping_period_for(Duration::from_millis(1)), Duration::from_millis(1));
    assert_eq!(ping_period_for(Duration::from_nanos(0)), Duration::from_millis(1));
}

#[test]
fn u64_ms_handles_typical_durations() {
    assert_eq!(u64_ms(Duration::from_millis(0)), 0);
    assert_eq!(u64_ms(Duration::from_millis(123)), 123);
    assert_eq!(u64_ms(Duration::from_secs(60)), 60_000);
}

#[test]
fn ping_period_of_odd_timeout_rounds_down() {
    assert_eq!(ping_period_for(Duration::from_nanos(3_000_001)).as_nanos(), 1_500_000);
}

#[test]
fn u64_ms_saturates() {
    assert_eq!(u64_ms(Duration::from_secs(u64::MAX)), u64::MAX);
    assert_eq!(u64_ms(Duration::from_nanos(1_999_999)), 1);
}
