//! Timing decisions for the systemd watchdog keepalive.

use vstd::prelude::*;

use crate::time::{Duration, NANOS_PER_MILLI};

verus! {

/// The ping period for a watchdog timeout of `watchdog_nanos`: half of it,
/// but never below one millisecond.
pub open spec fn ping_period_nanos(watchdog_nanos: nat) -> nat {
    if watchdog_nanos / 2 < NANOS_PER_MILLI {
        NANOS_PER_MILLI as nat
    } else {
        watchdog_nanos / 2
    }
}

/// Computes the watchdog ping period from the configured `WatchdogSec=`
/// timeout: half the timeout, as `sd_watchdog_enabled(3)` recommends, with a
/// one-millisecond floor.
pub fn ping_period_for(watchdog_period: Duration) -> (p: Duration)
    ensures
        p@ == ping_period_nanos(watchdog_period@),
{
    let half = watchdog_period.as_nanos() / 2;
    if half < NANOS_PER_MILLI {
        Duration::from_nanos(NANOS_PER_MILLI)
    } else {
        Duration::from_nanos(half)
    }
}

/// The whole number of milliseconds in `d`, saturating at `u64::MAX`.
pub fn u64_ms(d: Duration) -> (ms: u64)
    ensures
        ms == if d@ / (NANOS_PER_MILLI as nat) > u64::MAX {
            u64::MAX as nat
        } else {
            d@ / (NANOS_PER_MILLI as nat)
        },
{
    let millis = d.as_millis();
    if millis > u64::MAX as u128 {
        u64::MAX
    } else {
        millis as u64
    }
}

/// Law: the ping period never exceeds the watchdog timeout once that
/// timeout is at least a millisecond, and is never shorter than a
/// millisecond.
pub proof fn lemma_ping_within_timeout(watchdog_nanos: nat)
    ensures
        ping_period_nanos(watchdog_nanos) >= NANOS_PER_MILLI,
        watchdog_nanos >= NANOS_PER_MILLI ==> ping_period_nanos(watchdog_nanos) <= watchdog_nanos,
{
}

/// Law: once half the timeout reaches a millisecond, the ping period is
/// exactly half the timeout (rounded down to the nanosecond): two periods
/// fit in the timeout with less than two nanoseconds to spare.
pub proof fn lemma_ping_is_half_the_timeout(watchdog_nanos: nat)
    ensures
        watchdog_nanos / 2 >= 1_000_000 ==> ping_period_nanos(watchdog_nanos) == watchdog_nanos
            / 2,
        watchdog_nanos / 2 >= 1_000_000 ==> 2 * ping_period_nanos(watchdog_nanos)
            <= watchdog_nanos < 2 * ping_period_nanos(watchdog_nanos) + 2,
        watchdog_nanos / 2 < 1_000_000 ==> ping_period_nanos(watchdog_nanos) == 1_000_000,
{
}

} // verus!
