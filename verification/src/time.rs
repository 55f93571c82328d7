//! A span of time measured in nanoseconds, with the range of
//! `std::time::Duration`.

use vstd::prelude::*;

verus! {

/// Number of nanoseconds in one millisecond.
pub const NANOS_PER_MILLI: u128 = 1_000_000;

/// Number of nanoseconds in one second.
pub const NANOS_PER_SEC: u128 = 1_000_000_000;

/// The longest span: `u64::MAX` seconds and 999 999 999 nanoseconds.
pub const MAX_NANOS: u128 = 18_446_744_073_709_551_615_999_999_999;

/// A non-negative span of time, held as a whole number of nanoseconds.
#[derive(Debug, Clone, Copy, PartialEq, Eq, Structural)]
pub struct Duration {
    nanos: u128,
}

impl View for Duration {
    type V = nat;

    /// The span in nanoseconds.
    closed spec fn view(&self) -> nat {
        self.nanos as nat
    }
}

/// Name for the text that `format!("{:?}", std::time::Duration::new(secs,
/// subsec_nanos))` prints (such as `1.999s`).
pub uninterp spec fn duration_debug_text(secs: u64, subsec_nanos: u32) -> Seq<char>;

/// Renders a span with the `Debug` formatting of `std::time::Duration`.
/// Trusted: the result is the text named by `duration_debug_text`.
#[verifier::external_body]
fn std_duration_debug(secs: u64, subsec_nanos: u32) -> (s: String)
    requires
        subsec_nanos < NANOS_PER_SEC,
    ensures
        s@ == duration_debug_text(secs, subsec_nanos),
{
    format!("{:?}", std::time::Duration::new(secs, subsec_nanos))
}

impl Duration {
    #[verifier::type_invariant]
    spec fn in_range(self) -> bool {
        self.nanos <= MAX_NANOS
    }

    /// A span of `secs` whole seconds.
    pub fn from_secs(secs: u64) -> (d: Duration)
        ensures
            d@ == secs * NANOS_PER_SEC,
    {
        Duration { nanos: (secs as u128) * NANOS_PER_SEC }
    }

    /// A span of `millis` milliseconds.
    pub fn from_millis(millis: u64) -> (d: Duration)
        ensures
            d@ == millis * NANOS_PER_MILLI,
    {
        Duration { nanos: (millis as u128) * NANOS_PER_MILLI }
    }

    /// A span of `nanos` nanoseconds.
    pub fn from_nanos(nanos: u128) -> (d: Duration)
        requires
            nanos <= MAX_NANOS,
        ensures
            d@ == nanos,
    {
        Duration { nanos }
    }

    /// The span in whole nanoseconds.
    pub fn as_nanos(&self) -> (n: u128)
        ensures
            n == self@,
            n <= MAX_NANOS,
    {
        proof {
            use_type_invariant(self);
        }
        self.nanos
    }

    /// The span in whole milliseconds, rounded down.
    pub fn as_millis(&self) -> (n: u128)
        ensures
            n == self@ / (NANOS_PER_MILLI as nat),
    {
        self.nanos / NANOS_PER_MILLI
    }

    /// The text that `std::time::Duration`'s `Debug` prints for this span.
    pub fn debug_string(&self) -> (s: String)
        ensures
            s@ == duration_debug_text(
                (self@ / (NANOS_PER_SEC as nat)) as u64,
                (self@ % (NANOS_PER_SEC as nat)) as u32,
            ),
    {
        proof {
            use_type_invariant(self);
        }
        let secs = (self.nanos / NANOS_PER_SEC) as u64;
        let sub = (self.nanos % NANOS_PER_SEC) as u32;
        std_duration_debug(secs, sub)
    }
}

} // verus!
