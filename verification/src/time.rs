//! Points and spans of time, in microseconds.
use vstd::prelude::*;

verus! {

/// A span of time.
#[derive(Debug, Clone, Copy, PartialEq, Eq, Structural)]
pub struct Duration {
    pub micros: u64,
}

/// The number of microseconds in a second.
pub const MICROS_PER_SEC: u64 = 1_000_000;

impl Duration {
    /// Makes a span of time out of a number of seconds.
    pub fn from_secs(secs: u64) -> (duration: Self)
        requires
            secs <= u64::MAX / MICROS_PER_SEC,
        ensures
            duration.micros == secs * MICROS_PER_SEC,
    {
        Duration { micros: secs * MICROS_PER_SEC }
    }

    /// Returns the number of whole seconds.
    pub fn as_secs(&self) -> (secs: u64)
        ensures
            secs == self.micros / MICROS_PER_SEC,
    {
        self.micros / MICROS_PER_SEC
    }
}

/// A point in time, counted from when the clock was started.
#[derive(Debug, Clone, Copy, PartialEq, Eq, Structural)]
pub struct Instant {
    pub micros: u64,
}

/// The number of whole seconds of a span is the largest one that fits into it,
/// and of a span made out of seconds it is their number.
pub proof fn law_whole_seconds(duration: Duration, secs: u64, number: u64)
    requires
        number <= u64::MAX / 1_000_000,
        call_ensures(Duration::as_secs, (&duration,), secs),
    ensures
        secs * 1_000_000 <= duration.micros < (secs + 1) * 1_000_000,
        call_ensures(Duration::from_secs, (number,), duration) ==> secs == number
            && duration.micros == number * 1_000_000,
{
}

} // verus!
