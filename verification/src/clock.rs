//! Points on a monotonic clock and spans between them, in nanoseconds, and
//! readings of the system clock.
use vstd::prelude::*;

verus! {

/// The number of nanoseconds in a second.
pub const NANOS_PER_SECOND: u128 = 1_000_000_000;

/// A span of time.
#[derive(Clone, Copy, Debug, PartialEq, Eq, Structural)]
pub struct Duration {
    pub nanos: u128,
}

/// A point in time, counted from the origin of the clock.
#[derive(Clone, Copy, Debug, PartialEq, Eq, Structural)]
pub struct Instant {
    pub nanos: u128,
}

/// The nanoseconds from `then` to `now`, or none where `then` is later.
pub open spec fn elapsed(now: Instant, then: Instant) -> nat {
    if now.nanos >= then.nanos {
        (now.nanos - then.nanos) as nat
    } else {
        0
    }
}

impl Duration {
    /// A span of whole seconds.
    pub fn from_secs(secs: u64) -> (r: Duration)
        ensures
            r.nanos == secs * NANOS_PER_SECOND,
    {
        Duration { nanos: (secs as u128) * NANOS_PER_SECOND }
    }

    /// A span of whole milliseconds.
    pub fn from_millis(millis: u64) -> (r: Duration)
        ensures
            r.nanos == millis * 1_000_000,
    {
        Duration { nanos: (millis as u128) * 1_000_000 }
    }

    /// What is left of `self` once `other` has passed.
    pub fn saturating_sub(self, other: Duration) -> (r: Duration)
        ensures
            r.nanos == (if self.nanos >= other.nanos {
                self.nanos - other.nanos
            } else {
                0
            }),
    {
        if self.nanos >= other.nanos {
            Duration { nanos: self.nanos - other.nanos }
        } else {
            Duration { nanos: 0 }
        }
    }
}

impl Instant {
    /// The span from `earlier` to `self`, or none where `earlier` is later.
    pub fn saturating_duration_since(self, earlier: Instant) -> (r: Duration)
        ensures
            r.nanos == elapsed(self, earlier),
    {
        if self.nanos >= earlier.nanos {
            Duration { nanos: self.nanos - earlier.nanos }
        } else {
            Duration { nanos: 0 }
        }
    }
}

/// What the system clock showed when it was looked at, in seconds since the
/// Unix epoch. Only a look at the clock gives a reading.
#[derive(Debug)]
pub struct Reading {
    seconds: i64,
}

impl Reading {
    /// What the clock showed.
    pub closed spec fn seconds(&self) -> i64 {
        self.seconds
    }

    /// What the clock showed.
    pub fn value(&self) -> (r: i64)
        ensures
            r == self.seconds(),
    {
        self.seconds
    }
}

/// Calls `chrono::Utc::now` and takes its timestamp. The contract claims what
/// holds at every time: the clock stands at the Unix epoch or later, and on a
/// day whose number `chrono` can count in 32 bits; it is otherwise free.
#[verifier::external_body]
pub(crate) fn utc_timestamp() -> (r: Reading)
    ensures
        0 <= r.seconds() <= crate::token::MAX_TIMESTAMP,
{
    Reading { seconds: chrono::Utc::now().timestamp() }
}

/// A reading is the number that the clock gave.
proof fn law_readings_hold_what_was_read(reading: Reading)
    ensures
        reading.seconds() == reading.seconds,
{
}

} // verus!
