//! Lengths of time and readings of the two clocks.

use vstd::prelude::*;

verus! {

/// Nanoseconds in one second.
pub const NANOS_PER_SEC: u128 = 1_000_000_000;

/// Nanoseconds in one millisecond.
pub const NANOS_PER_MILLI: u128 = 1_000_000;

/// The longest length of time, in nanoseconds: `u64::MAX` seconds and one
/// nanosecond short of a further second.
pub const MAX_NANOS: u128 = 18_446_744_073_709_551_615_999_999_999;

/// A length of time, to the nanosecond. Its view is the number of nanoseconds.
#[derive(Clone, Copy, Debug, PartialEq, Eq, Structural)]
pub struct Duration {
    nanos: u128,
}

impl View for Duration {
    type V = nat;

    closed spec fn view(&self) -> nat {
        self.nanos as nat
    }
}

/// The nanoseconds of an optional length of time.
pub open spec fn opt_nanos(d: Option<Duration>) -> Option<nat> {
    match d {
        Some(d) => Some(d@),
        None => None,
    }
}

impl Duration {
    #[verifier::type_invariant]
    spec fn in_range(self) -> bool {
        self.nanos <= MAX_NANOS
    }

    /// No time at all.
    pub fn zero() -> (r: Duration)
        ensures
            r@ == 0,
    {
        Duration { nanos: 0 }
    }

    /// `secs` seconds.
    pub fn from_secs(secs: u64) -> (r: Duration)
        ensures
            r@ == secs * NANOS_PER_SEC,
    {
        Duration { nanos: secs as u128 * NANOS_PER_SEC }
    }

    /// `millis` milliseconds.
    pub fn from_millis(millis: u64) -> (r: Duration)
        ensures
            r@ == millis * NANOS_PER_MILLI,
    {
        Duration { nanos: millis as u128 * NANOS_PER_MILLI }
    }

    /// `nanos` nanoseconds.
    pub fn from_nanos(nanos: u128) -> (r: Duration)
        requires
            nanos <= MAX_NANOS,
        ensures
            r@ == nanos,
    {
        Duration { nanos }
    }

    /// The whole nanoseconds.
    pub fn as_nanos(&self) -> (r: u128)
        ensures
            r == self@,
            r <= MAX_NANOS,
    {
        proof {
            use_type_invariant(self);
        }
        self.nanos
    }

    /// The whole milliseconds.
    pub fn as_millis(&self) -> (r: u128)
        ensures
            r == self@ / NANOS_PER_MILLI as nat,
    {
        self.nanos / NANOS_PER_MILLI
    }

    /// The whole seconds.
    pub fn as_secs(&self) -> (r: u64)
        ensures
            r == self@ / NANOS_PER_SEC as nat,
    {
        proof {
            use_type_invariant(self);
        }
        (self.nanos / NANOS_PER_SEC) as u64
    }

    /// The shorter of the two.
    pub fn min(self, other: Duration) -> (r: Duration)
        ensures
            r == if self@ <= other@ {
                self
            } else {
                other
            },
    {
        if self.nanos <= other.nanos {
            self
        } else {
            other
        }
    }

    /// Whether `self` is at least as long as `other`.
    pub fn at_least(&self, other: &Duration) -> (r: bool)
        ensures
            r == (self@ >= other@),
    {
        self.nanos >= other.nanos
    }

    /// The sum of both, which must not exceed the longest length of time.
    pub fn plus(self, other: Duration) -> (r: Duration)
        requires
            self@ + other@ <= MAX_NANOS,
        ensures
            r@ == self@ + other@,
    {
        Duration { nanos: self.nanos + other.nanos }
    }

    /// How much longer `self` is than `other`, nothing when it is not.
    pub fn saturating_minus(self, other: Duration) -> (r: Duration)
        ensures
            r@ == if self@ >= other@ {
                (self@ - other@) as nat
            } else {
                0
            },
    {
        proof {
            use_type_invariant(&self);
        }
        if self.nanos >= other.nanos {
            Duration { nanos: self.nanos - other.nanos }
        } else {
            Duration { nanos: 0 }
        }
    }
}

/// A point on the process's monotonic clock.
#[verifier::external_type_specification]
#[verifier::external_body]
pub struct ExInstant(std::time::Instant);

/// Reads the monotonic clock with `Instant::now`. Nothing is claimed of the
/// reading: it depends on when the call is made.
#[verifier::external_body]
pub(crate) fn instant_now() -> (r: std::time::Instant) {
    std::time::Instant::now()
}

/// Calls `Instant::elapsed`: the nanoseconds since `start`. What is claimed is
/// only that the number is that of a `std::time::Duration`.
#[verifier::external_body]
pub(crate) fn nanos_since(start: &std::time::Instant) -> (r: u128)
    ensures
        r <= MAX_NANOS,
{
    start.elapsed().as_nanos()
}

/// Reads the system clock with `SystemTime::now`: the nanoseconds since the
/// Unix epoch, negative when the clock stands before it. What is claimed is
/// only that the distance is that of a `std::time::Duration`.
#[verifier::external_body]
pub(crate) fn system_clock_nanos() -> (r: i128)
    ensures
        -(MAX_NANOS as int) <= r <= MAX_NANOS,
{
    match std::time::SystemTime::now().duration_since(std::time::UNIX_EPOCH) {
        Ok(after) => after.as_nanos() as i128,
        Err(before) => -(before.duration().as_nanos() as i128),
    }
}

/// The time since `start` on the monotonic clock. Nothing is claimed of it: it
/// depends on when the call is made, and any length of time is possible.
pub fn elapsed_since(start: &std::time::Instant) -> Duration {
    Duration::from_nanos(nanos_since(start))
}

/// The whole seconds since the Unix epoch, 0 when the clock stands before it.
/// Nothing is claimed of the reading: it depends on when the call is made, and
/// any number is possible.
pub fn epoch_second() -> u64 {
    epoch_second_of(system_clock_nanos())
}

/// The whole seconds since the Unix epoch of a clock reading in nanoseconds,
/// 0 for one before the epoch.
pub fn epoch_second_of(nanos: i128) -> (r: u64)
    requires
        nanos <= MAX_NANOS,
    ensures
        r == if nanos < 0 {
            0
        } else {
            nanos as int / NANOS_PER_SEC as int
        },
{
    if nanos < 0 {
        0
    } else {
        (nanos as u128 / NANOS_PER_SEC) as u64
    }
}

} // verus!
