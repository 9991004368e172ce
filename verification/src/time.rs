//! Time as plain numbers.

use vstd::prelude::*;

verus! {

pub const NANOS_PER_SEC: u64 = 1_000_000_000;

pub const NANOS_PER_MILLI: u64 = 1_000_000;

/// How long something took, to the nanosecond.
#[derive(Clone, Copy, PartialEq, Eq, Debug, Structural)]
pub struct Duration {
    secs: u64,
    /// What is left beside whole seconds.
    nanos: u32,
}

/// A reading of a clock that never goes back, counted from some start.
#[derive(Clone, Copy, PartialEq, Eq, Debug, Structural)]
pub struct Instant {
    pub since_start: Duration,
}

impl Duration {
    #[verifier::type_invariant]
    spec fn less_than_a_second_left(self) -> bool {
        self.nanos < NANOS_PER_SEC
    }

    /// The whole of it in nanoseconds.
    pub closed spec fn total(self) -> nat {
        self.secs as nat * 1_000_000_000 + self.nanos as nat
    }

    /// Seconds, and the nanoseconds beside them.
    pub fn new(secs: u64, nanos: u32) -> (d: Duration)
        requires
            nanos < NANOS_PER_SEC,
        ensures
            d.total() == secs * NANOS_PER_SEC + nanos,
    {
        Duration { secs, nanos }
    }

    pub fn zero() -> (d: Duration)
        ensures
            d.total() == 0,
    {
        Duration { secs: 0, nanos: 0 }
    }

    pub fn from_secs(secs: u64) -> (d: Duration)
        ensures
            d.total() == secs * NANOS_PER_SEC,
    {
        Duration { secs, nanos: 0 }
    }

    pub fn from_millis(millis: u64) -> (d: Duration)
        ensures
            d.total() == millis * NANOS_PER_MILLI,
    {
        Duration { secs: millis / 1000, nanos: (millis % 1000) as u32 * 1_000_000 }
    }

    /// Whole seconds.
    pub fn as_secs(&self) -> (secs: u64)
        ensures
            secs == self.total() / NANOS_PER_SEC as nat,
    {
        proof {
            use_type_invariant(self);
        }
        self.secs
    }

    /// Whole milliseconds.
    pub fn as_millis(&self) -> (millis: u128)
        ensures
            millis == self.total() / NANOS_PER_MILLI as nat,
    {
        proof {
            use_type_invariant(self);
        }
        self.secs as u128 * 1000 + (self.nanos / 1_000_000) as u128
    }

    /// Whole milliseconds in a machine word; what does not fit is cut off at the
    /// top.
    pub open spec fn millis_word(self) -> nat {
        self.total() / 1_000_000 % 0x1_0000_0000_0000_0000
    }

    pub fn as_millis_word(&self) -> (millis: u64)
        ensures
            millis == self.millis_word(),
    {
        (self.as_millis() % 0x1_0000_0000_0000_0000u128) as u64
    }

    pub fn at_least(&self, other: Duration) -> (r: bool)
        ensures
            r == (self.total() >= other.total()),
    {
        proof {
            use_type_invariant(self);
            use_type_invariant(&other);
        }
        self.secs > other.secs || (self.secs == other.secs && self.nanos >= other.nanos)
    }
}

impl Instant {
    /// How many nanoseconds before `self` an earlier moment was; none when it was
    /// not.
    pub open spec fn nanos_since(self, earlier: Instant) -> nat {
        if self.since_start.total() >= earlier.since_start.total() {
            (self.since_start.total() - earlier.since_start.total()) as nat
        } else {
            0
        }
    }

    /// How long before `self` an earlier moment was; nothing when it was not.
    pub fn saturating_duration_since(&self, earlier: Instant) -> (d: Duration)
        ensures
            d.total() == self.nanos_since(earlier),
    {
        let a: Duration = self.since_start;
        let b: Duration = earlier.since_start;
        proof {
            use_type_invariant(&a);
            use_type_invariant(&b);
        }
        if !a.at_least(b) {
            return Duration::zero();
        }
        if a.nanos >= b.nanos {
            Duration { secs: a.secs - b.secs, nanos: a.nanos - b.nanos }
        } else {
            Duration { secs: a.secs - b.secs - 1, nanos: a.nanos + 1_000_000_000 - b.nanos }
        }
    }
}

}
