//! Signed spans of time with nanosecond resolution.

use vstd::prelude::*;

verus! {

/// Nanoseconds in one microsecond.
pub const NANOS_PER_MICRO: i64 = 1_000;

/// Nanoseconds in one millisecond.
pub const NANOS_PER_MILLI: i64 = 1_000_000;

/// Nanoseconds in one second.
pub const NANOS_PER_SEC: i64 = 1_000_000_000;

/// Quotient of `n` by a positive `unit`, rounded towards zero.
pub open spec fn truncated_quotient(n: int, unit: int) -> int {
    if n >= 0 {
        n / unit
    } else {
        -((-n) / unit)
    }
}

/// A signed span of time, counted in whole nanoseconds.
///
/// Every `i64` number of nanoseconds is a valid span, which covers a little
/// more than 292 years in either direction.
#[derive(Clone, Copy, Debug, PartialEq, Eq, PartialOrd, Ord, Hash, Structural)]
pub struct Duration {
    nanos: i64,
}

impl View for Duration {
    type V = int;

    /// The span as a mathematical number of nanoseconds.
    closed spec fn view(&self) -> int {
        self.nanos as int
    }
}

impl Duration {
    /// Whether `nanos` nanoseconds can be held by a `Duration`.
    pub open spec fn representable(nanos: int) -> bool {
        i64::MIN <= nanos <= i64::MAX
    }

    /// A span is its number of nanoseconds and nothing more: two spans of
    /// the same length are the same span.
    pub proof fn lemma_equal_lengths_are_equal(self, other: Duration)
        ensures
            self@ == other@ <==> self == other,
            Self::representable(self@),
    {
    }

    /// The empty span.
    pub fn zero() -> (d: Duration)
        ensures
            d@ == 0,
    {
        Duration { nanos: 0 }
    }

    /// The span of `nanos` nanoseconds.
    pub fn nanoseconds(nanos: i64) -> (d: Duration)
        ensures
            d@ == nanos,
    {
        Duration { nanos }
    }

    /// The span of `micros` microseconds, or `None` when it is not representable.
    pub fn microseconds(micros: i64) -> (r: Option<Duration>)
        ensures
            match r {
                Some(d) => d@ == micros * NANOS_PER_MICRO,
                None => !Self::representable(micros * NANOS_PER_MICRO),
            },
    {
        match micros.checked_mul(NANOS_PER_MICRO) {
            Some(nanos) => Some(Duration { nanos }),
            None => None,
        }
    }

    /// The span of `millis` milliseconds, or `None` when it is not representable.
    pub fn milliseconds(millis: i64) -> (r: Option<Duration>)
        ensures
            match r {
                Some(d) => d@ == millis * NANOS_PER_MILLI,
                None => !Self::representable(millis * NANOS_PER_MILLI),
            },
    {
        match millis.checked_mul(NANOS_PER_MILLI) {
            Some(nanos) => Some(Duration { nanos }),
            None => None,
        }
    }

    /// The span of `secs` seconds, or `None` when it is not representable.
    pub fn seconds(secs: i64) -> (r: Option<Duration>)
        ensures
            match r {
                Some(d) => d@ == secs * NANOS_PER_SEC,
                None => !Self::representable(secs * NANOS_PER_SEC),
            },
    {
        match secs.checked_mul(NANOS_PER_SEC) {
            Some(nanos) => Some(Duration { nanos }),
            None => None,
        }
    }

    /// The whole span in nanoseconds.
    pub fn num_nanoseconds(&self) -> (n: i64)
        ensures
            n == self@,
    {
        self.nanos
    }

    /// The number of whole microseconds in the span, rounded towards zero.
    pub fn num_microseconds(&self) -> (n: i64)
        ensures
            n == truncated_quotient(self@, NANOS_PER_MICRO as int),
    {
        self.nanos / NANOS_PER_MICRO
    }

    /// The number of whole milliseconds in the span, rounded towards zero.
    pub fn num_milliseconds(&self) -> (n: i64)
        ensures
            n == truncated_quotient(self@, NANOS_PER_MILLI as int),
    {
        self.nanos / NANOS_PER_MILLI
    }

    /// The number of whole seconds in the span, rounded towards zero.
    pub fn num_seconds(&self) -> (n: i64)
        ensures
            n == truncated_quotient(self@, NANOS_PER_SEC as int),
    {
        self.nanos / NANOS_PER_SEC
    }

    /// Whether the span is empty.
    pub fn is_zero(&self) -> (b: bool)
        ensures
            b <==> self@ == 0,
    {
        self.nanos == 0
    }

    /// Whether the span runs forwards in time.
    pub fn is_positive(&self) -> (b: bool)
        ensures
            b <==> self@ > 0,
    {
        self.nanos > 0
    }

    /// Whether the span runs backwards in time.
    pub fn is_negative(&self) -> (b: bool)
        ensures
            b <==> self@ < 0,
    {
        self.nanos < 0
    }

    /// The sum of two spans, or `None` when it is not representable.
    pub fn checked_add(&self, rhs: Duration) -> (r: Option<Duration>)
        ensures
            match r {
                Some(d) => d@ == self@ + rhs@,
                None => !Self::representable(self@ + rhs@),
            },
    {
        match self.nanos.checked_add(rhs.nanos) {
            Some(nanos) => Some(Duration { nanos }),
            None => None,
        }
    }

    /// The difference of two spans, or `None` when it is not representable.
    pub fn checked_sub(&self, rhs: Duration) -> (r: Option<Duration>)
        ensures
            match r {
                Some(d) => d@ == self@ - rhs@,
                None => !Self::representable(self@ - rhs@),
            },
    {
        match self.nanos.checked_sub(rhs.nanos) {
            Some(nanos) => Some(Duration { nanos }),
            None => None,
        }
    }

    /// The span repeated `factor` times, or `None` when it is not representable.
    pub fn checked_mul(&self, factor: i64) -> (r: Option<Duration>)
        ensures
            match r {
                Some(d) => d@ == self@ * factor,
                None => !Self::representable(self@ * factor),
            },
    {
        match self.nanos.checked_mul(factor) {
            Some(nanos) => Some(Duration { nanos }),
            None => None,
        }
    }
}

} // verus!
