//! Clock readings: points in time, as seconds and nanoseconds since the epoch.

use vstd::prelude::*;

use crate::duration::Duration;
use crate::duration::NANOS_PER_SEC;

verus! {

/// A clock reading: a point in time, held as whole seconds since the epoch
/// and the nanoseconds that follow them.
///
/// The nanoseconds always lie in `0..1_000_000_000`, so a reading before the
/// epoch has negative seconds and non-negative nanoseconds.
#[derive(Clone, Copy, Debug, PartialEq, Eq, PartialOrd, Ord, Hash)]
pub struct Timestamp {
    sec: i64,
    nsec: i32,
}

impl View for Timestamp {
    type V = int;

    /// The reading as a mathematical number of nanoseconds since the epoch.
    closed spec fn view(&self) -> int {
        self.sec * NANOS_PER_SEC + self.nsec
    }
}

/// Reads the local clock with `time::now` and hands back the seconds and
/// nanoseconds of that reading, as `Tm::to_timespec` gives them.
///
/// Trusted: the nanoseconds lie in `0..1_000_000_000`. Both `time::get_time`
/// and `Tm::to_timespec` build their result with `Timespec::new`, which
/// accepts no other value. Nothing is claimed about which instant is read.
/// Where the platform cannot give the local time at all, `time::now` does
/// not return.
#[verifier::external_body]
fn read_local_clock() -> (reading: (i64, i32))
    ensures
        0 <= reading.1 < 1_000_000_000,
{
    let timespec = time::now().to_timespec();
    (timespec.sec, timespec.nsec)
}

impl Timestamp {
    #[verifier::type_invariant]
    spec fn well_formed(self) -> bool {
        0 <= self.nsec < NANOS_PER_SEC
    }

    /// Whether a `Timestamp` can hold the point `nanos` nanoseconds after the
    /// epoch: its whole seconds must fit in an `i64`.
    pub open spec fn representable(nanos: int) -> bool {
        i64::MIN * NANOS_PER_SEC <= nanos < (i64::MAX + 1) * NANOS_PER_SEC
    }

    /// The reading `sec` seconds and `nsec` nanoseconds after the epoch, or
    /// `None` when `nsec` is not in `0..1_000_000_000`.
    pub fn new(sec: i64, nsec: i32) -> (r: Option<Timestamp>)
        ensures
            r is Some <==> 0 <= nsec < NANOS_PER_SEC,
            r matches Some(t) ==> t@ == sec * NANOS_PER_SEC + nsec && Self::representable(t@),
    {
        if 0 <= nsec && nsec < 1_000_000_000 {
            Some(Timestamp { sec, nsec })
        } else {
            None
        }
    }

    /// The current reading of the local clock.
    ///
    /// Which point in time comes back is up to the clock; whatever it is, it
    /// is a well-formed reading.
    pub fn now() -> (t: Timestamp)
        ensures
            Self::representable(t@),
    {
        let (sec, nsec) = read_local_clock();
        Timestamp::new(sec, nsec).unwrap()
    }

    /// Whole seconds since the epoch, rounded down.
    pub fn sec(&self) -> (s: i64)
        ensures
            s == self@ / (NANOS_PER_SEC as int),
    {
        proof {
            use_type_invariant(self);
            vstd::arithmetic::div_mod::lemma_fundamental_div_mod_converse(
                self@,
                NANOS_PER_SEC as int,
                self.sec as int,
                self.nsec as int,
            );
        }
        self.sec
    }

    /// Nanoseconds after the whole second, in `0..1_000_000_000`.
    pub fn nsec(&self) -> (n: i32)
        ensures
            n == self@ % (NANOS_PER_SEC as int),
    {
        proof {
            use_type_invariant(self);
            vstd::arithmetic::div_mod::lemma_fundamental_div_mod_converse(
                self@,
                NANOS_PER_SEC as int,
                self.sec as int,
                self.nsec as int,
            );
        }
        self.nsec
    }

    /// The signed number of nanoseconds from `earlier` to `self`; negative
    /// when `self` is the earlier of the two.
    pub fn nanos_since(&self, earlier: &Timestamp) -> (n: i128)
        ensures
            n == self@ - earlier@,
            Self::representable(self@),
            Self::representable(earlier@),
    {
        proof {
            use_type_invariant(self);
            use_type_invariant(earlier);
        }
        let secs: i128 = self.sec as i128 - earlier.sec as i128;
        let nanos: i128 = self.nsec as i128 - earlier.nsec as i128;
        secs * 1_000_000_000 + nanos
    }

    /// The span from `earlier` to `self`, or `None` when it is not
    /// representable as a `Duration`.
    pub fn duration_since(&self, earlier: &Timestamp) -> (r: Option<Duration>)
        ensures
            match r {
                Some(d) => d@ == self@ - earlier@,
                None => !Duration::representable(self@ - earlier@),
            },
    {
        let nanos: i128 = self.nanos_since(earlier);
        if nanos < i64::MIN as i128 || nanos > i64::MAX as i128 {
            None
        } else {
            Some(Duration::nanoseconds(nanos as i64))
        }
    }

    /// The reading `span` after `self` (before it, for a negative span), or
    /// `None` when it is not representable.
    pub fn checked_add(&self, span: Duration) -> (r: Option<Timestamp>)
        ensures
            match r {
                Some(t) => t@ == self@ + span@ && Self::representable(t@),
                None => !Self::representable(self@ + span@),
            },
    {
        proof {
            use_type_invariant(self);
        }
        let nanos: i128 = self.nsec as i128 + span.num_nanoseconds() as i128;
        let mut carry: i128 = nanos / 1_000_000_000;
        let mut nsec: i128 = nanos % 1_000_000_000;
        if nsec < 0 {
            carry = carry - 1;
            nsec = nsec + 1_000_000_000;
        }
        let sec: i128 = self.sec as i128 + carry;
        if sec < i64::MIN as i128 || sec > i64::MAX as i128 {
            None
        } else {
            Some(Timestamp { sec: sec as i64, nsec: nsec as i32 })
        }
    }
}

} // verus!
