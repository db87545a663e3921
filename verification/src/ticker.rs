//! The drift-compensating ticker.
//!
//! A ticker remembers when it last fired and how far apart its ticks are
//! meant to be. Shown a clock reading, it decides between two things: to
//! sleep until the next deadline, or, when the deadline has already passed,
//! to emit one tick that carries every whole interval gone by since it last
//! fired. A late ticker therefore never floods its consumer with stale
//! ticks, and never loses time either: the ticks it emits always add up to
//! the time by which its last fire has moved.
//!
//! The ticker itself neither sleeps nor sends. Whoever drives it performs
//! the action it hands back and then shows it the clock again.

use vstd::prelude::*;

use crate::duration::Duration;
use crate::timestamp::Timestamp;

verus! {

/// The mathematical state of a ticker, in nanoseconds.
pub struct TickerModel {
    /// The point of the most recent fire, or of the start before any fire.
    pub last: int,
    /// The nominal distance between two fires.
    pub interval: int,
}

impl TickerModel {
    /// A ticker's interval is positive.
    pub open spec fn wf(self) -> bool {
        self.interval > 0
    }

    /// The time left until the next deadline at the reading `now`; negative
    /// once the deadline has passed.
    pub open spec fn remaining(self, now: int) -> int {
        self.last + self.interval - now
    }

    /// Whether the deadline has passed at the reading `now`.
    pub open spec fn due(self, now: int) -> bool {
        self.remaining(now) < 0
    }

    /// The number of whole intervals between the last fire and `now`.
    pub open spec fn intervals_elapsed(self, now: int) -> int {
        (now - self.last) / self.interval
    }

    /// The time covered by the whole intervals between the last fire and `now`.
    pub open spec fn catch_up(self, now: int) -> int {
        self.intervals_elapsed(now) * self.interval
    }

    /// The span that a step at the reading `now` has to report: the time to
    /// catch up on when the deadline has passed, the time left otherwise.
    pub open spec fn pending(self, now: int) -> int {
        if self.due(now) {
            self.catch_up(now)
        } else {
            self.remaining(now)
        }
    }

    /// The elapsed time that a step at the reading `now` emits; zero when it
    /// emits nothing.
    pub open spec fn emitted(self, now: int) -> int {
        if self.due(now) {
            self.catch_up(now)
        } else {
            0
        }
    }

    /// The state after a step at the reading `now`.
    pub open spec fn step(self, now: int) -> TickerModel {
        if self.due(now) {
            TickerModel { last: self.last + self.catch_up(now), interval: self.interval }
        } else {
            self
        }
    }

    /// The state after one step at each of `readings`, in order.
    pub open spec fn run(self, readings: Seq<int>) -> TickerModel
        decreases readings.len(),
    {
        if readings.len() == 0 {
            self
        } else {
            self.run(readings.drop_last()).step(readings.last())
        }
    }

    /// The sum of everything emitted by one step at each of `readings`, in order.
    pub open spec fn total_emitted(self, readings: Seq<int>) -> int
        decreases readings.len(),
    {
        if readings.len() == 0 {
            0
        } else {
            self.total_emitted(readings.drop_last()) + self.run(readings.drop_last()).emitted(
                readings.last(),
            )
        }
    }

    /// The number of ticks emitted by one step at each of `readings`, in order.
    pub open spec fn ticks(self, readings: Seq<int>) -> nat
        decreases readings.len(),
    {
        if readings.len() == 0 {
            0
        } else if self.run(readings.drop_last()).due(readings.last()) {
            self.ticks(readings.drop_last()) + 1
        } else {
            self.ticks(readings.drop_last())
        }
    }

    /// Whether a step from `self` at the reading `now` ends with the result
    /// `r` in the state `post`. At most one pair of `r` and `post` does.
    pub open spec fn steps_to(
        self,
        now: int,
        r: Result<Action, TickerError>,
        post: TickerModel,
    ) -> bool {
        match r {
            Ok(Action::Sleep(span)) => {
                &&& !self.due(now)
                &&& span@ == self.remaining(now)
                &&& post == self
            },
            Ok(Action::Emit(elapsed)) => {
                &&& self.due(now)
                &&& elapsed@ == self.catch_up(now)
                &&& post == self.step(now)
            },
            Err(e) => {
                &&& e == TickerError::OutOfRange
                &&& !Duration::representable(self.pending(now))
                &&& post == self
            },
        }
    }
}

/// What a ticker asks of its driver after a step.
#[derive(Clone, Copy, Debug, PartialEq, Eq)]
pub enum Action {
    /// The deadline lies ahead: suspend for this span, then step again.
    Sleep(Duration),
    /// The deadline has passed: send a tick with this elapsed time, then
    /// step again without suspending.
    Emit(Duration),
}

/// Why a ticker could not be made or could not step.
#[derive(Clone, Copy, Debug, PartialEq, Eq)]
pub enum TickerError {
    /// The interval asked for is zero or negative.
    NonPositiveInterval,
    /// The span to report does not fit in a `Duration`.
    OutOfRange,
}

/// A drift-compensating ticker.
#[derive(Debug)]
pub struct Ticker {
    last: Timestamp,
    interval: Duration,
}

impl View for Ticker {
    type V = TickerModel;

    /// The ticker's last fire and interval as mathematical nanoseconds.
    closed spec fn view(&self) -> TickerModel {
        TickerModel { last: self.last@, interval: self.interval@ }
    }
}

/// A step is a function of the state and the reading: its result and the
/// state it leaves are determined by the two.
pub proof fn lemma_step_is_determined(
    m: TickerModel,
    now: int,
    r1: Result<Action, TickerError>,
    post1: TickerModel,
    r2: Result<Action, TickerError>,
    post2: TickerModel,
)
    requires
        m.steps_to(now, r1, post1),
        m.steps_to(now, r2, post2),
    ensures
        r1 == r2,
        post1 == post2,
{
    match (r1, r2) {
        (Ok(Action::Sleep(a)), Ok(Action::Sleep(b))) => {
            a.lemma_equal_lengths_are_equal(b);
        },
        (Ok(Action::Emit(a)), Ok(Action::Emit(b))) => {
            a.lemma_equal_lengths_are_equal(b);
        },
        (Ok(Action::Sleep(a)), Err(_)) => {
            a.lemma_equal_lengths_are_equal(a);
        },
        (Ok(Action::Emit(a)), Err(_)) => {
            a.lemma_equal_lengths_are_equal(a);
        },
        (Err(_), Ok(Action::Sleep(b))) => {
            b.lemma_equal_lengths_are_equal(b);
        },
        (Err(_), Ok(Action::Emit(b))) => {
            b.lemma_equal_lengths_are_equal(b);
        },
        _ => {},
    }
}

/// Once the deadline has passed, at least one whole interval has gone by.
/// The time to catch up on is then a positive number of intervals that
/// reaches to within one interval of the reading, and never beyond it.
pub proof fn lemma_catch_up_bounds(m: TickerModel, now: int)
    requires
        m.wf(),
        m.due(now),
    ensures
        m.intervals_elapsed(now) >= 1,
        m.catch_up(now) >= m.interval > 0,
        m.catch_up(now) == (now - m.last) - (now - m.last) % m.interval,
        now - m.interval < m.last + m.catch_up(now) <= now,
{
    let since = now - m.last;
    let count = since / m.interval;
    vstd::arithmetic::div_mod::lemma_fundamental_div_mod(since, m.interval);
    vstd::arithmetic::div_mod::lemma_mod_pos_bound(since, m.interval);
    assert(count * m.interval == m.interval * count) by (nonlinear_arith);
    assert(count >= 1) by (nonlinear_arith)
        requires
            m.interval > 0,
            m.interval * count > 0,
    ;
    assert(count * m.interval >= m.interval) by (nonlinear_arith)
        requires
            m.interval > 0,
            count >= 1,
    ;
}

/// Every tick carries a positive elapsed time: a step emits either nothing
/// or at least one interval.
pub proof fn lemma_emitted_positive(m: TickerModel, now: int)
    requires
        m.wf(),
    ensures
        m.due(now) ==> m.emitted(now) >= m.interval > 0,
        !m.due(now) ==> m.emitted(now) == 0,
{
    if m.due(now) {
        lemma_catch_up_bounds(m, now);
    }
}

/// A late ticker catches up in one tick. After it has emitted at the reading
/// `now`, its last fire lies within one interval before `now`, and a further
/// step at any reading up to `now` emits nothing: however long the ticker
/// was held up, no backlog of further ticks follows the one it sent.
pub proof fn lemma_catch_up_in_one_tick(m: TickerModel, now: int, again: int)
    requires
        m.wf(),
        m.due(now),
        again <= now,
    ensures
        now - m.interval < m.step(now).last <= now,
        !m.step(now).due(again),
        m.step(now).emitted(again) == 0,
        m.step(now).step(again) == m.step(now),
{
    lemma_catch_up_bounds(m, now);
}

/// A tick that is late by less than one interval carries exactly one
/// interval, so a ticker that is polled on time fires at its nominal pace.
pub proof fn lemma_on_time_tick(m: TickerModel, now: int)
    requires
        m.wf(),
        m.due(now),
        now - m.last < 2 * m.interval,
    ensures
        m.intervals_elapsed(now) == 1,
        m.emitted(now) == m.interval,
        m.step(now).last == m.last + m.interval,
{
    lemma_catch_up_bounds(m, now);
    let count = m.intervals_elapsed(now);
    assert(count < 2) by (nonlinear_arith)
        requires
            m.interval > 0,
            count * m.interval < 2 * m.interval,
    ;
}

/// A step keeps the interval and never moves the last fire backwards.
pub proof fn lemma_step_advances(m: TickerModel, now: int)
    requires
        m.wf(),
    ensures
        m.step(now).wf(),
        m.step(now).interval == m.interval,
        m.step(now).last == m.last + m.emitted(now),
        m.step(now).last >= m.last,
{
    if m.due(now) {
        lemma_catch_up_bounds(m, now);
    }
}

/// The ticks of a run add up to the distance by which the last fire has
/// moved: emitted spans follow one another without gap or overlap.
pub proof fn lemma_run_conserves_time(m: TickerModel, readings: Seq<int>)
    requires
        m.wf(),
    ensures
        m.run(readings).wf(),
        m.run(readings).interval == m.interval,
        m.total_emitted(readings) == m.run(readings).last - m.last,
        m.total_emitted(readings) >= 0,
    decreases readings.len(),
{
    if readings.len() > 0 {
        lemma_run_conserves_time(m, readings.drop_last());
        lemma_step_advances(m.run(readings.drop_last()), readings.last());
    }
}

/// Ticks are never more frequent than the interval allows: every tick of a
/// run carries at least one interval, so a run that emits `n` ticks has
/// moved the last fire by at least `n` intervals.
pub proof fn lemma_ticks_are_bounded(m: TickerModel, readings: Seq<int>)
    requires
        m.wf(),
    ensures
        m.ticks(readings) * m.interval <= m.total_emitted(readings),
        m.ticks(readings) <= readings.len(),
    decreases readings.len(),
{
    if readings.len() > 0 {
        let earlier = readings.drop_last();
        lemma_ticks_are_bounded(m, earlier);
        lemma_run_conserves_time(m, earlier);
        lemma_emitted_positive(m.run(earlier), readings.last());
        assert((m.ticks(earlier) + 1) * m.interval == m.ticks(earlier) * m.interval + m.interval)
            by (nonlinear_arith);
    } else {
        assert(0 * m.interval == 0);
    }
}

/// Whether a sequence of clock readings never goes backwards.
pub open spec fn non_decreasing(readings: Seq<int>) -> bool {
    forall|i: int, j: int| 0 <= i <= j < readings.len() ==> readings[i] <= readings[j]
}

/// No time is lost. Run a ticker over readings of a clock that does not go
/// backwards, the first of them not before the ticker's start. Then all its
/// ticks together cover the window from the start to the latest reading,
/// short by at most one interval and never long, into however many ticks the
/// window was split.
pub proof fn lemma_no_duration_lost(m: TickerModel, readings: Seq<int>)
    requires
        m.wf(),
        readings.len() > 0,
        non_decreasing(readings),
        m.last <= readings[0],
    ensures
        readings.last() - m.last - m.interval <= m.total_emitted(readings) <= readings.last()
            - m.last,
    decreases readings.len(),
{
    let earlier = readings.drop_last();
    let before = m.run(earlier);
    let now = readings.last();
    lemma_run_conserves_time(m, earlier);
    lemma_run_conserves_time(m, readings);
    if earlier.len() > 0 {
        lemma_no_duration_lost(m, earlier);
    }
    if before.due(now) {
        lemma_catch_up_bounds(before, now);
    }
}

impl Ticker {
    #[verifier::type_invariant]
    spec fn well_formed(self) -> bool {
        self.interval@ > 0
    }

    /// A ticker that counts from `start` and is meant to fire every
    /// `interval`. An interval that is not positive is refused.
    pub fn new(start: Timestamp, interval: Duration) -> (r: Result<Ticker, TickerError>)
        ensures
            match r {
                Ok(t) => interval@ > 0 && t@ == (TickerModel { last: start@, interval: interval@ }),
                Err(e) => interval@ <= 0 && e == TickerError::NonPositiveInterval,
            },
    {
        if interval.is_positive() {
            Ok(Ticker { last: start, interval })
        } else {
            Err(TickerError::NonPositiveInterval)
        }
    }

    /// A ticker that counts from the current reading of the local clock and
    /// is meant to fire every `interval`. An interval that is not positive
    /// is refused.
    pub fn start(interval: Duration) -> (r: Result<Ticker, TickerError>)
        ensures
            match r {
                Ok(t) => interval@ > 0 && t@.interval == interval@ && Timestamp::representable(
                    t@.last,
                ),
                Err(e) => interval@ <= 0 && e == TickerError::NonPositiveInterval,
            },
    {
        if interval.is_positive() {
            let start = Timestamp::now();
            Ok(Ticker { last: start, interval })
        } else {
            Err(TickerError::NonPositiveInterval)
        }
    }

    /// The point of the most recent fire, or of the start before any fire.
    pub fn last(&self) -> (t: Timestamp)
        ensures
            t@ == self@.last,
    {
        self.last
    }

    /// The nominal distance between two fires, which is positive.
    pub fn interval(&self) -> (d: Duration)
        ensures
            d@ == self@.interval,
            d@ > 0,
    {
        proof {
            use_type_invariant(self);
        }
        self.interval
    }

    /// One step of the ticker at the clock reading `now`.
    ///
    /// While the deadline `last + interval` has not passed, the ticker stays
    /// as it is and asks to sleep for the time that is left. Once it has
    /// passed, the ticker asks to emit the time covered by all whole
    /// intervals since its last fire, which is at least one interval, and
    /// moves its last fire forward by exactly that time. Where the span to
    /// report does not fit in a `Duration`, the step fails and the ticker
    /// stays as it is.
    pub fn step(&mut self, now: Timestamp) -> (r: Result<Action, TickerError>)
        ensures
            old(self)@.steps_to(now@, r, final(self)@),
            final(self)@.interval == old(self)@.interval,
            final(self)@.last == old(self)@.last + (if r is Ok {
                old(self)@.emitted(now@)
            } else {
                0
            }),
            r matches Ok(Action::Emit(elapsed)) ==> elapsed@ >= old(self)@.interval > 0,
            r matches Ok(Action::Sleep(span)) ==> span@ >= 0,
    {
        proof {
            use_type_invariant(&*self);
        }
        let since: i128 = now.nanos_since(&self.last);
        let interval: i128 = self.interval.num_nanoseconds() as i128;
        let remaining: i128 = interval - since;
        if remaining >= 0 {
            if remaining > i64::MAX as i128 {
                Err(TickerError::OutOfRange)
            } else {
                Ok(Action::Sleep(Duration::nanoseconds(remaining as i64)))
            }
        } else {
            let elapsed: i128 = since - since % interval;
            proof {
                lemma_catch_up_bounds(self@, now@);
            }
            if elapsed > i64::MAX as i128 {
                Err(TickerError::OutOfRange)
            } else {
                let elapsed = Duration::nanoseconds(elapsed as i64);
                // The new last fire is no later than `now`, so it is a reading.
                self.last = self.last.checked_add(elapsed).unwrap();
                Ok(Action::Emit(elapsed))
            }
        }
    }

    /// One step of the ticker at the current reading of the local clock.
    ///
    /// The result is that of `step` at whichever reading the clock gave.
    /// Whatever that was, a tick carries at least one interval, and the last
    /// fire moves by exactly what the tick carries.
    pub fn poll(&mut self) -> (r: Result<Action, TickerError>)
        ensures
            exists|now: int|
                Timestamp::representable(now) && #[trigger] old(self)@.steps_to(
                    now,
                    r,
                    final(self)@,
                ),
            final(self)@.interval == old(self)@.interval,
            r matches Ok(Action::Emit(elapsed)) ==> elapsed@ >= old(self)@.interval > 0
                && final(self)@.last == old(self)@.last + elapsed@,
            r matches Ok(Action::Sleep(span)) ==> span@ >= 0 && final(self)@ == old(self)@,
            r is Err ==> final(self)@ == old(self)@,
    {
        let now = Timestamp::now();
        self.step(now)
    }
}

} // verus!
