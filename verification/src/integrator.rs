//! Discrete integration over ticks.
//!
//! An integrator owns an accumulator. At every tick it is handed the value
//! that its input holds at that moment together with the time the tick
//! carries, and a combining function makes the next accumulator out of the
//! three. With `f(acc, a, dt) = acc + a * dt` this is Euler's rule. A tick
//! that makes up for drift carries several intervals at once, so the
//! combining function has to take whatever positive span it is given.

use vstd::prelude::*;

use crate::duration::Duration;

verus! {

/// Whether `trace` lists the accumulators of a fold of `f` over `events`:
/// one more than there are events, each but the first being one that `f`
/// may return for the accumulator before it, the sample of the event
/// between the two and that event's elapsed time.
pub open spec fn is_fold_trace<A, B, F: Fn(B, A, Duration) -> B>(
    f: F,
    events: Seq<(A, Duration)>,
    trace: Seq<B>,
) -> bool {
    &&& trace.len() == events.len() + 1
    &&& forall|i: int|
        #![trigger trace[i]]
        #![trigger events[i]]
        0 <= i < events.len() ==> f.ensures((trace[i], events[i].0, events[i].1), trace[i + 1])
}

/// Whether folding `f` over `events`, first to last, starting from `initial`
/// may end in `result`.
pub open spec fn folds_to<A, B, F: Fn(B, A, Duration) -> B>(
    f: F,
    initial: B,
    events: Seq<(A, Duration)>,
    result: B,
) -> bool {
    exists|trace: Seq<B>|
        {
            &&& #[trigger] is_fold_trace(f, events, trace)
            &&& trace.first() == initial
            &&& trace.last() == result
        }
}

/// The accumulator after one tick: `f` applied to the accumulator before
/// it, the input's value sampled at the tick, and the tick's elapsed time.
pub fn integrate_step<A, B, F: Fn(B, A, Duration) -> B>(
    f: &F,
    accumulator: B,
    sample: A,
    elapsed: Duration,
) -> (next: B)
    requires
        f.requires((accumulator, sample, elapsed)),
    ensures
        f.ensures((accumulator, sample, elapsed), next),
{
    f(accumulator, sample, elapsed)
}

/// The accumulator after a finished run of ticks: the fold of `f` over the
/// sampled values and elapsed times in `events`, first to last, starting
/// from `initial`. With no events the result is `initial`.
pub fn integrate_events<A, B, F: Fn(B, A, Duration) -> B>(
    initial: B,
    events: Vec<(A, Duration)>,
    f: &F,
) -> (result: B)
    requires
        forall|accumulator: B, i: int|
            0 <= i < events.len() ==> #[trigger] f.requires(
                (accumulator, events[i].0, events[i].1),
            ),
    ensures
        folds_to(*f, initial, events@, result),
{
    let ghost all = events@;
    let ghost mut trace = seq![initial];
    let mut accumulator = initial;
    for event in it: events.into_iter()
        invariant
            it.seq() == all,
            forall|accumulator: B, i: int|
                0 <= i < all.len() ==> #[trigger] f.requires((accumulator, all[i].0, all[i].1)),
            is_fold_trace(*f, all.take(it.index() as int), trace),
            trace.first() == initial,
            trace.last() == accumulator,
    {
        let ghost done = it.index() as int;
        let ghost earlier = trace;
        assert(event == all[done]);
        let (sample, elapsed) = event;
        accumulator = integrate_step(f, accumulator, sample, elapsed);
        proof {
            trace = earlier.push(accumulator);
            let seen = all.take(done + 1);
            assert forall|i: int|
                #![trigger trace[i]]
                #![trigger seen[i]]
                0 <= i < seen.len() implies f.ensures(
                    (trace[i], seen[i].0, seen[i].1),
                    trace[i + 1],
                ) by {
                // An earlier event is the same in the shorter prefix.
                if i < done {
                    assert(seen[i] == all.take(done)[i]);
                }
            }
        }
    }
    proof {
        assert(all.take(all.len() as int) == all);
    }
    accumulator
}

} // verus!
