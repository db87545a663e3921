use carboxyl::Signal;
use carboxyl::Sink;
use carboxyl_time::Duration;
use carboxyl_time::Timestamp;

fn reading(sec: i64, nsec: i32) -> Timestamp {
    Timestamp::new(sec, nsec).unwrap()
}

#[test]
fn nanoseconds_must_lie_within_a_second() {
    assert!(Timestamp::new(0, 0).is_some());
    assert!(Timestamp::new(0, 999_999_999).is_some());
    assert_eq!(Timestamp::new(0, 1_000_000_000), None);
    assert_eq!(Timestamp::new(0, -1), None);
    assert_eq!(Timestamp::new(5, i32::MAX), None);
    assert_eq!(Timestamp::new(5, i32::MIN), None);
    assert!(Timestamp::new(i64::MAX, 999_999_999).is_some());
    assert!(Timestamp::new(i64::MIN, 0).is_some());
}

#[test]
fn parts_are_read_back() {
    let t = reading(1_700_000_000, 123_456_789);
    assert_eq!(t.sec(), 1_700_000_000);
    assert_eq!(t.nsec(), 123_456_789);
    // 1.2 s before the epoch: two seconds back, 0.8 s forward.
    let t = reading(-2, 800_000_000);
    assert_eq!(t.sec(), -2);
    assert_eq!(t.nsec(), 800_000_000);
}

#[test]
fn differences_are_exact() {
    let a = reading(10, 250_000_000);
    let b = reading(12, 100_000_000);
    assert_eq!(b.nanos_since(&a), 1_850_000_000);
    assert_eq!(a.nanos_since(&b), -1_850_000_000);
    assert_eq!(a.nanos_since(&a), 0);
    assert_eq!(b.duration_since(&a), Some(Duration::nanoseconds(1_850_000_000)));
    assert_eq!(a.duration_since(&b), Some(Duration::nanoseconds(-1_850_000_000)));

    let before_epoch = reading(-2, 800_000_000);
    let after_epoch = reading(0, 300_000_000);
    assert_eq!(after_epoch.nanos_since(&before_epoch), 1_500_000_000);
}

#[test]
fn differences_span_the_whole_range() {
    let first = reading(i64::MIN, 0);
    let last = reading(i64::MAX, 999_999_999);
    let widest: i128 = (i64::MAX as i128 - i64::MIN as i128) * 1_000_000_000 + 999_999_999;
    assert_eq!(last.nanos_since(&first), widest);
    assert_eq!(first.nanos_since(&last), -widest);
    assert_eq!(last.duration_since(&first), None);
    assert_eq!(first.duration_since(&last), None);
}

#[test]
fn a_difference_must_fit_a_duration() {
    let epoch = reading(0, 0);
    // i64::MAX ns is 9_223_372_036 s and 854_775_807 ns.
    let edge = reading(9_223_372_036, 854_775_807);
    let beyond = reading(9_223_372_036, 854_775_808);
    assert_eq!(edge.duration_since(&epoch), Some(Duration::nanoseconds(i64::MAX)));
    assert_eq!(beyond.duration_since(&epoch), None);
    assert_eq!(epoch.duration_since(&beyond), Some(Duration::nanoseconds(i64::MIN)));
    let further = reading(9_223_372_036, 854_775_809);
    assert_eq!(epoch.duration_since(&further), None);
}

#[test]
fn adding_a_span_carries_into_the_seconds() {
    let t = reading(10, 900_000_000);
    let later = t.checked_add(Duration::milliseconds(250).unwrap()).unwrap();
    assert_eq!((later.sec(), later.nsec()), (11, 150_000_000));
    let same = t.checked_add(Duration::zero()).unwrap();
    assert_eq!(same, t);
    let much_later = t.checked_add(Duration::seconds(3).unwrap()).unwrap();
    assert_eq!((much_later.sec(), much_later.nsec()), (13, 900_000_000));
}

#[test]
fn adding_a_negative_span_borrows_from_the_seconds() {
    let t = reading(10, 100_000_000);
    let earlier = t.checked_add(Duration::milliseconds(-250).unwrap()).unwrap();
    assert_eq!((earlier.sec(), earlier.nsec()), (9, 850_000_000));
    let epoch = reading(0, 0);
    let before = epoch.checked_add(Duration::nanoseconds(-1)).unwrap();
    assert_eq!((before.sec(), before.nsec()), (-1, 999_999_999));
    let whole = epoch.checked_add(Duration::seconds(-2).unwrap()).unwrap();
    assert_eq!((whole.sec(), whole.nsec()), (-2, 0));
}

#[test]
fn adding_beyond_the_range_is_refused() {
    let last = reading(i64::MAX, 999_999_999);
    assert_eq!(last.checked_add(Duration::nanoseconds(1)), None);
    assert_eq!(last.checked_add(Duration::zero()), Some(last));
    let first = reading(i64::MIN, 0);
    assert_eq!(first.checked_add(Duration::nanoseconds(-1)), None);
    let near = reading(i64::MAX, 0);
    let end = near.checked_add(Duration::nanoseconds(999_999_999)).unwrap();
    assert_eq!(end, last);
    assert_eq!(near.checked_add(Duration::seconds(1).unwrap()), None);
}

#[test]
fn adding_then_measuring_gives_the_span_back() {
    let t = reading(1_700_000_000, 999_999_999);
    for nanos in [1i64, -1, 999_999_999, -999_999_999, 20_000_000, -3_000_000_001, i64::MAX] {
        let span = Duration::nanoseconds(nanos);
        let moved = t.checked_add(span).unwrap();
        assert_eq!(moved.duration_since(&t), Some(span));
        assert_eq!(moved.nanos_since(&t), nanos as i128);
    }
}

#[test]
fn readings_are_ordered_in_time() {
    assert!(reading(1, 999_999_999) < reading(2, 0));
    assert!(reading(-2, 800_000_000) < reading(-1, 0));
    assert!(reading(3, 1) > reading(3, 0));
    assert_eq!(reading(3, 1), reading(3, 1));
}

#[test]
fn the_clock_is_the_local_clock() {
    let before = time::get_time();
    let read = Timestamp::now();
    let after = time::get_time();
    assert!((before.sec, before.nsec) <= (read.sec(), read.nsec()));
    assert!((read.sec(), read.nsec()) <= (after.sec, after.nsec));
    assert!(0 <= read.nsec() && read.nsec() < 1_000_000_000);
}

fn wait_until(start: &Timestamp, nanos: i128) {
    while Timestamp::now().nanos_since(start) < nanos {}
}

#[test]
fn now_consistent_with_sleep_ms() {
    let t0 = Timestamp::now();
    for n in 0..5 {
        let asleep = Timestamp::now();
        wait_until(&asleep, n as i128 * 1_000_000);
        let dt = Timestamp::now().duration_since(&t0).unwrap();
        assert!(dt > Duration::milliseconds(n as i64).unwrap());
    }
}

#[test]
fn now_samples_equal() {
    // One signal of the clock, sampled twice within one transaction.
    let clock: Signal<Timestamp> = carboxyl::lift::lift0(Timestamp::now);
    let sink = Sink::new();
    let cmp = clock.snapshot(
        &clock.snapshot(&sink.stream(), |t, ()| t),
        |t0, t1| (t0, t1),
    );
    let mut events = cmp.events();
    sink.send(());
    let (t0, t1) = events.next().unwrap();
    assert_eq!(t0, t1);
}
