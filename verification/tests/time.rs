use pandemic::time::{AnyTime, Duration, Time};

#[test]
fn hours_and_seconds_are_counted_in_milliseconds() {
    assert_eq!(Duration::hours(1).inner_milliseconds(), 3_600_000);
    assert_eq!(Duration::hours(0).inner_milliseconds(), 0);
    assert_eq!(Duration::seconds(30).inner_milliseconds(), 30_000);
    assert_eq!(Duration::seconds(-2).inner_milliseconds(), -2_000);
    assert_eq!(Duration::milliseconds(17), Duration { ms: 17 });
    assert_eq!(Duration::zero(), Duration { ms: 0 });
}

#[test]
fn constructors_stop_at_the_ends_of_the_range() {
    assert_eq!(Duration::seconds(i64::MAX).inner_milliseconds(), i64::MAX);
    assert_eq!(Duration::seconds(i64::MIN).inner_milliseconds(), i64::MIN);
    assert_eq!(Duration::hours(usize::MAX).inner_milliseconds(), i64::MAX);
}

#[test]
fn time_arithmetic_is_exact_within_the_range() {
    let t = Time::milliseconds(5_000);
    assert_eq!(t.add(Duration::seconds(3)), Time { ms: 8_000 });
    assert_eq!(t.add(Duration::seconds(-7)), Time { ms: -2_000 });
    assert_eq!(Time::milliseconds(9_000).since(t), Duration { ms: 4_000 });
    assert_eq!(t.since(Time::milliseconds(9_000)), Duration { ms: -4_000 });
    assert_eq!(t.max(Time::milliseconds(9_000)), Time { ms: 9_000 });
    assert_eq!(Time::milliseconds(9_000).max(t), Time { ms: 9_000 });
    assert_eq!(Time::start_of_day().inner_milliseconds(), 0);
}

#[test]
fn time_arithmetic_saturates() {
    let late = Time::milliseconds(i64::MAX - 1);
    assert_eq!(late.add(Duration::milliseconds(5)), Time { ms: i64::MAX });
    let early = Time::milliseconds(i64::MIN + 1);
    assert_eq!(early.add(Duration::milliseconds(-5)), Time { ms: i64::MIN });
    assert_eq!(late.since(early), Duration { ms: i64::MAX });
    assert_eq!(early.since(late), Duration { ms: i64::MIN });
}

#[test]
fn infinity_absorbs_every_span() {
    let never = AnyTime::infinity();
    assert!(!never.is_finite());
    assert_eq!(never.add(Duration::hours(3)), AnyTime::Infinite);
    assert_eq!(never.sub(Duration::hours(3)), AnyTime::Infinite);
    assert_eq!(never.into_time(), None);
}

#[test]
fn finite_any_time_behaves_like_time() {
    let at = AnyTime::from_time(Time::milliseconds(1_000));
    assert!(at.is_finite());
    assert_eq!(at.add(Duration::seconds(2)), AnyTime::Finite(Time { ms: 3_000 }));
    assert_eq!(at.sub(Duration::seconds(2)), AnyTime::Finite(Time { ms: -1_000 }));
    assert_eq!(at.into_time(), Some(Time { ms: 1_000 }));
    assert_eq!(
        AnyTime::Finite(Time { ms: i64::MIN }).sub(Duration::milliseconds(1)),
        AnyTime::Finite(Time { ms: i64::MIN })
    );
}
