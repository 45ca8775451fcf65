use junglebeast::utils::Interval;
use std::time::Duration;

#[test]
fn first_tick_has_no_delta() {
    let mut timer = Interval::new(Duration::from_millis(33));
    assert_eq!(timer.delta(), Duration::ZERO);
    assert!(timer.tick_at(1_000));
    assert_eq!(timer.delta(), Duration::ZERO);
}

#[test]
fn tick_needs_more_than_the_interval() {
    let mut timer = Interval::new(Duration::from_millis(33));
    assert!(timer.tick_at(1_000));
    assert!(!timer.tick_at(1_020));
    assert!(!timer.tick_at(1_033));
    assert!(timer.tick_at(1_034));
    assert_eq!(timer.delta(), Duration::from_millis(34));
}

#[test]
fn delta_is_the_time_between_ticks() {
    let mut timer = Interval::new(Duration::from_millis(33));
    assert!(timer.tick_at(1_000));
    assert!(timer.tick_at(1_050));
    assert_eq!(timer.delta(), Duration::from_millis(50));
    assert!(!timer.tick_at(1_060));
    assert_eq!(timer.delta(), Duration::from_millis(50));
    assert!(timer.tick_at(1_200));
    assert_eq!(timer.delta(), Duration::from_millis(150));
}

#[test]
fn no_tick_at_time_zero_or_backwards() {
    let mut timer = Interval::new(Duration::from_millis(0));
    assert!(!timer.tick_at(0));
    assert!(timer.tick_at(5));
    assert!(!timer.tick_at(3));
    assert!(!timer.tick_at(5));
    assert!(timer.tick_at(6));
    assert_eq!(timer.delta(), Duration::from_millis(1));
}

#[test]
fn interval_is_in_whole_milliseconds() {
    let mut timer = Interval::new(Duration::from_micros(2_999));
    assert!(!timer.tick_at(2));
    assert!(timer.tick_at(3));
}

#[test]
fn huge_interval_never_overflows() {
    let mut timer = Interval::new(Duration::from_millis(u64::MAX));
    assert!(!timer.tick_at(u64::MAX));
    let mut timer = Interval::new(Duration::from_millis(u64::MAX - 1));
    assert!(timer.tick_at(u64::MAX));
    assert!(!timer.tick_at(u64::MAX));
}

#[test]
fn try_new_refuses_what_does_not_fit() {
    assert!(Interval::try_new(Duration::from_millis(33)).is_some());
    assert!(Interval::try_new(Duration::from_millis(u64::MAX)).is_some());
    assert!(Interval::try_new(Duration::MAX).is_none());
}

#[test]
fn tick_reads_the_clock() {
    let mut timer = Interval::new(Duration::from_millis(33));
    assert!(timer.tick());
    assert_eq!(timer.delta(), Duration::ZERO);
    assert!(!timer.tick());
}
