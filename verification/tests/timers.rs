use finny::fsm::timers::{FsmTimers, TimerSettings};
use finny::timers::TimersStd;
use std::time::Duration;

fn timeout(ms: u64) -> TimerSettings {
    TimerSettings { enabled: true, timeout: Duration::from_millis(ms), renew: false }
}

fn interval(ms: u64) -> TimerSettings {
    TimerSettings { enabled: true, timeout: Duration::from_millis(ms), renew: true }
}

#[test]
fn timeout_fires_once() {
    let mut timers = TimersStd::new();
    timers.create(1, &timeout(0)).unwrap();
    assert_eq!(Some(1), timers.poll_at(u128::MAX));
    assert_eq!(None, timers.poll_at(u128::MAX));
}

#[test]
fn timeout_waits_for_its_duration() {
    let mut timers = TimersStd::new();
    timers.create(1, &timeout(60_000)).unwrap();
    assert_eq!(None, timers.poll_at(0));
    assert_eq!(None, timers.get_triggered_timer());
    assert_eq!(Some(1), timers.poll_at(61_000_000_000));
}

#[test]
fn interval_reports_missed_repetitions() {
    let mut timers = TimersStd::new();
    timers.create(2, &interval(1000)).unwrap();
    // three and a half intervals later: this firing and two missed ones
    let now = 3_500_000_000u128;
    assert_eq!(Some(2), timers.poll_at(now));
    assert_eq!(Some(2), timers.poll_at(now));
    assert_eq!(Some(2), timers.poll_at(now));
    assert_eq!(None, timers.poll_at(now));
    // restarted at `now`
    assert_eq!(Some(2), timers.poll_at(now + 1_000_000_000));
    assert_eq!(None, timers.poll_at(now + 1_000_000_000));
}

#[test]
fn cancel_and_replace() {
    let mut timers = TimersStd::new();
    timers.create(1, &timeout(0)).unwrap();
    timers.create(2, &timeout(0)).unwrap();
    timers.cancel(1).unwrap();
    assert_eq!(Some(2), timers.poll_at(u128::MAX));
    assert_eq!(None, timers.poll_at(u128::MAX));
    // creating an id again replaces its timer
    timers.create(3, &timeout(0)).unwrap();
    timers.create(3, &timeout(0)).unwrap();
    assert_eq!(Some(3), timers.poll_at(u128::MAX));
    assert_eq!(None, timers.poll_at(u128::MAX));
}

#[test]
fn create_at_starts_the_timer_at_the_given_time() {
    let mut timers = TimersStd::new();
    timers.create_at(1, &timeout(10), 0);
    assert_eq!(None, timers.poll_at(9_999_999));
    assert_eq!(Some(1), timers.poll_at(10_000_000));
    timers.create_at(2, &interval(10), 5_000_000);
    timers.create_at(2, &timeout(10), 50_000_000);
    assert_eq!(None, timers.poll_at(59_999_999));
    assert_eq!(Some(2), timers.poll_at(60_000_000));
}

#[test]
fn cancel_after_start_leaves_the_other_timers() {
    let mut timers = TimersStd::new();
    timers.create_at(1, &timeout(10), 0);
    timers.create_at(2, &timeout(5), 0);
    timers.create_at(2, &interval(1), 3_000_000);
    assert_eq!(Ok(()), timers.cancel(2));
    assert_eq!(None, timers.poll_at(9_999_999));
    assert_eq!(Some(1), timers.poll_at(10_000_000));
    assert_eq!(None, timers.poll_at(100_000_000));
}
