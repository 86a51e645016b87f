use rtimer::clock_time::{ClockTime, TimeOrDuration};
use rtimer::session::{compute_session, SessionError, TimerSession};

const DAY: u64 = 86400;

fn at(day: u64, h: u64, m: u64, s: u64) -> u64 {
    day * DAY + h * 3600 + m * 60 + s
}

#[test]
fn duration_target_ends_after_the_span() {
    let now = at(20000, 12, 0, 0);
    let sess = compute_session(&TimeOrDuration::Duration(10), now).unwrap();
    assert_eq!(sess, TimerSession { start: now, end: now + 10 });
}

#[test]
fn zero_duration_ends_at_once() {
    let now = at(20000, 12, 0, 0);
    let sess = compute_session(&TimeOrDuration::Duration(0), now).unwrap();
    assert_eq!(sess.start, sess.end);
}

#[test]
fn duration_past_the_clock_range_is_rejected() {
    let r = compute_session(&TimeOrDuration::Duration(1), u64::MAX);
    assert_eq!(r, Err(SessionError::Overflow));
}

#[test]
fn future_clock_time_ends_today() {
    let now = at(20000, 9, 0, 0);
    let t = ClockTime { hour: 9, minute: 10, second: 3 };
    let sess = compute_session(&TimeOrDuration::FixedTime(t), now).unwrap();
    assert_eq!(sess, TimerSession { start: now, end: at(20000, 9, 10, 3) });
}

#[test]
fn past_clock_time_rolls_to_tomorrow() {
    let now = at(20000, 9, 10, 4);
    let t = ClockTime { hour: 9, minute: 10, second: 3 };
    let sess = compute_session(&TimeOrDuration::FixedTime(t), now).unwrap();
    assert_eq!(sess.end, at(20000, 9, 10, 3) + DAY);
}

#[test]
fn same_instant_clock_time_rolls_to_tomorrow() {
    let now = at(20000, 9, 10, 3);
    let t = ClockTime { hour: 9, minute: 10, second: 3 };
    let sess = compute_session(&TimeOrDuration::FixedTime(t), now).unwrap();
    assert_eq!(sess.end, now + DAY);
}

#[test]
fn midnight_target_just_after_midnight_rolls_a_whole_day() {
    let now = at(20000, 0, 0, 1);
    let t = ClockTime { hour: 0, minute: 0, second: 0 };
    let sess = compute_session(&TimeOrDuration::FixedTime(t), now).unwrap();
    assert_eq!(sess.end, at(20001, 0, 0, 0));
}
