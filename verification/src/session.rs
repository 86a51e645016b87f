//! The timer session: combining a parsed target with the current local
//! time to fix the start and end timestamps.
//!
//! Timestamps are local civil time counted as whole seconds: the day
//! number times 86400 plus the seconds past that day's midnight. A fixed
//! clock-time target names the next such instant, today or — when it has
//! already passed — exactly one day later.

use vstd::prelude::*;

use crate::clock_time::TimeOrDuration;

verus! {

/// Why a session could not be fixed.
#[derive(Clone, Copy, Debug, PartialEq, Eq)]
pub enum SessionError {
    /// The clock reported a day before the calendar's epoch.
    ClockOutOfRange,
    /// The deadline does not fit in a 64-bit second count.
    Overflow,
}

/// One timer run: fixed at creation, read every tick.
#[derive(Clone, Copy, Debug, PartialEq, Eq)]
pub struct TimerSession {
    /// The local second the timer was started at.
    pub start: u64,
    /// The local second the timer expires at.
    pub end: u64,
}

impl TimerSession {
    /// The end never lies before the start.
    pub open spec fn wf(self) -> bool {
        self.start <= self.end
    }
}

/// What session a target fixes at a given current second `now`:
/// a duration ends that many seconds after `now`; a clock time ends at
/// today's such instant, or exactly one day later when that instant is
/// `now` or earlier. A deadline beyond 64 bits is rejected.
pub open spec fn spec_compute_session(target: TimeOrDuration, now: u64) -> Result<
    TimerSession,
    SessionError,
> {
    match target {
        TimeOrDuration::Duration(d) => if now + d <= u64::MAX as int {
            Ok(TimerSession { start: now, end: (now + d) as u64 })
        } else {
            Err(SessionError::Overflow)
        },
        TimeOrDuration::FixedTime(t) => {
            let today = now - now % 86400;
            let candidate = today + t.spec_total_secs();
            let end = if candidate <= now {
                candidate + 86400
            } else {
                candidate
            };
            if end <= u64::MAX as int {
                Ok(TimerSession { start: now, end: end as u64 })
            } else {
                Err(SessionError::Overflow)
            }
        },
    }
}

/// Fix the session for a target at the current second `now`. For a clock
/// time `t`, the end is today's date combined with `t`; exactly when that
/// instant is `now` or earlier, one day — 86400 seconds — is added once.
pub fn compute_session(target: &TimeOrDuration, now: u64) -> (r: Result<
    TimerSession,
    SessionError,
>)
    requires
        target.wf(),
    ensures
        r == spec_compute_session(*target, now),
        r matches Ok(sess) ==> sess.wf() && sess.start == now,
{
    match target {
        TimeOrDuration::Duration(d) => {
            match now.checked_add(*d) {
                Some(end) => Ok(TimerSession { start: now, end }),
                None => Err(SessionError::Overflow),
            }
        },
        TimeOrDuration::FixedTime(t) => {
            proof {
                assert(now % 86400 <= now) by (nonlinear_arith)
                    requires
                        now >= 0,
                ;
            }
            let today = now - now % 86400;
            let secs = t.total_secs();
            match today.checked_add(secs) {
                Some(candidate) => {
                    if candidate <= now {
                        match candidate.checked_add(86400) {
                            Some(end) => Ok(TimerSession { start: now, end }),
                            None => Err(SessionError::Overflow),
                        }
                    } else {
                        Ok(TimerSession { start: now, end: candidate })
                    }
                },
                None => Err(SessionError::Overflow),
            }
        },
    }
}

/// The rollover rule, spelled out against the naive combination of
/// today's date and the target time: when the target time of day has
/// already passed — or is this very second — the deadline is exactly one
/// day, 86400 seconds, after that combination; when it still lies ahead,
/// the deadline is the combination itself, with no rollover.
pub proof fn lemma_deadline_rollover(t: crate::clock_time::ClockTime, now: u64)
    requires
        t.wf(),
        now + 2 * 86400 <= u64::MAX,
    ensures
        ({
            let today_at_t = now - now % 86400 + t.spec_total_secs();
            let r = spec_compute_session(crate::clock_time::TimeOrDuration::FixedTime(t), now);
            &&& r is Ok
            &&& t.spec_total_secs() <= now % 86400 ==> r->Ok_0.end == today_at_t + 86400
            &&& t.spec_total_secs() > now % 86400 ==> r->Ok_0.end == today_at_t
        }),
{
    assert(0 <= now % 86400 < 86400) by (nonlinear_arith)
        requires
            now >= 0,
    ;
}

/// Relies on chrono: `Local::now` for the current local date and time,
/// `DateTime::date_naive` and `Datelike::num_days_from_ce` for the day
/// count of the proleptic Gregorian calendar (January 1 of year 1 is day
/// 1; earlier days are negative), and `DateTime::time` with
/// `Timelike::num_seconds_from_midnight` for the seconds past midnight,
/// which chrono documents as 0 to 86399.
#[verifier::external_body]
fn local_now_parts() -> (r: (i32, u32))
    ensures
        r.1 < 86400,
{
    let now = chrono::Local::now();
    (
        chrono::Datelike::num_days_from_ce(&now.date_naive()),
        chrono::Timelike::num_seconds_from_midnight(&now.time()),
    )
}

/// Read the clock and fix the session for a target: the start is the
/// current local second, the end what `spec_compute_session` says for it.
/// A clock before the calendar's epoch is rejected rather than wrapped.
pub fn start_session(target: &TimeOrDuration) -> (r: Result<(TimerSession, u64), SessionError>)
    requires
        target.wf(),
    ensures
        r matches Ok(p) ==> spec_compute_session(*target, p.1) == Ok::<TimerSession, SessionError>(
            p.0,
        ) && p.0.wf() && p.0.start == p.1,
{
    let now = local_now()?;
    let sess = compute_session(target, now)?;
    Ok((sess, now))
}

/// Read the clock as a local-civil-time second count: the day number
/// times 86400 plus the seconds past midnight. What second it is depends
/// on the clock alone; only a day before the epoch is rejected.
pub fn local_now() -> (r: Result<u64, SessionError>) {
    let (days, secs) = local_now_parts();
    if days < 0 {
        return Err(SessionError::ClockOutOfRange);
    }
    let day_count = days as u64;
    Ok(day_count * 86400 + secs as u64)
}

} // verus!
