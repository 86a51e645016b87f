//! Clock-time targets: a literal `HH:MM:SS` time of day, and the combined
//! reading of an input string as either a duration or such a time.

use vstd::prelude::*;

use crate::digits::{digit_val, is_digit_char};
use crate::duration::{parse_duration, spec_parse_duration};

verus! {

/// A time of day on a 24-hour clock.
#[derive(Clone, Copy, Debug, PartialEq, Eq)]
pub struct ClockTime {
    pub hour: u8,
    pub minute: u8,
    pub second: u8,
}

impl ClockTime {
    /// The fields stay on the dial: hours below 24, minutes and seconds
    /// below 60.
    pub open spec fn wf(self) -> bool {
        self.hour < 24 && self.minute < 60 && self.second < 60
    }

    /// The time as seconds past midnight.
    pub open spec fn spec_total_secs(self) -> int {
        self.hour * 3600 + self.minute * 60 + self.second
    }

    /// The time as seconds past midnight; always below one day.
    pub fn total_secs(&self) -> (r: u64)
        requires
            self.wf(),
        ensures
            r as int == self.spec_total_secs(),
            r < 86400,
    {
        self.hour as u64 * 3600 + self.minute as u64 * 60 + self.second as u64
    }
}

/// Whether eight characters read as a well-formed `HH:MM:SS` time:
/// two-digit zero-padded fields, colons between them, hours below 24,
/// minutes and seconds below 60.
pub open spec fn is_clock_time_str(s: Seq<char>) -> bool {
    &&& s.len() == 8
    &&& is_digit_char(s[0]) && is_digit_char(s[1])
    &&& s[2] == ':'
    &&& is_digit_char(s[3]) && is_digit_char(s[4])
    &&& s[5] == ':'
    &&& is_digit_char(s[6]) && is_digit_char(s[7])
    &&& digit_val(s[0]) * 10 + digit_val(s[1]) < 24
    &&& digit_val(s[3]) * 10 + digit_val(s[4]) < 60
    &&& digit_val(s[6]) * 10 + digit_val(s[7]) < 60
}

/// The time that a well-formed `HH:MM:SS` string names.
pub open spec fn spec_clock_time(s: Seq<char>) -> ClockTime {
    ClockTime {
        hour: (digit_val(s[0]) * 10 + digit_val(s[1])) as u8,
        minute: (digit_val(s[3]) * 10 + digit_val(s[4])) as u8,
        second: (digit_val(s[6]) * 10 + digit_val(s[7])) as u8,
    }
}

fn two_digit_field(s: &str, at: usize) -> (r: Option<u8>)
    requires
        at + 2 <= s@.len(),
        s@.len() <= usize::MAX as int,
    ensures
        match r {
            Some(v) => is_digit_char(s@[at as int]) && is_digit_char(s@[at + 1]) && v as int
                == digit_val(s@[at as int]) * 10 + digit_val(s@[at + 1]),
            None => !(is_digit_char(s@[at as int]) && is_digit_char(s@[at + 1])),
        },
{
    let c0 = s.get_char(at);
    let c1 = s.get_char(at + 1);
    let u0 = c0 as u32;
    let u1 = c1 as u32;
    if 48 <= u0 && u0 <= 57 && 48 <= u1 && u1 <= 57 {
        Some(((u0 - 48) * 10 + (u1 - 48)) as u8)
    } else {
        None
    }
}

/// Parse a literal `HH:MM:SS` time of day. Any other shape, or a field
/// off the dial, yields nothing.
pub fn parse_clock_time(s: &str) -> (r: Option<ClockTime>)
    ensures
        match r {
            Some(t) => is_clock_time_str(s@) && t == spec_clock_time(s@) && t.wf(),
            None => !is_clock_time_str(s@),
        },
{
    let n = s.unicode_len();
    if n != 8 {
        return None;
    }
    if !(s.get_char(2) == ':' && s.get_char(5) == ':') {
        return None;
    }
    let hour = match two_digit_field(s, 0) {
        Some(v) => v,
        None => {
            return None;
        },
    };
    let minute = match two_digit_field(s, 3) {
        Some(v) => v,
        None => {
            return None;
        },
    };
    let second = match two_digit_field(s, 6) {
        Some(v) => v,
        None => {
            return None;
        },
    };
    if hour < 24 && minute < 60 && second < 60 {
        Some(ClockTime { hour, minute, second })
    } else {
        None
    }
}

/// A timer target: either a relative duration in seconds, or an absolute
/// time of day to run until.
#[derive(Clone, Copy, Debug, PartialEq, Eq)]
pub enum TimeOrDuration {
    Duration(u64),
    FixedTime(ClockTime),
}

impl TimeOrDuration {
    /// A fixed-time target carries a well-formed time of day.
    pub open spec fn wf(self) -> bool {
        match self {
            TimeOrDuration::Duration(_) => true,
            TimeOrDuration::FixedTime(t) => t.wf(),
        }
    }
}

/// Whether an input string names a timer target at all: the duration
/// grammar is tried first, the clock-time grammar only after it fails.
pub open spec fn spec_target(s: Seq<char>) -> Option<TimeOrDuration> {
    match spec_parse_duration(s) {
        Ok(t) => if t <= u64::MAX as int {
            Some(TimeOrDuration::Duration(t as u64))
        } else {
            None
        },
        Err(_) => if is_clock_time_str(s) {
            Some(TimeOrDuration::FixedTime(spec_clock_time(s)))
        } else {
            None
        },
    }
}

/// Read an input string as a duration (`1h30m`, `90s`), or failing that
/// as a literal time of day (`09:10:03`). Anything else is rejected with
/// a line naming the input.
pub fn parse_time_or_duration(s: &str) -> (r: Result<TimeOrDuration, String>)
    ensures
        match r {
            Ok(t) => spec_target(s@) == Some(t) && t.wf(),
            Err(e) => spec_target(s@) is None && e@ == "Invalid time or duration format: "@ + s@,
        },
{
    match parse_duration(s) {
        Ok(d) => {
            proof {
                assert(spec_target(s@) == Some(TimeOrDuration::Duration(d)));
            }
            Ok(TimeOrDuration::Duration(d))
        },
        Err(e) => {
            if matches!(e, crate::duration::ParseError::Overflow) {
                proof {
                    crate::duration::lemma_parse_groups_no_overflow(s@, Seq::empty(), 0);
                    assert(spec_target(s@) is None);
                }
                Err(String::from_str("Invalid time or duration format: ").concat(s))
            } else {
                proof {
                    assert(spec_parse_duration(s@) is Err);
                }
                match parse_clock_time(s) {
                    Some(t) => Ok(TimeOrDuration::FixedTime(t)),
                    None => Err(String::from_str("Invalid time or duration format: ").concat(s)),
                }
            }
        },
    }
}

} // verus!
