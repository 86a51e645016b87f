//! The render loop's pure side: for a session and a sampled current
//! second, whether the loop is over, and if not, the exact lines to draw.

use vstd::prelude::*;

use crate::clock_face::{clock_grid, create_ascii_clock};
use crate::digits::{pad2, pad2_string};
use crate::session::TimerSession;

verus! {

/// A whole-second count rendered as zero-padded `HH:MM:SS`: whole hours,
/// whole minutes of the hour, whole seconds of the minute.
pub open spec fn fmt_hms(total: int) -> Seq<char> {
    pad2(total / 3600) + seq![':'] + pad2((total / 60) % 60) + seq![':'] + pad2(total % 60)
}

/// Render a whole-second count as zero-padded `HH:MM:SS`.
pub fn format_hms(total: u64) -> (r: String)
    ensures
        r@ == fmt_hms(total as int),
{
    let h = total / 3600;
    let m = (total / 60) % 60;
    let s = total % 60;
    let mut out = pad2_string(h);
    out.append(":");
    let mm = pad2_string(m);
    out.append(mm.as_str());
    out.append(":");
    let ss = pad2_string(s);
    out.append(ss.as_str());
    proof {
        reveal_strlit(":");
        assert(out@ =~= fmt_hms(total as int));
    }
    out
}

/// The seconds run since the start; a clock standing before the start
/// shows as zero rather than a negative span.
pub open spec fn spec_elapsed(sess: TimerSession, now: u64) -> int {
    if now >= sess.start {
        now - sess.start
    } else {
        0
    }
}

/// The line under the dial that counts the time down and up.
pub open spec fn remaining_elapsed_line(sess: TimerSession, now: u64) -> Seq<char> {
    "Remaining: "@ + fmt_hms(sess.end - now) + " | Elapsed: "@ + fmt_hms(spec_elapsed(sess, now))
}

/// The line naming the session's fixed start and end times of day.
pub open spec fn start_end_line(sess: TimerSession) -> Seq<char> {
    "Start time: "@ + fmt_hms(sess.start as int % 86400) + " | End time: "@ + fmt_hms(
        sess.end as int % 86400,
    )
}

/// Everything one frame of the countdown shows.
pub struct RenderFrame {
    /// The seven lines of the dial, hands placed for the current time.
    pub clock: Vec<String>,
    /// The countdown line.
    pub remaining_elapsed: String,
    /// The start and end line.
    pub start_end: String,
}

/// What one turn of the render loop does: stop, or draw one frame.
pub enum TickOutcome {
    /// The deadline is reached: leave the loop without drawing.
    Finished,
    /// The deadline lies ahead: draw this frame, then sleep one second.
    Continue(RenderFrame),
}

/// One turn of the render loop at the sampled second `now`: the loop is
/// over exactly when `now` has reached the end; otherwise the frame shows
/// the remaining span — never negative, since the turn that reaches the
/// end draws nothing — the elapsed span, and the dial for the current
/// hour and minute.
pub fn tick(sess: &TimerSession, now: u64) -> (r: TickOutcome)
    ensures
        now >= sess.end <==> r is Finished,
        r matches TickOutcome::Continue(f) ==> {
            &&& f.clock.deep_view() == clock_grid(
                (now as int % 86400) / 3600,
                ((now as int % 86400) / 60) % 60,
            )
            &&& f.remaining_elapsed@ == remaining_elapsed_line(*sess, now)
            &&& f.start_end@ == start_end_line(*sess)
        },
{
    if now >= sess.end {
        return TickOutcome::Finished;
    }
    let remaining = sess.end - now;
    let elapsed = if now >= sess.start {
        now - sess.start
    } else {
        0
    };
    let tod = now % 86400;
    let hours = (tod / 3600) as u32;
    let minutes = ((tod / 60) % 60) as u32;
    let clock = create_ascii_clock(hours, minutes);
    let mut line1 = String::from_str("Remaining: ");
    let rem_s = format_hms(remaining);
    line1.append(rem_s.as_str());
    line1.append(" | Elapsed: ");
    let ela_s = format_hms(elapsed);
    line1.append(ela_s.as_str());
    let mut line2 = String::from_str("Start time: ");
    let sta_s = format_hms(sess.start % 86400);
    line2.append(sta_s.as_str());
    line2.append(" | End time: ");
    let end_s = format_hms(sess.end % 86400);
    line2.append(end_s.as_str());
    proof {
        assert(line1@ =~= remaining_elapsed_line(*sess, now));
        assert(line2@ =~= start_end_line(*sess));
    }
    TickOutcome::Continue(RenderFrame { clock, remaining_elapsed: line1, start_end: line2 })
}

/// One turn of the render loop against the live clock: reads the current
/// second and hands it to `tick`. A clock read that cannot be counted
/// ends the loop as if the deadline were reached.
pub fn tick_now(sess: &TimerSession) -> (r: TickOutcome)
    ensures
        r matches TickOutcome::Continue(f) ==> exists|now: u64|
            {
                &&& now < sess.end
                &&& f.clock.deep_view() == clock_grid(
                    (now as int % 86400) / 3600,
                    ((now as int % 86400) / 60) % 60,
                )
                &&& f.remaining_elapsed@ == remaining_elapsed_line(*sess, now)
                &&& f.start_end@ == start_end_line(*sess)
            },
{
    match crate::session::local_now() {
        Ok(now) => {
            let r = tick(sess, now);
            proof {
                if r is Continue {
                    assert(now < sess.end);
                }
            }
            r
        },
        Err(_) => TickOutcome::Finished,
    }
}

/// The column at which a line of the given length starts when centered on
/// a row of the given width; a line too wide starts at the left edge.
pub fn center_col(width: u16, len: u16) -> (r: u16)
    ensures
        len <= width ==> r as int == (width - len) / 2,
        len > width ==> r == 0,
{
    if len <= width {
        (width - len) / 2
    } else {
        0
    }
}

/// A render loop that draws a frame at each of a run of sampled seconds,
/// each sample at least one second past the one before, draws at most
/// `end - first sample` frames before the deadline `end` stops it: the
/// loop over a deadline N seconds ahead ends after about N ticks.
pub proof fn lemma_render_loop_bounded(end: int, times: Seq<int>)
    requires
        times.len() > 0,
        forall|i: int| 0 <= i < times.len() ==> #[trigger] times[i] < end,
        forall|i: int| 0 <= i < times.len() - 1 ==> #[trigger] times[i + 1] >= times[i] + 1,
    ensures
        times.len() <= end - times[0],
    decreases times.len(),
{
    if times.len() > 1 {
        let rest = times.drop_first();
        assert forall|i: int| 0 <= i < rest.len() implies #[trigger] rest[i] < end by {
            assert(rest[i] == times[i + 1]);
        }
        assert forall|i: int| 0 <= i < rest.len() - 1 implies #[trigger] rest[i + 1] >= rest[i]
            + 1 by {
            assert(rest[i + 1] == times[i + 2]);
            assert(rest[i] == times[i + 1]);
            assert(times[i + 1 + 1] >= times[i + 1] + 1);
        }
        lemma_render_loop_bounded(end, rest);
        let z: int = 0;
        assert(rest[z] == times[z + 1]);
        assert(times[z + 1] >= times[z] + 1);
    }
}

/// The notification body: the caller's own message, or the fixed default
/// when none was given.
pub open spec fn spec_notification_message(custom: Option<Seq<char>>) -> Seq<char> {
    match custom {
        Some(m) => m,
        None => "rtimer: time's up!"@,
    }
}

/// Pick the notification body: a supplied message as it is, else the
/// default.
pub fn notification_message(custom: Option<String>) -> (r: String)
    ensures
        r@ == spec_notification_message(
            match custom {
                Some(m) => Some(m@),
                None => None,
            },
        ),
{
    match custom {
        Some(m) => m,
        None => String::from_str("rtimer: time's up!"),
    }
}

} // verus!
