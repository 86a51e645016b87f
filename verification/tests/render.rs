use rtimer::render::{center_col, format_hms, notification_message, tick, TickOutcome};
use rtimer::session::TimerSession;

#[test]
fn formats_zero_padded() {
    assert_eq!(format_hms(0), "00:00:00");
    assert_eq!(format_hms(9), "00:00:09");
    assert_eq!(format_hms(61), "00:01:01");
    assert_eq!(format_hms(5400), "01:30:00");
    assert_eq!(format_hms(86399), "23:59:59");
}

#[test]
fn formats_hours_beyond_two_digits() {
    assert_eq!(format_hms(100 * 3600), "100:00:00");
}

#[test]
fn tick_finishes_exactly_at_the_deadline() {
    let sess = TimerSession { start: 100, end: 110 };
    assert!(matches!(tick(&sess, 110), TickOutcome::Finished));
    assert!(matches!(tick(&sess, 111), TickOutcome::Finished));
    assert!(matches!(tick(&sess, 109), TickOutcome::Continue(_)));
}

#[test]
fn tick_frame_counts_down_and_up() {
    let sess = TimerSession { start: 100, end: 110 };
    match tick(&sess, 109) {
        TickOutcome::Continue(f) => {
            assert_eq!(
                f.remaining_elapsed,
                "Remaining: 00:00:01 | Elapsed: 00:00:09"
            );
            assert_eq!(
                f.start_end,
                "Start time: 00:01:40 | End time: 00:01:50"
            );
        }
        TickOutcome::Finished => panic!("expected a frame"),
    }
}

#[test]
fn ten_second_countdown_draws_ten_frames() {
    // A frozen run: the clock advances exactly one second per tick.
    let start = 1000;
    let sess = TimerSession { start, end: start + 10 };
    let mut frames = Vec::new();
    let mut now = start;
    loop {
        match tick(&sess, now) {
            TickOutcome::Finished => break,
            TickOutcome::Continue(f) => frames.push(f),
        }
        now += 1;
    }
    assert_eq!(frames.len(), 10);
    assert_eq!(
        frames[0].remaining_elapsed,
        "Remaining: 00:00:10 | Elapsed: 00:00:00"
    );
    assert_eq!(
        frames[9].remaining_elapsed,
        "Remaining: 00:00:01 | Elapsed: 00:00:09"
    );
    // No frame ever shows a negative span: every line keeps the
    // zero-padded two-digit shape.
    for f in &frames {
        assert!(!f.remaining_elapsed.contains('-'));
    }
}

#[test]
fn tick_clamps_elapsed_when_the_clock_jumps_back() {
    let sess = TimerSession { start: 100, end: 110 };
    match tick(&sess, 99) {
        TickOutcome::Continue(f) => {
            assert_eq!(
                f.remaining_elapsed,
                "Remaining: 00:00:11 | Elapsed: 00:00:00"
            );
        }
        TickOutcome::Finished => panic!("expected a frame"),
    }
}

#[test]
fn centering_is_half_the_slack() {
    assert_eq!(center_col(80, 10), 35);
    assert_eq!(center_col(80, 80), 0);
    assert_eq!(center_col(5, 10), 0);
}

#[test]
fn notification_message_defaults() {
    assert_eq!(notification_message(None), "rtimer: time's up!");
    assert_eq!(
        notification_message(Some(String::from("done"))),
        "done"
    );
}
