use rtimer::clock_face::create_ascii_clock;

#[test]
fn template_shape_is_kept() {
    let clock = create_ascii_clock(3, 0);
    assert_eq!(clock.len(), 7);
    for line in &clock {
        assert!(line.chars().count() >= 14);
    }
}

#[test]
fn three_o_clock_hands() {
    // Hour hand at three: two cells right of the center (row 3, col 9).
    // Minute hand at twelve: three cells up (row 0, col 7).
    let clock = create_ascii_clock(3, 0);
    assert_eq!(clock[0], "      1M      ");
    assert_eq!(clock[1], "   11     1   ");
    assert_eq!(clock[3], "9    --+-H    3");
}

#[test]
fn midnight_hands() {
    // Both hands point up; the minute hand sits one row above the hour
    // hand on the same column.
    let clock = create_ascii_clock(0, 0);
    assert_eq!(clock[0], "      1M      ");
    assert_eq!(clock[1], "   11  H  1   ");
}

#[test]
fn half_past_six() {
    // Hour hand at six points down two rows; minute hand at thirty
    // points down three rows, landing on the digit six.
    let clock = create_ascii_clock(6, 30);
    assert_eq!(clock[5], "   7   H  5   ");
    assert_eq!(clock[6], "      6M      ");
}

#[test]
fn noon_equals_midnight() {
    let a = create_ascii_clock(12, 0);
    let b = create_ascii_clock(0, 0);
    assert_eq!(a, b);
}

#[test]
fn placement_is_idempotent() {
    for (h, m) in [(0u32, 0u32), (3, 0), (9, 45), (23, 59), (11, 7)] {
        let a = create_ascii_clock(h, m);
        let b = create_ascii_clock(h, m);
        assert_eq!(a, b);
    }
}

#[test]
fn hours_wrap_on_the_twelve_hour_dial() {
    assert_eq!(create_ascii_clock(15, 10), create_ascii_clock(3, 10));
    assert_eq!(create_ascii_clock(23, 59), create_ascii_clock(11, 59));
}

#[test]
fn quarter_past_twelve_hands() {
    // Minute hand at fifteen: three cells right of center on the middle
    // row; hour hand at twelve: two cells up.
    let clock = create_ascii_clock(0, 15);
    assert_eq!(clock[1], "   11  H  1   ");
    assert_eq!(clock[3], "9    --+--M   3");
}

#[test]
fn nine_forty_five_hands() {
    // Hour hand at nine: two cells left of center (row 3, col 5).
    // Minute hand at forty-five: three cells left (row 3, col 4).
    let clock = create_ascii_clock(9, 45);
    assert_eq!(clock[3], "9   MH-+--    3");
}
