use rtimer::clock_time::{parse_clock_time, parse_time_or_duration, ClockTime, TimeOrDuration};
use rtimer::digits::dec_string;
use rtimer::duration::{parse_duration, ParseError};

#[test]
fn parses_single_groups() {
    assert_eq!(parse_duration("90s"), Ok(90));
    assert_eq!(parse_duration("10m"), Ok(600));
    assert_eq!(parse_duration("2h"), Ok(7200));
    assert_eq!(parse_duration("10s"), Ok(10));
}

#[test]
fn parses_group_sequences() {
    assert_eq!(parse_duration("1h30m"), Ok(5400));
    assert_eq!(parse_duration("1h30m20s"), Ok(5420));
    assert_eq!(parse_duration("0s"), Ok(0));
}

#[test]
fn repeated_units_accumulate() {
    assert_eq!(parse_duration("1h1h"), Ok(7200));
    assert_eq!(parse_duration("90s90s"), Ok(180));
}

#[test]
fn empty_string_fails() {
    assert_eq!(parse_duration(""), Err(ParseError::EmptyInput));
}

#[test]
fn trailing_digits_fail() {
    assert_eq!(parse_duration("3"), Err(ParseError::NumberWithoutUnit));
    assert_eq!(parse_duration("1h30"), Err(ParseError::NumberWithoutUnit));
}

#[test]
fn unknown_unit_fails() {
    assert_eq!(parse_duration("3x"), Err(ParseError::InvalidUnit('x')));
    assert_eq!(parse_duration("5d"), Err(ParseError::InvalidUnit('d')));
}

#[test]
fn missing_number_fails() {
    assert_eq!(parse_duration("h"), Err(ParseError::InvalidNumber));
    assert_eq!(parse_duration("1hm"), Err(ParseError::InvalidNumber));
}

#[test]
fn oversized_group_fails() {
    // Twenty nines never fit a 64-bit number.
    assert_eq!(
        parse_duration("99999999999999999999s"),
        Err(ParseError::InvalidNumber)
    );
}

#[test]
fn oversized_total_fails() {
    assert_eq!(
        parse_duration("9000000000000000000h"),
        Err(ParseError::Overflow)
    );
}

#[test]
fn error_messages_name_the_cause() {
    assert_eq!(
        parse_duration("3x").unwrap_err().message(),
        "Invalid unit: x"
    );
    assert_eq!(
        parse_duration("3").unwrap_err().message(),
        "Number without unit at the end"
    );
    assert_eq!(parse_duration("").unwrap_err().message(), "Empty duration string");
}

#[test]
fn rendering_then_parsing_keeps_the_total() {
    let mut s = dec_string(90);
    s.push('s');
    assert_eq!(parse_duration(&s), Ok(90));
    let mut t = dec_string(3);
    t.push('h');
    t.push_str(&dec_string(25));
    t.push('m');
    assert_eq!(parse_duration(&t), Ok(3 * 3600 + 25 * 60));
}

#[test]
fn parses_clock_times() {
    assert_eq!(
        parse_clock_time("09:10:03"),
        Some(ClockTime { hour: 9, minute: 10, second: 3 })
    );
    assert_eq!(
        parse_clock_time("23:59:59"),
        Some(ClockTime { hour: 23, minute: 59, second: 59 })
    );
    assert_eq!(
        parse_clock_time("00:00:00"),
        Some(ClockTime { hour: 0, minute: 0, second: 0 })
    );
}

#[test]
fn rejects_malformed_clock_times() {
    assert_eq!(parse_clock_time("24:00:00"), None);
    assert_eq!(parse_clock_time("09:60:00"), None);
    assert_eq!(parse_clock_time("09:10:60"), None);
    assert_eq!(parse_clock_time("9:10:03"), None);
    assert_eq!(parse_clock_time("09:10"), None);
    assert_eq!(parse_clock_time("09-10-03"), None);
    assert_eq!(parse_clock_time(""), None);
}

#[test]
fn duration_grammar_takes_priority() {
    assert_eq!(
        parse_time_or_duration("10m"),
        Ok(TimeOrDuration::Duration(600))
    );
    assert_eq!(
        parse_time_or_duration("09:10:03"),
        Ok(TimeOrDuration::FixedTime(ClockTime { hour: 9, minute: 10, second: 3 }))
    );
}

#[test]
fn combined_parse_rejects_garbage() {
    assert_eq!(
        parse_time_or_duration("3x"),
        Err(String::from("Invalid time or duration format: 3x"))
    );
    assert_eq!(
        parse_time_or_duration(""),
        Err(String::from("Invalid time or duration format: "))
    );
}

#[test]
fn clock_time_total_seconds() {
    let t = ClockTime { hour: 9, minute: 10, second: 3 };
    assert_eq!(t.total_secs(), 9 * 3600 + 10 * 60 + 3);
}
