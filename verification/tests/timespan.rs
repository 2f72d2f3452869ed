use during::error::ParseError;
use during::time::TimeOfDay;
use during::timespan::TimeSpan;

fn at(hour: u32, min: u32, sec: u32) -> TimeOfDay {
    TimeOfDay::from_hms_opt(hour, min, sec).unwrap()
}

fn span(text: &str) -> TimeSpan {
    TimeSpan::from_str(text).unwrap()
}

#[test]
fn parses_the_two_times_of_a_range() {
    let parsed = TimeSpan::from_str("09:00-17:30");
    let expected = TimeSpan {
        start: TimeOfDay { secs: 32_400, frac: 0 },
        end: TimeOfDay { secs: 63_000, frac: 0 },
    };
    assert_eq!(parsed, Ok(expected));
    assert_eq!(expected.start.hour(), 9);
    assert_eq!(expected.start.minute(), 0);
    assert_eq!(expected.end.hour(), 17);
    assert_eq!(expected.end.minute(), 30);
    assert_eq!(expected.end.second(), 0);
}

#[test]
fn parses_the_first_and_the_last_minute_of_the_day() {
    let parsed = span("00:00-23:59");
    assert_eq!(parsed.start, TimeOfDay { secs: 0, frac: 0 });
    assert_eq!(parsed.end, TimeOfDay { secs: 86_340, frac: 0 });
}

#[test]
fn parse_through_the_trait_agrees() {
    let parsed: Result<TimeSpan, ParseError> = "08:15-08:45".parse();
    assert_eq!(parsed, TimeSpan::from_str("08:15-08:45"));
    assert_eq!(parsed.unwrap().start, at(8, 15, 0));
}

#[test]
fn refuses_a_range_without_separator() {
    assert_eq!(TimeSpan::from_str("09:0017:00"), Err(ParseError::MalformedSpan));
    assert_eq!(TimeSpan::from_str("09:00"), Err(ParseError::MalformedSpan));
    assert_eq!(TimeSpan::from_str("09:00 17:00"), Err(ParseError::MalformedSpan));
}

#[test]
fn refuses_an_hour_that_no_clock_shows() {
    assert_eq!(TimeSpan::from_str("25:00-26:00"), Err(ParseError::MalformedSpan));
    assert_eq!(TimeSpan::from_str("09:00-25:00"), Err(ParseError::MalformedSpan));
    assert_eq!(TimeSpan::from_str("24:00-09:00"), Err(ParseError::MalformedSpan));
    assert_eq!(TimeSpan::from_str("09:00-24:00"), Err(ParseError::MalformedSpan));
}

#[test]
fn refuses_a_minute_that_no_clock_shows() {
    assert_eq!(TimeSpan::from_str("09:60-10:00"), Err(ParseError::MalformedSpan));
    assert_eq!(TimeSpan::from_str("09:00-10:60"), Err(ParseError::MalformedSpan));
    assert_eq!(TimeSpan::from_str("09:99-10:00"), Err(ParseError::MalformedSpan));
}

#[test]
fn refuses_the_empty_text() {
    assert_eq!(TimeSpan::from_str(""), Err(ParseError::MalformedSpan));
    assert_eq!(TimeSpan::from_str("-"), Err(ParseError::MalformedSpan));
}

#[test]
fn refuses_what_is_not_strictly_two_digits_each() {
    assert_eq!(TimeSpan::from_str("9:00-17:00"), Err(ParseError::MalformedSpan));
    assert_eq!(TimeSpan::from_str("09:0-17:00"), Err(ParseError::MalformedSpan));
    assert_eq!(TimeSpan::from_str("09:00-17:0"), Err(ParseError::MalformedSpan));
    assert_eq!(TimeSpan::from_str("009:00-17:00"), Err(ParseError::MalformedSpan));
    assert_eq!(TimeSpan::from_str("+9:00-17:00"), Err(ParseError::MalformedSpan));
    assert_eq!(TimeSpan::from_str(" 9:00-17:00"), Err(ParseError::MalformedSpan));
    assert_eq!(TimeSpan::from_str("09: 0-17:00"), Err(ParseError::MalformedSpan));
}

#[test]
fn refuses_text_around_a_range() {
    assert_eq!(TimeSpan::from_str(" 09:00-17:00"), Err(ParseError::MalformedSpan));
    assert_eq!(TimeSpan::from_str("09:00-17:00 "), Err(ParseError::MalformedSpan));
    assert_eq!(TimeSpan::from_str("09:00-17:00-18:00"), Err(ParseError::MalformedSpan));
    assert_eq!(TimeSpan::from_str("09:00--17:00"), Err(ParseError::MalformedSpan));
    assert_eq!(TimeSpan::from_str("09:00:00-17:00:00"), Err(ParseError::MalformedSpan));
}

#[test]
fn refuses_other_separators_and_other_digits() {
    assert_eq!(TimeSpan::from_str("09.00-17.00"), Err(ParseError::MalformedSpan));
    assert_eq!(TimeSpan::from_str("09:00\u{2013}17:00"), Err(ParseError::MalformedSpan));
    assert_eq!(TimeSpan::from_str("09:00_17:00"), Err(ParseError::MalformedSpan));
    assert_eq!(TimeSpan::from_str("\u{0660}9:00-17:00"), Err(ParseError::MalformedSpan));
    assert_eq!(TimeSpan::from_str("ab:cd-ef:gh"), Err(ParseError::MalformedSpan));
}

#[test]
fn reads_a_time_of_day() {
    assert_eq!(TimeOfDay::from_clock_text("00:00"), Some(TimeOfDay { secs: 0, frac: 0 }));
    assert_eq!(TimeOfDay::from_clock_text("07:05"), Some(TimeOfDay { secs: 25_500, frac: 0 }));
    assert_eq!(TimeOfDay::from_clock_text("23:59"), Some(TimeOfDay { secs: 86_340, frac: 0 }));
    assert_eq!(TimeOfDay::from_clock_text("24:00"), None);
    assert_eq!(TimeOfDay::from_clock_text("23:60"), None);
    assert_eq!(TimeOfDay::from_clock_text("7:05"), None);
    assert_eq!(TimeOfDay::from_clock_text("07:5"), None);
    assert_eq!(TimeOfDay::from_clock_text("07-05"), None);
    assert_eq!(TimeOfDay::from_clock_text("07:05:00"), None);
    assert_eq!(TimeOfDay::from_clock_text(""), None);
}

#[test]
fn contains_both_of_its_ends() {
    let office = span("09:00-17:00");
    assert!(office.contains(office.start));
    assert!(office.contains(office.end));
    assert!(office.contains(at(9, 0, 0)));
    assert!(office.contains(at(17, 0, 0)));
    assert!(office.contains(at(12, 30, 15)));
}

#[test]
fn contains_nothing_outside_its_ends() {
    let office = span("09:00-17:00");
    assert!(!office.contains(at(8, 59, 59)));
    assert!(!office.contains(at(17, 0, 1)));
    assert!(!office.contains(at(0, 0, 0)));
    assert!(!office.contains(at(23, 59, 59)));
    assert!(!office.contains(TimeOfDay { secs: 61_200, frac: 1 }));
    assert!(!office.contains(TimeOfDay { secs: 32_399, frac: 999_999_999 }));
}

#[test]
fn a_range_that_ends_at_midnight_has_no_upper_bound() {
    let evening = span("22:00-00:00");
    assert!(evening.contains(evening.start));
    assert!(evening.contains(at(22, 0, 0)));
    assert!(evening.contains(at(23, 59, 59)));
    assert!(evening.contains(TimeOfDay { secs: 86_399, frac: 1_999_999_999 }));
    assert!(!evening.contains(at(21, 59, 59)));
    assert!(!evening.contains(evening.end));
    assert!(!evening.contains(at(0, 0, 0)));
}

#[test]
fn a_range_from_midnight_to_midnight_is_the_whole_day() {
    let always = span("00:00-00:00");
    assert!(always.contains(at(0, 0, 0)));
    assert!(always.contains(at(12, 0, 0)));
    assert!(always.contains(at(23, 59, 59)));
}

#[test]
fn a_range_of_one_minute_mark_contains_just_that() {
    let noon = span("12:00-12:00");
    assert!(noon.contains(at(12, 0, 0)));
    assert!(!noon.contains(at(12, 0, 1)));
    assert!(!noon.contains(at(11, 59, 59)));
}

#[test]
fn a_range_that_ends_before_it_starts_is_read_and_contains_nothing() {
    let backwards = span("17:00-09:00");
    assert_eq!(backwards.start, at(17, 0, 0));
    assert_eq!(backwards.end, at(9, 0, 0));
    assert!(!backwards.contains(backwards.start));
    assert!(!backwards.contains(backwards.end));
    assert!(!backwards.contains(at(12, 0, 0)));
    assert!(!backwards.contains(at(23, 0, 0)));
    assert!(!backwards.contains(at(3, 0, 0)));
}

#[test]
fn ranges_are_ordered_by_start_and_then_by_end() {
    assert!(span("09:00-17:00") < span("09:30-10:00"));
    assert!(span("09:00-10:00") < span("09:00-17:00"));
    assert_eq!(span("09:00-17:00"), span("09:00-17:00"));
}
