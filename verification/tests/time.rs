use during::time::{Instant, TimeOfDay, Weekday};

#[test]
fn makes_a_time_from_hour_minute_and_second() {
    assert_eq!(TimeOfDay::from_hms_opt(0, 0, 0), Some(TimeOfDay { secs: 0, frac: 0 }));
    assert_eq!(TimeOfDay::from_hms_opt(9, 0, 5), Some(TimeOfDay { secs: 32_405, frac: 0 }));
    assert_eq!(TimeOfDay::from_hms_opt(23, 59, 59), Some(TimeOfDay { secs: 86_399, frac: 0 }));
}

#[test]
fn makes_no_time_from_what_no_clock_shows() {
    assert_eq!(TimeOfDay::from_hms_opt(24, 0, 0), None);
    assert_eq!(TimeOfDay::from_hms_opt(23, 60, 0), None);
    assert_eq!(TimeOfDay::from_hms_opt(23, 59, 60), None);
    assert_eq!(TimeOfDay::from_hms_opt(u32::MAX, u32::MAX, u32::MAX), None);
}

#[test]
fn makes_a_time_from_seconds_and_nanoseconds() {
    assert_eq!(
        TimeOfDay::from_num_seconds_from_midnight_opt(0, 0),
        Some(TimeOfDay { secs: 0, frac: 0 })
    );
    assert_eq!(
        TimeOfDay::from_num_seconds_from_midnight_opt(86_399, 999_999_999),
        Some(TimeOfDay { secs: 86_399, frac: 999_999_999 })
    );
    assert_eq!(
        TimeOfDay::from_num_seconds_from_midnight_opt(86_399, 1_999_999_999),
        Some(TimeOfDay { secs: 86_399, frac: 1_999_999_999 })
    );
    assert_eq!(TimeOfDay::from_num_seconds_from_midnight_opt(86_400, 0), None);
    assert_eq!(TimeOfDay::from_num_seconds_from_midnight_opt(86_399, 2_000_000_000), None);
    assert_eq!(TimeOfDay::from_num_seconds_from_midnight_opt(86_398, 1_000_000_000), None);
}

#[test]
fn tells_hour_minute_and_second() {
    let time = TimeOfDay::from_hms_opt(13, 7, 42).unwrap();
    assert_eq!(time.hour(), 13);
    assert_eq!(time.minute(), 7);
    assert_eq!(time.second(), 42);
    assert_eq!(time.secs, 47_262);
    assert_eq!(time.frac, 0);
}

#[test]
fn knows_midnight() {
    assert!(TimeOfDay { secs: 0, frac: 0 }.is_midnight());
    assert!(!TimeOfDay { secs: 0, frac: 1 }.is_midnight());
    assert!(!TimeOfDay { secs: 1, frac: 0 }.is_midnight());
}

#[test]
fn orders_times_by_second_and_then_by_fraction() {
    let early = TimeOfDay { secs: 100, frac: 999_999_999 };
    let late = TimeOfDay { secs: 101, frac: 0 };
    assert!(early.at_or_before(late));
    assert!(!late.at_or_before(early));
    assert!(early.at_or_before(early));
    assert!(TimeOfDay { secs: 100, frac: 5 }.at_or_before(TimeOfDay { secs: 100, frac: 6 }));
    assert!(!TimeOfDay { secs: 100, frac: 6 }.at_or_before(TimeOfDay { secs: 100, frac: 5 }));
    assert!(early < late);
    assert!(early <= early);
}

#[test]
fn numbers_the_days_from_monday() {
    assert_eq!(Weekday::Mon.number_from_monday(), 1);
    assert_eq!(Weekday::Tue.number_from_monday(), 2);
    assert_eq!(Weekday::Wed.number_from_monday(), 3);
    assert_eq!(Weekday::Thu.number_from_monday(), 4);
    assert_eq!(Weekday::Fri.number_from_monday(), 5);
    assert_eq!(Weekday::Sat.number_from_monday(), 6);
    assert_eq!(Weekday::Sun.number_from_monday(), 7);
}

#[test]
fn finds_the_day_of_a_number() {
    assert_eq!(Weekday::from_number_from_monday(0), None);
    assert_eq!(Weekday::from_number_from_monday(1), Some(Weekday::Mon));
    assert_eq!(Weekday::from_number_from_monday(4), Some(Weekday::Thu));
    assert_eq!(Weekday::from_number_from_monday(7), Some(Weekday::Sun));
    assert_eq!(Weekday::from_number_from_monday(8), None);
}

#[test]
fn finds_the_day_of_a_digit() {
    assert_eq!(Weekday::from_digit('0'), None);
    assert_eq!(Weekday::from_digit('1'), Some(Weekday::Mon));
    assert_eq!(Weekday::from_digit('3'), Some(Weekday::Wed));
    assert_eq!(Weekday::from_digit('7'), Some(Weekday::Sun));
    assert_eq!(Weekday::from_digit('8'), None);
    assert_eq!(Weekday::from_digit('a'), None);
}

#[test]
fn an_instant_is_a_day_and_a_time() {
    let a = Instant { weekday: Weekday::Mon, time: TimeOfDay { secs: 5, frac: 0 } };
    let b = Instant { weekday: Weekday::Mon, time: TimeOfDay { secs: 5, frac: 0 } };
    assert_eq!(a, b);
}
