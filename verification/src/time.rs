//! Wall-clock values: the time of day, the day of the week, and the two together.

use vstd::prelude::*;
use vstd::string::StrSliceExecFns;

use crate::outside::parse_clock_time;

verus! {

/// The number of seconds in a day.
pub const SECONDS_PER_DAY: u32 = 86_400;

/// The number of nanoseconds in a second.
pub const NANOS_PER_SECOND: u32 = 1_000_000_000;

/// How a time of day is written: the hour on a 24-hour clock, a colon, the minute.
pub const CLOCK_FORMAT: &'static str = "%H:%M";

/// A decimal digit.
pub open spec fn is_digit(c: char) -> bool {
    '0' <= c <= '9'
}

/// The number that a decimal digit stands for.
pub open spec fn digit_value(c: char) -> int {
    c as int - '0' as int
}

/// The number that two decimal digits stand for.
pub open spec fn two_digit_value(tens: char, ones: char) -> int {
    10 * digit_value(tens) + digit_value(ones)
}

/// Texts of the strict form `HH:MM`: two digits, a colon, two digits.
pub open spec fn is_clock_text(text: Seq<char>) -> bool {
    &&& text.len() == 5
    &&& is_digit(text[0])
    &&& is_digit(text[1])
    &&& text[2] == ':'
    &&& is_digit(text[3])
    &&& is_digit(text[4])
}

/// The time that a text denotes: it is of the form `HH:MM`, with an hour
/// below 24 and a minute below 60.
pub open spec fn time_of_clock_text(text: Seq<char>) -> Option<TimeOfDay> {
    let hour = two_digit_value(text[0], text[1]);
    let minute = two_digit_value(text[3], text[4]);
    if is_clock_text(text) && hour < 24 && minute < 60 {
        Some(TimeOfDay::hms(hour, minute, 0))
    } else {
        None
    }
}

/// The digit that stands for a number below ten.
pub open spec fn digit_of(value: int) -> char {
    ('0' as int + value) as char
}

/// How a time of day is written: the hour and the minute, two digits each,
/// with a colon between them.
pub open spec fn clock_text_of(time: TimeOfDay) -> Seq<char> {
    let hour = time.secs as int / 3600;
    let minute = (time.secs as int / 60) % 60;
    seq![
        digit_of(hour / 10),
        digit_of(hour % 10),
        ':',
        digit_of(minute / 10),
        digit_of(minute % 10),
    ]
}

/// The hour and the minute of a time are found again in its seconds.
proof fn lemma_seconds_split(hour: int, minute: int)
    requires
        0 <= hour < 24,
        0 <= minute < 60,
    ensures
        (hour * 3600 + minute * 60) / 3600 == hour,
        ((hour * 3600 + minute * 60) / 60) % 60 == minute,
        (hour * 3600 + minute * 60) % 60 == 0,
        0 <= hour * 3600 + minute * 60 < SECONDS_PER_DAY,
{
    let secs = hour * 3600 + minute * 60;
    assert(secs == (hour * 60 + minute) * 60);
    assert(secs / 60 == hour * 60 + minute);
}

/// The two digits of a number below a hundred are found again in it.
proof fn lemma_digits_split(tens: int, ones: int)
    requires
        0 <= tens <= 9,
        0 <= ones <= 9,
    ensures
        (10 * tens + ones) / 10 == tens,
        (10 * tens + ones) % 10 == ones,
{
}

/// A time that is written down and read again is the same time, if it falls
/// on a full minute.
pub proof fn lemma_written_time_reads_back(time: TimeOfDay)
    requires
        time.on_the_minute(),
    ensures
        time_of_clock_text(clock_text_of(time)) == Some(time),
{
    let hour = time.secs as int / 3600;
    let minute = (time.secs as int / 60) % 60;
    assert(time.secs == hour * 3600 + minute * 60);
    let text = clock_text_of(time);
    assert(two_digit_value(text[0], text[1]) == hour);
    assert(two_digit_value(text[3], text[4]) == minute);
}

/// A text that denotes a time of day is the very text that the time is
/// written as, and the time falls on a full minute.
pub proof fn lemma_read_time_writes_back(text: Seq<char>)
    requires
        time_of_clock_text(text) is Some,
    ensures
        clock_text_of(time_of_clock_text(text)->0) == text,
        time_of_clock_text(text)->0.on_the_minute(),
{
    let hour = two_digit_value(text[0], text[1]);
    let minute = two_digit_value(text[3], text[4]);
    let time = time_of_clock_text(text)->0;
    lemma_seconds_split(hour, minute);
    lemma_digits_split(digit_value(text[0]), digit_value(text[1]));
    lemma_digits_split(digit_value(text[3]), digit_value(text[4]));
    let written = clock_text_of(time);
    assert(written[0] == text[0]);
    assert(written[1] == text[1]);
    assert(written[3] == text[3]);
    assert(written[4] == text[4]);
    assert(written =~= text);
}

/// A time of day, ordered first by `secs` and then by `frac`.
///
/// `secs` counts the whole seconds since midnight. `frac` counts the
/// nanoseconds since that whole second; during a leap second, which can only
/// follow the 59th second of a minute, it runs on from 1,000,000,000 up to
/// 1,999,999,999.
#[derive(Copy, Clone, Debug, PartialEq, Eq, Structural, PartialOrd, Ord, Hash)]
pub struct TimeOfDay {
    pub secs: u32,
    pub frac: u32,
}

impl TimeOfDay {
    /// The values that denote a time of day.
    pub open spec fn wf(self) -> bool {
        &&& self.secs < SECONDS_PER_DAY
        &&& self.frac < 2 * NANOS_PER_SECOND
        &&& (self.frac >= NANOS_PER_SECOND ==> self.secs % 60 == 59)
    }

    /// The times of day that fall on a full minute.
    pub open spec fn on_the_minute(self) -> bool {
        self.wf() && self.secs % 60 == 0 && self.frac == 0
    }

    /// The time `hour:min:sec` on the clock, with no fraction of a second.
    pub open spec fn hms(hour: int, min: int, sec: int) -> TimeOfDay {
        TimeOfDay { secs: (hour * 3600 + min * 60 + sec) as u32, frac: 0 }
    }

    /// Whether this is 00:00:00 exactly.
    pub open spec fn spec_is_midnight(&self) -> bool {
        self.secs == 0 && self.frac == 0
    }

    /// Whether this time is `other` or earlier in the day.
    pub open spec fn spec_at_or_before(&self, other: TimeOfDay) -> bool {
        self.secs < other.secs || (self.secs == other.secs && self.frac <= other.frac)
    }

    /// The time `hour:min:sec`, or `None` where that is no time on a 24-hour clock.
    pub fn from_hms_opt(hour: u32, min: u32, sec: u32) -> (time: Option<TimeOfDay>)
        ensures
            time == (if hour < 24 && min < 60 && sec < 60 {
                Some(Self::hms(hour as int, min as int, sec as int))
            } else {
                None
            }),
            time matches Some(t) ==> t.wf(),
    {
        if hour >= 24 || min >= 60 || sec >= 60 {
            return None;
        }
        Some(TimeOfDay { secs: hour * 3600 + min * 60 + sec, frac: 0 })
    }

    /// The time `secs` seconds and `nano` nanoseconds after midnight, or `None`
    /// where the two do not denote a time of day.
    pub fn from_num_seconds_from_midnight_opt(secs: u32, nano: u32) -> (time: Option<TimeOfDay>)
        ensures
            time == (if (TimeOfDay { secs, frac: nano }).wf() {
                Some(TimeOfDay { secs, frac: nano })
            } else {
                None
            }),
    {
        if secs >= SECONDS_PER_DAY || nano >= 2 * NANOS_PER_SECOND || (nano >= NANOS_PER_SECOND
            && secs % 60 != 59) {
            return None;
        }
        Some(TimeOfDay { secs, frac: nano })
    }

    /// Reads a time written as `HH:MM`. Any other text, an hour above 23 and a
    /// minute above 59 give `None`.
    pub fn from_clock_text(text: &str) -> (time: Option<TimeOfDay>)
        ensures
            time == time_of_clock_text(text@),
            time matches Some(t) ==> t.wf(),
    {
        if text.unicode_len() != 5 {
            return None;
        }
        let shaped = is_digit_char(text.get_char(0)) && is_digit_char(text.get_char(1))
            && text.get_char(2) == ':' && is_digit_char(text.get_char(3)) && is_digit_char(
            text.get_char(4),
        );
        if !shaped {
            return None;
        }
        parse_clock_time(text, CLOCK_FORMAT)
    }

    /// The hour on the clock, from 0 to 23.
    pub fn hour(&self) -> (hour: u32)
        ensures
            hour == self.secs / 3600,
            self.wf() ==> hour < 24,
    {
        self.secs / 3600
    }

    /// The minute of the hour, from 0 to 59.
    pub fn minute(&self) -> (minute: u32)
        ensures
            minute == (self.secs / 60) % 60,
            minute < 60,
    {
        (self.secs / 60) % 60
    }

    /// The second of the minute, from 0 to 59.
    pub fn second(&self) -> (second: u32)
        ensures
            second == self.secs % 60,
            second < 60,
    {
        self.secs % 60
    }

    #[verifier::when_used_as_spec(spec_is_midnight)]
    pub fn is_midnight(&self) -> (midnight: bool)
        ensures
            midnight == self.spec_is_midnight(),
    {
        self.secs == 0 && self.frac == 0
    }

    #[verifier::when_used_as_spec(spec_at_or_before)]
    pub fn at_or_before(&self, other: TimeOfDay) -> (holds: bool)
        ensures
            holds == self.spec_at_or_before(other),
    {
        self.secs < other.secs || (self.secs == other.secs && self.frac <= other.frac)
    }
}

fn is_digit_char(c: char) -> (digit: bool)
    ensures
        digit == is_digit(c),
{
    '0' <= c && c <= '9'
}

/// A day of the week.
#[derive(Copy, Clone, Debug, PartialEq, Eq, Structural, PartialOrd, Ord, Hash)]
pub enum Weekday {
    Mon,
    Tue,
    Wed,
    Thu,
    Fri,
    Sat,
    Sun,
}

impl Weekday {
    /// The day's number in the week, Monday being 1 and Sunday 7.
    pub open spec fn spec_number_from_monday(&self) -> u32 {
        match self {
            Weekday::Mon => 1,
            Weekday::Tue => 2,
            Weekday::Wed => 3,
            Weekday::Thu => 4,
            Weekday::Fri => 5,
            Weekday::Sat => 6,
            Weekday::Sun => 7,
        }
    }

    /// The day's place in a week that starts on Monday, from 0 to 6.
    pub open spec fn index(self) -> int {
        self.spec_number_from_monday() - 1
    }

    /// The day that a digit names, if it names one.
    pub open spec fn spec_from_digit(c: char) -> Option<Weekday> {
        if c == '1' {
            Some(Weekday::Mon)
        } else if c == '2' {
            Some(Weekday::Tue)
        } else if c == '3' {
            Some(Weekday::Wed)
        } else if c == '4' {
            Some(Weekday::Thu)
        } else if c == '5' {
            Some(Weekday::Fri)
        } else if c == '6' {
            Some(Weekday::Sat)
        } else if c == '7' {
            Some(Weekday::Sun)
        } else {
            None
        }
    }

    #[verifier::when_used_as_spec(spec_number_from_monday)]
    pub fn number_from_monday(&self) -> (number: u32)
        ensures
            number == self.spec_number_from_monday(),
            1 <= number <= 7,
    {
        match self {
            Weekday::Mon => 1,
            Weekday::Tue => 2,
            Weekday::Wed => 3,
            Weekday::Thu => 4,
            Weekday::Fri => 5,
            Weekday::Sat => 6,
            Weekday::Sun => 7,
        }
    }

    /// The day with the given number, Monday being 1 and Sunday 7.
    pub fn from_number_from_monday(number: u32) -> (day: Option<Weekday>)
        ensures
            1 <= number <= 7 <==> day is Some,
            day matches Some(d) ==> d.spec_number_from_monday() == number,
    {
        match number {
            1 => Some(Weekday::Mon),
            2 => Some(Weekday::Tue),
            3 => Some(Weekday::Wed),
            4 => Some(Weekday::Thu),
            5 => Some(Weekday::Fri),
            6 => Some(Weekday::Sat),
            7 => Some(Weekday::Sun),
            _ => None,
        }
    }

    #[verifier::when_used_as_spec(spec_from_digit)]
    pub fn from_digit(c: char) -> (day: Option<Weekday>)
        ensures
            day == Self::spec_from_digit(c),
    {
        match c {
            '1' => Some(Weekday::Mon),
            '2' => Some(Weekday::Tue),
            '3' => Some(Weekday::Wed),
            '4' => Some(Weekday::Thu),
            '5' => Some(Weekday::Fri),
            '6' => Some(Weekday::Sat),
            '7' => Some(Weekday::Sun),
            _ => None,
        }
    }
}

/// A moment as a wall clock in some time zone shows it: the day of the week
/// and the time of day.
#[derive(Copy, Clone, Debug, PartialEq, Eq, Structural, Hash)]
pub struct Instant {
    pub weekday: Weekday,
    pub time: TimeOfDay,
}

} // verus!
