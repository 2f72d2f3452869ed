//! One range of the day, written `HH:MM-HH:MM`.

use vstd::prelude::*;
use vstd::string::StrSliceExecFns;

use crate::error::ParseError;
use crate::time::{clock_text_of, time_of_clock_text, two_digit_value, TimeOfDay};

verus! {

/// A range of the day from `start` to `end`, both included. An `end` of
/// 00:00 stands for the end of the day: such a range has no upper bound.
#[derive(Copy, Clone, Debug, PartialEq, Eq, Structural, PartialOrd, Ord, Hash)]
pub struct TimeSpan {
    pub start: TimeOfDay,
    pub end: TimeOfDay,
}

/// The range that a text denotes: two times of the form `HH:MM` with one `-`
/// between them, and nothing else.
pub open spec fn span_of_text(text: Seq<char>) -> Option<TimeSpan> {
    if text.len() == 11 && text[5] == '-' {
        match (time_of_clock_text(text.subrange(0, 5)), time_of_clock_text(text.subrange(6, 11))) {
            (Some(start), Some(end)) => Some(TimeSpan { start, end }),
            _ => None,
        }
    } else {
        None
    }
}

/// How a range is written: its start, a `-`, and its end.
pub open spec fn text_of_span(span: TimeSpan) -> Seq<char> {
    clock_text_of(span.start) + seq!['-'] + clock_text_of(span.end)
}

impl TimeSpan {
    /// Whether `time` lies in the range.
    pub open spec fn spec_contains(&self, time: TimeOfDay) -> bool {
        if self.end.spec_is_midnight() {
            self.start.spec_at_or_before(time)
        } else {
            self.start.spec_at_or_before(time) && time.spec_at_or_before(self.end)
        }
    }

    /// Whether `time` lies in the range. Both ends count as inside; where the
    /// range ends at 00:00, every time from `start` on is inside.
    #[verifier::when_used_as_spec(spec_contains)]
    pub fn contains(&self, time: TimeOfDay) -> (inside: bool)
        ensures
            inside == self.spec_contains(time),
    {
        if self.end.is_midnight() {
            self.start.at_or_before(time)
        } else {
            self.start.at_or_before(time) && time.at_or_before(self.end)
        }
    }

    /// Reads a range written as `HH:MM-HH:MM`.
    pub fn from_str(s: &str) -> (parsed: Result<TimeSpan, ParseError>)
        ensures
            parsed == match span_of_text(s@) {
                Some(span) => Ok::<TimeSpan, ParseError>(span),
                None => Err(ParseError::MalformedSpan),
            },
    {
        if s.unicode_len() != 11 {
            return Err(ParseError::MalformedSpan);
        }
        if s.get_char(5) != '-' {
            return Err(ParseError::MalformedSpan);
        }
        let start = TimeOfDay::from_clock_text(s.substring_char(0, 5));
        let end = TimeOfDay::from_clock_text(s.substring_char(6, 11));
        match (start, end) {
            (Some(start), Some(end)) => Ok(TimeSpan { start, end }),
            _ => Err(ParseError::MalformedSpan),
        }
    }
}

/// A range contains its two ends, provided that it does not end before it
/// starts. Where it ends at 00:00 it contains its start and every later
/// time, and nothing else.
pub proof fn lemma_contains_its_ends(span: TimeSpan)
    requires
        span.end.spec_is_midnight() || span.start.spec_at_or_before(span.end),
    ensures
        span.spec_contains(span.start),
        !span.end.spec_is_midnight() ==> span.spec_contains(span.end),
        span.end.spec_is_midnight() ==> forall|time: TimeOfDay|
            span.spec_contains(time) <==> span.start.spec_at_or_before(time),
{
}

/// A range that is written down and read again is the same range, if both
/// of its ends fall on a full minute.
pub proof fn lemma_written_span_reads_back(span: TimeSpan)
    requires
        span.start.on_the_minute(),
        span.end.on_the_minute(),
    ensures
        span_of_text(text_of_span(span)) == Some(span),
{
    let text = text_of_span(span);
    assert(text.subrange(0, 5) == clock_text_of(span.start));
    assert(text.subrange(6, 11) == clock_text_of(span.end));
    crate::time::lemma_written_time_reads_back(span.start);
    crate::time::lemma_written_time_reads_back(span.end);
}

/// A text that denotes a range is the very text that the range is written
/// as, and both ends of the range fall on a full minute: on the minute that
/// the text names, of the hour that it names.
pub proof fn lemma_read_span_writes_back(text: Seq<char>)
    requires
        span_of_text(text) is Some,
    ensures
        text_of_span(span_of_text(text)->0) == text,
        span_of_text(text)->0.start.on_the_minute(),
        span_of_text(text)->0.end.on_the_minute(),
        span_of_text(text)->0.start == TimeOfDay::hms(
            two_digit_value(text[0], text[1]),
            two_digit_value(text[3], text[4]),
            0,
        ),
        span_of_text(text)->0.end == TimeOfDay::hms(
            two_digit_value(text[6], text[7]),
            two_digit_value(text[9], text[10]),
            0,
        ),
{
    crate::time::lemma_read_time_writes_back(text.subrange(0, 5));
    crate::time::lemma_read_time_writes_back(text.subrange(6, 11));
    assert(text_of_span(span_of_text(text)->0) =~= text);
}

impl std::str::FromStr for TimeSpan {
    type Err = ParseError;

    /// Reads a range written as `HH:MM-HH:MM`, as `TimeSpan::from_str` does.
    fn from_str(s: &str) -> (parsed: Result<TimeSpan, ParseError>)
        ensures
            parsed == match span_of_text(s@) {
                Some(span) => Ok::<TimeSpan, ParseError>(span),
                None => Err(ParseError::MalformedSpan),
            },
    {
        TimeSpan::from_str(s)
    }
}

} // verus!
