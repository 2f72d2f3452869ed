//! The calls into other crates, with what this library takes for granted of each.
//!
//! Nothing in this file is proved: each contract here is read off the
//! documentation and the source of the crate that is called.

use chrono::{NaiveTime, Timelike};
use regex::Regex;
use vstd::prelude::*;

use crate::time::{is_clock_text, time_of_clock_text, TimeOfDay, CLOCK_FORMAT};

verus! {

/// `chrono::NaiveTime::parse_from_str`, for the format `%H:%M` and a text of
/// the strict form `HH:MM`.
///
/// For such a text chrono reads the two digits before the colon as the hour
/// and the two after it as the minute. It refuses an hour above 23 and a
/// minute above 59, and else gives the time with that hour and minute, zero
/// seconds and no fraction. The result is handed back as seconds since
/// midnight and nanoseconds, which is how chrono holds it.
#[verifier::external_body]
pub(crate) fn parse_clock_time(text: &str, format: &str) -> (time: Option<TimeOfDay>)
    requires
        format@ == CLOCK_FORMAT@,
        is_clock_text(text@),
    ensures
        time == time_of_clock_text(text@),
{
    match NaiveTime::parse_from_str(text, format) {
        Ok(t) => Some(TimeOfDay { secs: t.num_seconds_from_midnight(), frac: t.nanosecond() }),
        Err(_) => None,
    }
}

/// What `regex::Regex::new` and `regex::Regex::find_iter` give for a pattern
/// and a text: `None` where the pattern does not compile, and else the texts
/// of the successive matches of the pattern in the text, none of which
/// overlaps another, from left to right.
pub uninterp spec fn regex_matches(pattern: Seq<char>, text: Seq<char>) -> Option<Seq<Seq<char>>>;

/// `regex::Regex::new` on `pattern`, then `regex::Regex::find_iter` on `text`.
///
/// Both depend on the pattern and the text alone, so the matches have a
/// name, `regex_matches`. Nothing else is taken for granted of them: neither
/// that a given pattern compiles, nor where in a text it matches.
#[verifier::external_body]
pub(crate) fn find_matches(pattern: &str, text: &str) -> (found: Option<Vec<String>>)
    ensures
        found.deep_view() == regex_matches(pattern@, text@),
{
    match Regex::new(pattern) {
        Ok(compiled) => Some(compiled.find_iter(text).map(|m| m.as_str().to_string()).collect()),
        Err(_) => None,
    }
}

} // verus!
