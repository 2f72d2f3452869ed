//! One day-group clause of a schedule's notation: the digits of its days, and
//! in brackets the ranges that it gives them, as in `1245[09:00-12:00,13:00-15:00]`.

use vstd::prelude::*;
use vstd::string::StrSliceExecFns;

use crate::error::ParseError;
use crate::time::Weekday;
use crate::timespan::{span_of_text, TimeSpan};

verus! {

/// What one clause says: the days that it names, in the order and as often
/// as it names them, and the ranges that it gives to each of them.
#[derive(Clone, Debug, PartialEq, Eq, Hash)]
pub struct DayGroup {
    pub days: Vec<Weekday>,
    pub spans: Vec<TimeSpan>,
}

/// A `DayGroup` as two sequences.
pub struct DayGroupView {
    pub days: Seq<Weekday>,
    pub spans: Seq<TimeSpan>,
}

impl View for DayGroup {
    type V = DayGroupView;

    open spec fn view(&self) -> DayGroupView {
        DayGroupView { days: self.days@, spans: self.spans@ }
    }
}

/// The days that a text names: one or more digits from `1`, for Monday, to
/// `7`, for Sunday.
pub open spec fn days_of_text(days: Seq<char>) -> Option<Seq<Weekday>> {
    if days.len() > 0 && forall|i: int|
        0 <= i < days.len() ==> Weekday::spec_from_digit(#[trigger] days[i]) is Some {
        Some(days.map_values(|c: char| Weekday::spec_from_digit(c).unwrap()))
    } else {
        None
    }
}

/// The two parts of a clause: what stands before its first `[`, and what
/// stands between that bracket and the `]` that ends the clause.
pub open spec fn clause_parts(clause: Seq<char>) -> Option<(Seq<char>, Seq<char>)> {
    match clause.index_of_first('[') {
        Some(open) if 0 <= open && open + 2 <= clause.len() && clause.last() == ']' => Some(
            (clause.take(open), clause.subrange(open + 1, clause.len() - 1)),
        ),
        _ => None,
    }
}

/// What a clause says. A clause that is not of the form `<days>[<ranges>]`
/// is a malformed schedule; one whose ranges cannot be read holds a
/// malformed range.
pub open spec fn day_group_of_clause(clause: Seq<char>) -> Result<DayGroupView, ParseError> {
    match clause_parts(clause) {
        None => Err(ParseError::MalformedSpec),
        Some((days, ranges)) => match days_of_text(days) {
            None => Err(ParseError::MalformedSpec),
            Some(days) => match spans_of_ranges(ranges) {
                None => Err(ParseError::MalformedSpan),
                Some(spans) => Ok(DayGroupView { days, spans }),
            },
        },
    }
}

/// The pieces of a text that its commas part, in order. A text without a
/// comma is one piece; between two commas that touch lies an empty piece.
pub open spec fn split_at_commas(text: Seq<char>) -> Seq<Seq<char>>
    decreases text.len(),
{
    match text.index_of_first(',') {
        Some(k) if 0 <= k < text.len() => seq![text.take(k)] + split_at_commas(text.skip(k + 1)),
        _ => seq![text],
    }
}

/// The ranges that a text lists, with commas between them. Every piece has to
/// denote a range.
pub open spec fn spans_of_ranges(ranges: Seq<char>) -> Option<Seq<TimeSpan>> {
    let pieces = split_at_commas(ranges);
    if forall|i: int| 0 <= i < pieces.len() ==> span_of_text(#[trigger] pieces[i]) is Some {
        Some(pieces.map_values(|piece: Seq<char>| span_of_text(piece).unwrap()))
    } else {
        None
    }
}

/// Where `text` has its first comma at `at`, it splits there.
proof fn lemma_split_at_first_comma(text: Seq<char>, at: int)
    requires
        0 <= at < text.len(),
        text[at] == ',',
        forall|j: int| 0 <= j < at ==> text[j] != ',',
    ensures
        split_at_commas(text) == seq![text.take(at)] + split_at_commas(text.skip(at + 1)),
{
    text.index_of_first_ensures(',');
    assert(text.contains(','));
}

/// A text without a comma is one piece.
proof fn lemma_split_without_comma(text: Seq<char>)
    requires
        forall|j: int| 0 <= j < text.len() ==> text[j] != ',',
    ensures
        split_at_commas(text) == seq![text],
{
    text.index_of_first_ensures(',');
}

/// Reads the ranges between the brackets of a clause.
fn parse_ranges(ranges: &str) -> (spans: Option<Vec<TimeSpan>>)
    ensures
        match spans_of_ranges(ranges@) {
            Some(listed) => spans matches Some(found) && found@ == listed,
            None => spans is None,
        },
{
    let n: usize = ranges.unicode_len();
    let mut spans: Vec<TimeSpan> = Vec::new();
    let ghost mut done: Seq<Seq<char>> = Seq::empty();
    let mut from: usize = 0;
    let mut i: usize = 0;
    assert(ranges@.skip(0) == ranges@);
    assert(done + split_at_commas(ranges@) == split_at_commas(ranges@));
    while i < n
        invariant
            n == ranges@.len(),
            from <= i <= n,
            forall|j: int| from <= j < i ==> ranges@[j] != ',',
            split_at_commas(ranges@) == done + split_at_commas(ranges@.skip(from as int)),
            spans@.len() == done.len(),
            forall|k: int| 0 <= k < done.len() ==> span_of_text(#[trigger] done[k]) == Some(spans@[k]),
        decreases n - i,
    {
        if ranges.get_char(i) == ',' {
            let piece = ranges.substring_char(from, i);
            proof {
                let rest = ranges@.skip(from as int);
                lemma_split_at_first_comma(rest, i - from);
                assert(rest.take(i - from) == piece@);
                assert(rest.skip(i - from + 1) == ranges@.skip(i + 1));
                assert(split_at_commas(ranges@) == done.push(piece@) + split_at_commas(
                    ranges@.skip(i + 1),
                ));
            }
            match TimeSpan::from_str(piece) {
                Ok(span) => {
                    spans.push(span);
                    proof {
                        done = done.push(piece@);
                    }
                },
                Err(_) => {
                    assert(split_at_commas(ranges@)[done.len() as int] == piece@);
                    return None;
                },
            }
            from = i + 1;
        }
        i += 1;
    }
    let piece = ranges.substring_char(from, n);
    proof {
        let rest = ranges@.skip(from as int);
        lemma_split_without_comma(rest);
        assert(rest == piece@);
        assert(split_at_commas(ranges@) == done.push(piece@));
    }
    match TimeSpan::from_str(piece) {
        Ok(span) => {
            spans.push(span);
            proof {
                done = done.push(piece@);
                assert(spans@ == done.map_values(|piece: Seq<char>| span_of_text(piece).unwrap()));
            }
            Some(spans)
        },
        Err(_) => {
            assert(split_at_commas(ranges@)[done.len() as int] == piece@);
            None
        },
    }
}

/// Reads the digits in front of the brackets of a clause.
fn parse_days(text: &str) -> (days: Option<Vec<Weekday>>)
    ensures
        match days_of_text(text@) {
            Some(named) => days matches Some(found) && found@ == named,
            None => days is None,
        },
{
    let n: usize = text.unicode_len();
    if n == 0 {
        return None;
    }
    let mut days: Vec<Weekday> = Vec::new();
    let mut i: usize = 0;
    while i < n
        invariant
            n == text@.len(),
            i <= n,
            days@.len() == i,
            forall|k: int| 0 <= k < i ==> Weekday::spec_from_digit(#[trigger] text@[k]) == Some(days@[k]),
        decreases n - i,
    {
        match Weekday::from_digit(text.get_char(i)) {
            Some(day) => days.push(day),
            None => {
                return None;
            },
        }
        i += 1;
    }
    assert(days@ == text@.map_values(|c: char| Weekday::spec_from_digit(c).unwrap()));
    Some(days)
}

impl DayGroup {
    /// Reads one clause of the form `<days>[<ranges>]`.
    pub fn from_str(clause: &str) -> (parsed: Result<DayGroup, ParseError>)
        ensures
            match day_group_of_clause(clause@) {
                Ok(group) => parsed matches Ok(found) && found@ == group,
                Err(error) => parsed matches Err(e) && e == error,
            },
    {
        let n: usize = clause.unicode_len();
        let mut open: usize = 0;
        while open < n && clause.get_char(open) != '['
            invariant
                n == clause@.len(),
                open <= n,
                forall|j: int| 0 <= j < open ==> clause@[j] != '[',
            decreases n - open,
        {
            open += 1;
        }
        proof {
            clause@.index_of_first_ensures('[');
        }
        if open == n || n - open < 2 {
            return Err(ParseError::MalformedSpec);
        }
        if clause.get_char(n - 1) != ']' {
            return Err(ParseError::MalformedSpec);
        }
        let days = match parse_days(clause.substring_char(0, open)) {
            Some(days) => days,
            None => {
                return Err(ParseError::MalformedSpec);
            },
        };
        match parse_ranges(clause.substring_char(open + 1, n - 1)) {
            Some(spans) => Ok(DayGroup { days, spans }),
            None => Err(ParseError::MalformedSpan),
        }
    }
}

} // verus!
