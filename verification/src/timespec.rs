//! A weekly schedule: for each day of the week, the ranges of the day during
//! which the schedule is active.

use vstd::prelude::*;

use crate::daygroup::{day_group_of_clause, DayGroup, DayGroupView};
use crate::error::ParseError;
use crate::outside::{find_matches, regex_matches};
use crate::time::{Instant, Weekday};
use crate::timespan::TimeSpan;

verus! {

/// The pattern of a day-group clause: one or more digits from `1` to `7`, then
/// in square brackets one or more of the characters that ranges are written
/// with, which are the digits, `:`, `,` and `-`.
pub const DAY_GROUP_PATTERN: &'static str = "[1-7]+\\[[0-9:,-]+\\]";

/// A weekly schedule. `spans` holds the ranges of each day, from Monday to
/// Sunday; a day is active during each of its ranges.
#[derive(Clone, Debug, PartialEq, Eq, PartialOrd, Ord, Hash)]
pub struct TimeSpec {
    pub spans: [Vec<TimeSpan>; 7],
}

impl View for TimeSpec {
    type V = Seq<Seq<TimeSpan>>;

    /// The ranges of the seven days, Monday first.
    open spec fn view(&self) -> Seq<Seq<TimeSpan>> {
        Seq::new(7, |day: int| self.spans@[day]@)
    }
}

/// The day at a place in the week, Monday being at 0.
pub open spec fn weekday_at(index: int) -> Weekday {
    if index == 0 {
        Weekday::Mon
    } else if index == 1 {
        Weekday::Tue
    } else if index == 2 {
        Weekday::Wed
    } else if index == 3 {
        Weekday::Thu
    } else if index == 4 {
        Weekday::Fri
    } else if index == 5 {
        Weekday::Sat
    } else {
        Weekday::Sun
    }
}

/// The clause's whole list of ranges, once for every time that the clause
/// names the day.
pub open spec fn lists_added(group: DayGroupView, day: Weekday) -> Seq<Seq<TimeSpan>> {
    group.days.filter(|d: Weekday| d == day).map_values(|d: Weekday| group.spans)
}

/// What a clause gives to a day: the clause's whole list of ranges, once for
/// every time that the clause names the day, one list behind the other.
pub open spec fn spans_added(group: DayGroupView, day: Weekday) -> Seq<TimeSpan> {
    lists_added(group, day).flatten()
}

/// The schedule without any range.
pub open spec fn empty_schedule() -> Seq<Seq<TimeSpan>> {
    Seq::new(7, |day: int| Seq::<TimeSpan>::empty())
}

/// A schedule to which a clause has added its ranges, behind those that each
/// day had.
pub open spec fn with_group(schedule: Seq<Seq<TimeSpan>>, group: DayGroupView) -> Seq<
    Seq<TimeSpan>,
> {
    Seq::new(7, |day: int| schedule[day] + spans_added(group, weekday_at(day)))
}

/// The schedule that clauses make, each adding to those before it. One
/// clause that cannot be read spoils the whole; of several, the first one
/// says why.
pub open spec fn schedule_of_groups(clauses: Seq<Seq<char>>) -> Result<
    Seq<Seq<TimeSpan>>,
    ParseError,
>
    decreases clauses.len(),
{
    if clauses.len() == 0 {
        Ok(empty_schedule())
    } else {
        match schedule_of_groups(clauses.drop_last()) {
            Err(error) => Err(error),
            Ok(schedule) => match day_group_of_clause(clauses.last()) {
                Err(error) => Err(error),
                Ok(group) => Ok(with_group(schedule, group)),
            },
        }
    }
}

/// The schedule that the clauses of a notation make. A notation without a
/// clause is malformed.
pub open spec fn schedule_of_clauses(clauses: Seq<Seq<char>>) -> Result<
    Seq<Seq<TimeSpan>>,
    ParseError,
> {
    if clauses.len() == 0 {
        Err(ParseError::MalformedSpec)
    } else {
        schedule_of_groups(clauses)
    }
}

/// The schedule that a text denotes: that of the clauses which match
/// `DAY_GROUP_PATTERN` in it. What stands between the clauses is passed over.
pub open spec fn schedule_of_text(text: Seq<char>) -> Result<Seq<Seq<TimeSpan>>, ParseError> {
    match regex_matches(DAY_GROUP_PATTERN@, text) {
        None => Err(ParseError::MalformedSpec),
        Some(clauses) => schedule_of_clauses(clauses),
    }
}

/// Whether a schedule is active at a moment: one of the ranges of the
/// moment's day contains the moment's time.
pub open spec fn active_at(schedule: Seq<Seq<TimeSpan>>, at: Instant) -> bool {
    exists|i: int|
        0 <= i < schedule[at.weekday.index()].len() && (
        #[trigger] schedule[at.weekday.index()][i]).spec_contains(at.time)
}

/// That `parsed` is what reading a schedule owes where the notation denotes
/// `denoted`.
pub open spec fn parsed_as(
    parsed: Result<TimeSpec, ParseError>,
    denoted: Result<Seq<Seq<TimeSpan>>, ParseError>,
) -> bool {
    match denoted {
        Ok(schedule) => parsed matches Ok(spec) && spec@ == schedule,
        Err(error) => parsed matches Err(e) && e == error,
    }
}

/// What one more day in front of the brackets gives: the whole list of
/// ranges to that day, and nothing to any other.
spec fn spans_for_named(named: Weekday, spans: Seq<TimeSpan>, day: Weekday) -> Seq<TimeSpan> {
    if named == day {
        spans
    } else {
        Seq::empty()
    }
}

proof fn lemma_added_step(days: Seq<Weekday>, spans: Seq<TimeSpan>, k: int, day: Weekday)
    requires
        0 <= k < days.len(),
    ensures
        spans_added(DayGroupView { days: days.take(k + 1), spans }, day) == spans_added(
            DayGroupView { days: days.take(k), spans },
            day,
        ) + spans_for_named(days[k], spans, day),
{
    reveal(Seq::filter);
    let front = DayGroupView { days: days.take(k), spans };
    let whole = DayGroupView { days: days.take(k + 1), spans };
    assert(whole.days.drop_last() == front.days);
    if days[k] == day {
        assert(lists_added(whole, day) == lists_added(front, day).push(spans));
        lists_added(front, day).lemma_flatten_push(spans);
    } else {
        assert(lists_added(whole, day) == lists_added(front, day));
        assert(spans_added(front, day) + Seq::<TimeSpan>::empty() == spans_added(front, day));
    }
}

impl TimeSpec {
    /// The schedule without any range.
    pub fn new() -> (spec: TimeSpec)
        ensures
            spec@ == empty_schedule(),
    {
        TimeSpec {
            spans: [
                Vec::new(),
                Vec::new(),
                Vec::new(),
                Vec::new(),
                Vec::new(),
                Vec::new(),
                Vec::new(),
            ],
        }
    }

    fn push_to_day(&mut self, day: Weekday, span: TimeSpan)
        ensures
            final(self)@ == old(self)@.update(day.index(), old(self)@[day.index()].push(span)),
    {
        let i: usize = (day.number_from_monday() - 1) as usize;
        self.spans[i].push(span);
    }

    /// Gives each day that `group` names the whole list of ranges of `group`,
    /// as often as `group` names the day.
    pub fn add(&mut self, group: &DayGroup)
        ensures
            final(self)@ == with_group(old(self)@, group@),
    {
        let ghost before = self@;
        let ghost days = group.days@;
        let ghost spans = group.spans@;
        let mut k: usize = 0;
        assert forall|day: int| 0 <= day < 7 implies #[trigger] self@[day] == before[day]
            + spans_added(DayGroupView { days: days.take(0), spans }, weekday_at(day)) by {
            reveal(Seq::filter);
        }
        while k < group.days.len()
            invariant
                days == group.days@,
                spans == group.spans@,
                k <= days.len(),
                forall|day: int|
                    0 <= day < 7 ==> #[trigger] self@[day] == before[day] + spans_added(
                        DayGroupView { days: days.take(k as int), spans },
                        weekday_at(day),
                    ),
            decreases days.len() - k,
        {
            let named = group.days[k];
            let ghost given = self@;
            let mut j: usize = 0;
            while j < group.spans.len()
                invariant
                    spans == group.spans@,
                    j <= spans.len(),
                    forall|day: int|
                        0 <= day < 7 ==> #[trigger] self@[day] == given[day] + spans_for_named(
                            named,
                            spans.take(j as int),
                            weekday_at(day),
                        ),
                decreases spans.len() - j,
            {
                self.push_to_day(named, group.spans[j]);
                proof {
                    assert(spans.take(j + 1) == spans.take(j as int).push(spans[j as int]));
                }
                j += 1;
            }
            proof {
                assert(spans.take(spans.len() as int) == spans);
                assert forall|day: int| 0 <= day < 7 implies #[trigger] self@[day] == before[day]
                    + spans_added(
                    DayGroupView { days: days.take(k + 1), spans },
                    weekday_at(day),
                ) by {
                    lemma_added_step(days, spans, k as int, weekday_at(day));
                }
            }
            k += 1;
        }
        proof {
            assert(days.take(days.len() as int) == days);
            assert(self@ =~= with_group(before, group@));
        }
    }

    /// Makes the schedule of clauses of the form `<days>[<ranges>]`.
    pub fn from_clauses(clauses: &Vec<String>) -> (parsed: Result<TimeSpec, ParseError>)
        ensures
            parsed_as(parsed, schedule_of_clauses(clauses.deep_view())),
    {
        if clauses.len() == 0 {
            return Err(ParseError::MalformedSpec);
        }
        let ghost texts = clauses.deep_view();
        let mut spec = TimeSpec::new();
        let mut i: usize = 0;
        assert(texts.take(0) == Seq::<Seq<char>>::empty());
        while i < clauses.len()
            invariant
                texts == clauses.deep_view(),
                i <= clauses.len(),
                schedule_of_groups(texts.take(i as int)) == Ok::<Seq<Seq<TimeSpan>>, ParseError>(
                    spec@,
                ),
            decreases clauses.len() - i,
        {
            assert(texts.take(i + 1).drop_last() == texts.take(i as int));
            assert(texts.take(i + 1).last() == clauses[i as int]@);
            match DayGroup::from_str(clauses[i].as_str()) {
                Ok(group) => {
                    spec.add(&group);
                },
                Err(error) => {
                    proof {
                        lemma_first_error_stays(texts, i + 1);
                    }
                    return Err(error);
                },
            }
            i += 1;
        }
        assert(texts.take(clauses.len() as int) == texts);
        Ok(spec)
    }

    /// Reads a schedule: finds the day-group clauses in `s` and makes their
    /// schedule.
    pub fn from_str(s: &str) -> (parsed: Result<TimeSpec, ParseError>)
        ensures
            parsed_as(parsed, schedule_of_text(s@)),
    {
        match find_matches(DAY_GROUP_PATTERN, s) {
            Some(clauses) => TimeSpec::from_clauses(&clauses),
            None => Err(ParseError::MalformedSpec),
        }
    }

    /// Whether the schedule is active at `time`.
    pub fn is_active(&self, time: Instant) -> (active: bool)
        ensures
            active == active_at(self@, time),
    {
        let day: usize = (time.weekday.number_from_monday() - 1) as usize;
        let mut i: usize = 0;
        while i < self.spans[day].len()
            invariant
                day == time.weekday.index(),
                i <= self@[day as int].len(),
                forall|k: int| 0 <= k < i ==> !(#[trigger] self@[day as int][k]).spec_contains(time.time),
            decreases self@[day as int].len() - i,
        {
            if self.spans[day][i].contains(time.time) {
                return true;
            }
            i += 1;
        }
        false
    }
}

/// That a clause is in force at a moment: it names the moment's day, and one
/// of its ranges contains the moment's time.
pub open spec fn group_covers(group: DayGroupView, at: Instant) -> bool {
    group.days.contains(at.weekday) && exists|j: int|
        0 <= j < group.spans.len() && (#[trigger] group.spans[j]).spec_contains(at.time)
}

/// That one of the ranges in `spans` contains `time`.
spec fn some_contains(spans: Seq<TimeSpan>, time: crate::time::TimeOfDay) -> bool {
    exists|i: int| 0 <= i < spans.len() && (#[trigger] spans[i]).spec_contains(time)
}

proof fn lemma_some_contains_concat(
    front: Seq<TimeSpan>,
    back: Seq<TimeSpan>,
    time: crate::time::TimeOfDay,
)
    ensures
        some_contains(front + back, time) <==> some_contains(front, time) || some_contains(
            back,
            time,
        ),
{
    let both = front + back;
    if some_contains(both, time) {
        let i = choose|i: int| 0 <= i < both.len() && (#[trigger] both[i]).spec_contains(time);
        if i < front.len() {
            assert(front[i].spec_contains(time));
        } else {
            assert(back[i - front.len()].spec_contains(time));
        }
    }
    if some_contains(front, time) {
        let i = choose|i: int| 0 <= i < front.len() && (#[trigger] front[i]).spec_contains(time);
        assert(both[i].spec_contains(time));
    }
    if some_contains(back, time) {
        let i = choose|i: int| 0 <= i < back.len() && (#[trigger] back[i]).spec_contains(time);
        assert(both[front.len() + i].spec_contains(time));
    }
}

/// What a clause gives to the day of a moment contains the moment's time
/// exactly if the clause is in force at the moment.
proof fn lemma_added_contains(days: Seq<Weekday>, spans: Seq<TimeSpan>, at: Instant)
    ensures
        some_contains(spans_added(DayGroupView { days, spans }, at.weekday), at.time)
            <==> group_covers(DayGroupView { days, spans }, at),
    decreases days.len(),
{
    if days.len() == 0 {
        reveal(Seq::filter);
    } else {
        let k = days.len() - 1;
        let front = days.take(k);
        lemma_added_step(days, spans, k, at.weekday);
        assert(days.take(k + 1) == days);
        lemma_added_contains(front, spans, at);
        lemma_some_contains_concat(
            spans_added(DayGroupView { days: front, spans }, at.weekday),
            spans_for_named(days[k], spans, at.weekday),
            at.time,
        );
        if front.contains(at.weekday) {
            let i = choose|i: int| 0 <= i < front.len() && front[i] == at.weekday;
            assert(days[i] == at.weekday);
        }
        if days.contains(at.weekday) {
            let i = choose|i: int| 0 <= i < days.len() && days[i] == at.weekday;
            if i < k {
                assert(front[i] == at.weekday);
            }
        }
    }
}

/// The ranges of a schedule add up. A schedule made of clauses is active at
/// a moment exactly if one of the clauses is in force then: it names the
/// moment's day, and one of its ranges contains the moment's time.
pub proof fn lemma_active_where_a_clause_covers(clauses: Seq<Seq<char>>, at: Instant)
    requires
        schedule_of_groups(clauses) is Ok,
    ensures
        forall|i: int| 0 <= i < clauses.len() ==> day_group_of_clause(#[trigger] clauses[i]) is Ok,
        active_at(schedule_of_groups(clauses)->Ok_0, at) <==> exists|i: int|
            0 <= i < clauses.len() && group_covers(
                day_group_of_clause(#[trigger] clauses[i])->Ok_0,
                at,
            ),
    decreases clauses.len(),
{
    let day = at.weekday.index();
    assert(weekday_at(day) == at.weekday);
    if clauses.len() == 0 {
        assert(!active_at(empty_schedule(), at));
    } else {
        let front = clauses.drop_last();
        let before = schedule_of_groups(front)->Ok_0;
        let group = day_group_of_clause(clauses.last())->Ok_0;
        let after = schedule_of_groups(clauses)->Ok_0;
        lemma_active_where_a_clause_covers(front, at);
        lemma_added_contains(group.days, group.spans, at);
        lemma_some_contains_concat(before[day], spans_added(group, at.weekday), at.time);
        assert(after[day] == before[day] + spans_added(group, at.weekday));
        assert(active_at(after, at) <==> some_contains(after[day], at.time));
        assert(active_at(before, at) <==> some_contains(before[day], at.time));
        assert forall|i: int| 0 <= i < clauses.len() implies day_group_of_clause(
            #[trigger] clauses[i],
        ) is Ok by {
            if i < front.len() {
                assert(clauses[i] == front[i]);
            }
        }
        let covered = |list: Seq<Seq<char>>|
            exists|i: int|
                0 <= i < list.len() && group_covers(
                    day_group_of_clause(#[trigger] list[i])->Ok_0,
                    at,
                );
        if covered(front) {
            let i = choose|i: int|
                0 <= i < front.len() && group_covers(
                    day_group_of_clause(#[trigger] front[i])->Ok_0,
                    at,
                );
            assert(clauses[i] == front[i]);
        }
        if group_covers(group, at) {
            assert(clauses[clauses.len() - 1] == clauses.last());
        }
        if covered(clauses) {
            let i = choose|i: int|
                0 <= i < clauses.len() && group_covers(
                    day_group_of_clause(#[trigger] clauses[i])->Ok_0,
                    at,
                );
            if i < front.len() {
                assert(front[i] == clauses[i]);
            }
        }
    }
}

/// Reading one notation twice gives two equal schedules, or twice the same
/// error.
pub proof fn lemma_reading_twice_agrees(
    text: Seq<char>,
    first: Result<TimeSpec, ParseError>,
    second: Result<TimeSpec, ParseError>,
)
    requires
        parsed_as(first, schedule_of_text(text)),
        parsed_as(second, schedule_of_text(text)),
    ensures
        first is Ok <==> second is Ok,
        first is Ok ==> first->Ok_0@ == second->Ok_0@,
        first is Err ==> first->Err_0 == second->Err_0,
{
}

impl std::str::FromStr for TimeSpec {
    type Err = ParseError;

    /// Reads a schedule, as `TimeSpec::from_str` does: finds the day-group
    /// clauses in `s` and makes their schedule.
    fn from_str(s: &str) -> (parsed: Result<TimeSpec, ParseError>)
        ensures
            parsed_as(parsed, schedule_of_text(s@)),
    {
        TimeSpec::from_str(s)
    }
}

/// Once the clauses up to `upto` cannot be read, no longer list of them can,
/// and the reason stays.
proof fn lemma_first_error_stays(clauses: Seq<Seq<char>>, upto: int)
    requires
        0 <= upto <= clauses.len(),
        schedule_of_groups(clauses.take(upto)) is Err,
    ensures
        schedule_of_groups(clauses) == schedule_of_groups(clauses.take(upto)),
    decreases clauses.len() - upto,
{
    if upto < clauses.len() {
        assert(clauses.take(upto + 1).drop_last() == clauses.take(upto));
        lemma_first_error_stays(clauses, upto + 1);
    } else {
        assert(clauses.take(upto) == clauses);
    }
}

} // verus!
