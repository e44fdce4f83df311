//! Time periods used to filter entries by their timestamps, and the text
//! forms they are written in.

use vstd::prelude::*;

use crate::calendar::{
    chrono_date_parse, chrono_date_shift, chrono_datetime_parse, weekday_from_monday,
    chrono_iso_week_monday, date_from_ymd, days_from_monday, iso_week_monday, local_now,
    parse_date_with, parse_datetime_with, shift_days,
};
use crate::datetime::{Date, DateTime, MAX_YEAR, MIN_YEAR, ymd_valid};
use crate::number::{decimal_digits, decimal_text, i32_from_text, parse_i32, parse_u32, u32_from_text};
use crate::text::{
    chars_of, concat, contains_chars, contains_seq, find_char, find_seq, first_index_of,
    first_occurrence, has_char, occurs_at, same_chars, string_from_chars,
};

verus! {

/// A time period used for filtering entries.
#[derive(Clone, Copy, Debug, PartialEq, Eq, Structural)]
pub enum Period {
    /// Inclusive date-time range `[start, end]`.
    Range(DateTime, DateTime),
    /// Matches entries where the field is absent.
    Absent,
}

impl Period {
    /// `field` falls in the period: absent for [`Period::Absent`], inside the
    /// closed range for [`Period::Range`].
    pub open spec fn admits(self, field: Option<DateTime>) -> bool {
        match self {
            Period::Absent => field is None,
            Period::Range(start, end) => match field {
                Some(dt) => start.not_after(dt) && dt.not_after(end),
                None => false,
            },
        }
    }

    /// An event spanning `[event_start, event_end]` overlaps the period.  A
    /// missing bound is unbounded; an event with neither bound only matches
    /// [`Period::Absent`].
    pub open spec fn overlaps(self, event_start: Option<DateTime>, event_end: Option<DateTime>) -> bool {
        match self {
            Period::Absent => event_start is None && event_end is None,
            Period::Range(ps, pe) => {
                if event_start is None && event_end is None {
                    false
                } else {
                    !(event_start matches Some(es) && pe.before(es)) && !(event_end matches Some(
                        ee,
                    ) && ee.before(ps))
                }
            },
        }
    }

    /// Whether the period matches the optional field value.
    pub fn matches(&self, field: Option<DateTime>) -> (res: bool)
        ensures
            res == self.admits(field),
    {
        match self {
            Period::Absent => field.is_none(),
            Period::Range(start, end) => match field {
                Some(dt) => start.is_not_after(&dt) && dt.is_not_after(end),
                None => false,
            },
        }
    }

    /// Whether the event `[event_start, event_end]` overlaps the period.
    pub fn overlaps_event(&self, event_start: Option<DateTime>, event_end: Option<DateTime>) -> (res: bool)
        ensures
            res == self.overlaps(event_start, event_end),
    {
        match self {
            Period::Absent => event_start.is_none() && event_end.is_none(),
            Period::Range(ps, pe) => {
                if event_start.is_none() && event_end.is_none() {
                    return false;
                }
                let after_period_end = match event_start {
                    Some(es) => pe.is_before(&es),
                    None => false,
                };
                let before_period_start = match event_end {
                    Some(ee) => ee.is_before(ps),
                    None => false,
                };
                !after_period_end && !before_period_start
            },
        }
    }
}

/// A one-instant event overlaps a period exactly when that instant matches it.
pub proof fn lemma_point_event_overlap(p: Period, t: DateTime)
    ensures
        p.overlaps(Some(t), Some(t)) == p.admits(Some(t)),
{
    match p {
        Period::Absent => {},
        Period::Range(ps, pe) => {
            crate::datetime::lemma_datetime_order(pe, t);
            crate::datetime::lemma_datetime_order(t, ps);
        },
    }
}

/// The whole days from `first` to `last`: from 00:00:00 of the first to
/// 23:59:59 of the last.
pub open spec fn day_span(first: Date, last: Date) -> Period {
    Period::Range(first.start_of_day(), last.end_of_day())
}

/// A day period matches exactly the whole-second date-times of that day.
pub proof fn lemma_day_span_matches_its_day(d: Date, t: DateTime)
    requires
        t.valid(),
        t.nano == 0,
    ensures
        day_span(d, d).admits(Some(t)) == (t.date == d),
{
}

/// Wrap a date range into a [`Period::Range`] of whole days.
pub fn day_range(first: Date, last: Date) -> (res: Period)
    ensures
        res == day_span(first, last),
{
    Period::Range(first.at_start_of_day(), last.at_end_of_day())
}

// ── reading date-times ───────────────────────────────────────────────────────

/// How a date-time is read: `YYYY-MM-DDTHH:MM:SS`, else `YYYY-MM-DDTHH:MM`,
/// else a date alone at the start of the day (or its last second when
/// `end_of_day`).
pub open spec fn datetime_reading(s: Seq<char>, end_of_day: bool) -> Option<DateTime> {
    match chrono_datetime_parse(s, "%Y-%m-%dT%H:%M:%S"@) {
        Some(dt) => Some(dt),
        None => match chrono_datetime_parse(s, "%Y-%m-%dT%H:%M"@) {
            Some(dt) => Some(dt),
            None => match chrono_date_parse(s, "%Y-%m-%d"@) {
                Some(d) => Some(
                    if end_of_day {
                        d.end_of_day()
                    } else {
                        d.start_of_day()
                    },
                ),
                None => None,
            },
        },
    }
}

pub open spec fn invalid_datetime_message(s: Seq<char>) -> Seq<char> {
    "`"@ + s + "` is not a valid date/datetime — expected YYYY-MM-DD or YYYY-MM-DDTHH:MM"@
}

pub open spec fn datetime_result(s: Seq<char>, end_of_day: bool) -> Result<DateTime, Seq<char>> {
    match datetime_reading(s, end_of_day) {
        Some(dt) => Ok(dt),
        None => Err(invalid_datetime_message(s)),
    }
}

pub open spec fn result_view<T>(r: Result<T, String>) -> Result<T, Seq<char>> {
    match r {
        Ok(v) => Ok(v),
        Err(e) => Err(e@),
    }
}

/// The date-time read from `s`, given what the three formats read from it:
/// seconds precision first, then minutes, then a date alone.
pub fn datetime_from_readings(
    s: &str,
    with_seconds: Option<DateTime>,
    with_minutes: Option<DateTime>,
    date_only: Option<Date>,
    end_of_day: bool,
) -> (res: Result<DateTime, String>)
    ensures
        result_view(res) == (match with_seconds {
            Some(dt) => Ok(dt),
            None => match with_minutes {
                Some(dt) => Ok(dt),
                None => match date_only {
                    Some(d) => Ok(
                        if end_of_day {
                            d.end_of_day()
                        } else {
                            d.start_of_day()
                        },
                    ),
                    None => Err(invalid_datetime_message(s@)),
                },
            },
        }),
{
    if let Some(dt) = with_seconds {
        return Ok(dt);
    }
    if let Some(dt) = with_minutes {
        return Ok(dt);
    }
    if let Some(d) = date_only {
        return Ok(
            if end_of_day {
                d.at_end_of_day()
            } else {
                d.at_start_of_day()
            },
        );
    }
    let m = concat(
        &concat("`", s),
        "` is not a valid date/datetime — expected YYYY-MM-DD or YYYY-MM-DDTHH:MM",
    );
    Err(m)
}

/// Read a date-time from `YYYY-MM-DD`, `YYYY-MM-DDTHH:MM` or
/// `YYYY-MM-DDTHH:MM:SS`; a date alone is read as the start of that day.
pub fn parse_datetime(s: &str) -> (res: Result<DateTime, String>)
    ensures
        result_view(res) == datetime_result(s@, false),
        res matches Ok(dt) ==> dt.valid(),
        // A time written to the second is read as exactly that time.
        chrono_datetime_parse(s@, "%Y-%m-%dT%H:%M:%S"@) matches Some(dt) ==> res == Ok::<DateTime, String>(dt),
{
    let a = parse_datetime_with(s, "%Y-%m-%dT%H:%M:%S");
    let b = parse_datetime_with(s, "%Y-%m-%dT%H:%M");
    let c = parse_date_with(s, "%Y-%m-%d");
    datetime_from_readings(s, a, b, c, false)
}

/// Like [`parse_datetime`], but a date alone is read as its last second,
/// 23:59:59.
pub fn parse_datetime_end(s: &str) -> (res: Result<DateTime, String>)
    ensures
        result_view(res) == datetime_result(s@, true),
        res matches Ok(dt) ==> dt.valid(),
        // A time written to the second is read as exactly that time.
        chrono_datetime_parse(s@, "%Y-%m-%dT%H:%M:%S"@) matches Some(dt) ==> res == Ok::<DateTime, String>(dt),
{
    let a = parse_datetime_with(s, "%Y-%m-%dT%H:%M:%S");
    let b = parse_datetime_with(s, "%Y-%m-%dT%H:%M");
    let c = parse_date_with(s, "%Y-%m-%d");
    datetime_from_readings(s, a, b, c, true)
}

/// A text that `chrono` reads with an explicit time to the second is read as
/// exactly that time, whether it starts or ends a range: the end of day
/// applies only to a date written alone.
pub proof fn lemma_explicit_time_reads_alike(s: Seq<char>, dt: DateTime)
    requires
        chrono_datetime_parse(s, "%Y-%m-%dT%H:%M:%S"@) == Some(dt),
    ensures
        datetime_result(s, false) == Ok::<DateTime, Seq<char>>(dt),
        datetime_result(s, true) == Ok::<DateTime, Seq<char>>(dt),
        datetime_reading(s, true) == datetime_reading(s, false),
{
}

/// Reading a text as the start or as the end of a range succeeds alike, on
/// the same day, the start never after the end.
pub proof fn lemma_range_ends_same_day(s: Seq<char>)
    ensures
        datetime_reading(s, true) is Some == datetime_reading(s, false) is Some,
        datetime_reading(s, true) is Some ==> ({
            let e = datetime_reading(s, true)->0;
            let b = datetime_reading(s, false)->0;
            e.date == b.date && !e.before(b)
        }),
{
}

/// A range `START/END` whose two sides `chrono` reads with explicit times to
/// the second reads as the range from the first time to the second.
pub proof fn lemma_explicit_range_reads_back(start: Seq<char>, end: Seq<char>, a: DateTime, b: DateTime, today: Date)
    requires
        !has_char(start, '/'),
        chrono_datetime_parse(start, "%Y-%m-%dT%H:%M:%S"@) == Some(a),
        chrono_datetime_parse(end, "%Y-%m-%dT%H:%M:%S"@) == Some(b),
    ensures
        period_reading(start + "/"@ + end, today) == Some(Ok::<Period, Seq<char>>(Period::Range(a, b))),
{
    reveal_strlit("/");
    let s = start + "/"@ + end;
    let n = start.len() as int;
    assert(s[n] == '/');
    assert(has_char(s, '/'));
    assert(first_index_of(s, '/', n)) by {
        assert forall|j: int| 0 <= j < n implies s[j] != '/' by {
            assert(s[j] == start[j]);
        }
    }
    let i = first_char_at(s, '/');
    assert(i == n) by {
        if i < n {
            assert(s[i] == start[i]);
        } else if i > n {
            assert(s[n] == '/');
        }
    }
    assert(s.subrange(0, n) =~= start);
    assert(s.subrange(n + 1, s.len() as int) =~= end);
    assert(!relative_name(s)) by {
        reveal_strlit("none");
        reveal_strlit("today");
        reveal_strlit("yesterday");
        reveal_strlit("tomorrow");
        reveal_strlit("this_week");
        reveal_strlit("last_week");
        reveal_strlit("next_week");
        reveal_strlit("this_month");
        reveal_strlit("last_month");
        reveal_strlit("next_month");
        let names = seq!["none"@, "today"@, "yesterday"@, "tomorrow"@, "this_week"@, "last_week"@, "next_week"@,
            "this_month"@, "last_month"@, "next_month"@];
        assert forall|k: int| 0 <= k < names.len() implies s != #[trigger] names[k] by {
            if s == names[k] {
                assert(names[k][n] == '/');
            }
        }
        assert(names[0] == "none"@ && names[1] == "today"@ && names[2] == "yesterday"@ && names[3] == "tomorrow"@
            && names[4] == "this_week"@ && names[5] == "last_week"@ && names[6] == "next_week"@ && names[7]
            == "this_month"@ && names[8] == "last_month"@ && names[9] == "next_month"@);
    }
}

/// How a frontmatter time is read: minutes precision first, then seconds,
/// then fractional seconds, else a date alone at the fallback time
/// `hour:minute`.
pub open spec fn frontmatter_time_reading(s: Seq<char>, hour: u32, minute: u32) -> Option<DateTime> {
    match chrono_datetime_parse(s, "%Y-%m-%dT%H:%M"@) {
        Some(dt) => Some(dt),
        None => match chrono_datetime_parse(s, "%Y-%m-%dT%H:%M:%S"@) {
            Some(dt) => Some(dt),
            None => match chrono_datetime_parse(s, "%Y-%m-%dT%H:%M:%S%.f"@) {
                Some(dt) => Some(dt),
                None => match chrono_date_parse(s, "%Y-%m-%d"@) {
                    Some(d) => Some(DateTime { date: d, hour, minute, second: 0, nano: 0 }),
                    None => None,
                },
            },
        },
    }
}

/// Read a frontmatter time, a date alone meaning `hour:minute` of that day
/// (`00:00` for start times, `23:59` for due dates and event ends).
pub fn parse_with_fallback(s: &str, hour: u32, minute: u32) -> (res: Result<DateTime, String>)
    requires
        hour < 24,
        minute < 60,
    ensures
        match res {
            Ok(dt) => frontmatter_time_reading(s@, hour, minute) == Some(dt) && dt.valid(),
            Err(e) => frontmatter_time_reading(s@, hour, minute) is None && e@ == "cannot parse `"@ + s@
                + "` as a datetime; expected format YYYY-MM-DDTHH:MM"@,
        },
{
    if let Some(dt) = parse_datetime_with(s, "%Y-%m-%dT%H:%M") {
        return Ok(dt);
    }
    if let Some(dt) = parse_datetime_with(s, "%Y-%m-%dT%H:%M:%S") {
        return Ok(dt);
    }
    if let Some(dt) = parse_datetime_with(s, "%Y-%m-%dT%H:%M:%S%.f") {
        return Ok(dt);
    }
    if let Some(d) = parse_date_with(s, "%Y-%m-%d") {
        return Ok(DateTime { date: d, hour, minute, second: 0, nano: 0 });
    }
    Err(concat(&concat("cannot parse `", s), "` as a datetime; expected format YYYY-MM-DDTHH:MM"))
}

// ── calendar spans ──────────────────────────────────────────────────────────

/// The Monday-to-Sunday ISO week holding `d`; `None` where `chrono` would run
/// out of range (where the date arithmetic would overflow).
pub open spec fn iso_week_span(d: Date) -> Option<(Date, Date)> {
    match chrono_date_shift(d, -weekday_from_monday(d)) {
        Some(monday) => match chrono_date_shift(monday, 6) {
            Some(sunday) => Some((monday, sunday)),
            None => None,
        },
        None => None,
    }
}

/// First and last day of month `m` of year `y`; `None` where `chrono` cannot
/// represent them.
pub open spec fn month_span(y: int, m: int) -> Option<(Date, Date)> {
    if !ymd_valid(y, m, 1) {
        None
    } else {
        let ny = if m == 12 { y + 1 } else { y };
        let nm = if m == 12 { 1 } else { m + 1 };
        if !ymd_valid(ny, nm, 1) {
            None
        } else {
            match chrono_date_shift(Date { year: ny as i32, month: nm as u32, day: 1 }, -1) {
                Some(last) => Some((Date { year: y as i32, month: m as u32, day: 1 }, last)),
                None => None,
            }
        }
    }
}

/// The ISO week (Monday to Sunday) containing `d`.
pub fn iso_week_range(d: Date) -> (res: Option<(Date, Date)>)
    requires
        d.valid(),
    ensures
        res == iso_week_span(d),
        MIN_YEAR < d.year < MAX_YEAR ==> res is Some,
{
    let back = days_from_monday(d);
    let monday = shift_days(d, -(back as i64))?;
    let sunday = shift_days(monday, 6)?;
    Some((monday, sunday))
}

/// The first and last day of the month `month` of `year`.
pub fn month_range(year: i32, month: u32) -> (res: Option<(Date, Date)>)
    ensures
        res == month_span(year as int, month as int),
        (MIN_YEAR < year < MAX_YEAR && 1 <= month <= 12) ==> res is Some,
        res matches Some((first, last)) ==> first == (Date { year, month, day: 1 }) && last == (Date {
            year,
            month,
            day: crate::datetime::days_in_month(year as int, month as int) as u32,
        }),
{
    let first = date_from_ymd(year, month, 1)?;
    let (ny, nm) = if month == 12 {
        (year + 1, 1u32)
    } else {
        (year, month + 1)
    };
    assert((MIN_YEAR < year < MAX_YEAR && 1 <= month <= 12) ==> ymd_valid(ny as int, nm as int, 1));
    let next = date_from_ymd(ny, nm, 1)?;
    let last = shift_days(next, -1)?;
    Some((first, last))
}

// ── ISO weeks ────────────────────────────────────────────────────────────────

/// Where the week marker `-W` (else `-w`) starts in `s`.
pub open spec fn week_marker(s: Seq<char>) -> Option<int> {
    if contains_seq(s, "-W"@) {
        Some(choose|i: int| first_occurrence(s, "-W"@, i))
    } else if contains_seq(s, "-w"@) {
        Some(choose|i: int| first_occurrence(s, "-w"@, i))
    } else {
        None
    }
}

/// Reading of `YYYY-Www`: `None` where `chrono` runs out of range, else the
/// Monday and Sunday of the week or the message that explains the error.
pub open spec fn iso_week_reading(s: Seq<char>) -> Option<Result<(Date, Date), Seq<char>>> {
    match week_marker(s) {
        None => Some(Err("`"@ + s + "` is not a valid ISO week — expected YYYY-Www"@)),
        Some(i) => {
            let year_s = s.subrange(0, i);
            let week_s = s.subrange(i + 2, s.len() as int);
            match i32_from_text(year_s) {
                None => Some(Err("`"@ + year_s + "` is not a valid year"@)),
                Some(year) => match u32_from_text(week_s) {
                    None => Some(Err("`"@ + week_s + "` is not a valid week number"@)),
                    Some(week) => if week == 0 || week > 53 {
                        Some(
                            Err(
                                "week number "@ + decimal_digits(week as nat)
                                    + " is out of range (1–53)"@,
                            ),
                        )
                    } else if !(MIN_YEAR <= year <= MAX_YEAR) {
                        Some(Err("`"@ + s + "` does not correspond to a valid ISO week"@))
                    } else {
                        match chrono_iso_week_monday(year as int, week as int) {
                            None => Some(
                                Err("`"@ + s + "` does not correspond to a valid ISO week"@),
                            ),
                            Some(monday) => match chrono_date_shift(monday, 6) {
                                Some(sunday) => Some(Ok((monday, sunday))),
                                None => None,
                            },
                        }
                    },
                },
            }
        },
    }
}

pub open spec fn option_result_view<T>(r: Option<Result<T, String>>) -> Option<Result<T, Seq<char>>> {
    match r {
        Some(x) => Some(result_view(x)),
        None => None,
    }
}

/// Read an ISO week such as `2026-W15` as its Monday and Sunday.  `None`
/// where the Sunday falls outside `chrono`'s range.
pub fn parse_iso_week(s: &str) -> (res: Option<Result<(Date, Date), String>>)
    ensures
        option_result_view(res) == iso_week_reading(s@),
{
    proof {
        reveal_strlit("-W");
        reveal_strlit("-w");
    }
    let v = chars_of(s);
    let upper = chars_of("-W");
    let lower = chars_of("-w");
    let marker = match find_seq(&v, &upper) {
        Some(i) => Some(i),
        None => find_seq(&v, &lower),
    };
    proof {
        match marker {
            Some(i) => {
                if contains_seq(v@, "-W"@) {
                    let j = choose|j: int| first_occurrence(v@, "-W"@, j);
                    assert(j == i);
                } else {
                    let j = choose|j: int| first_occurrence(v@, "-w"@, j);
                    assert(j == i);
                }
            },
            None => {},
        }
    }
    let i = match marker {
        Some(i) => i,
        None => {
            let m = concat(&concat("`", s), "` is not a valid ISO week — expected YYYY-Www");
            return Some(Err(m));
        },
    };
    assert(i + 2 <= v@.len()) by {
        assert(upper@.len() == 2 && lower@.len() == 2);
        assert(occurs_at(v@, upper@, i as int) || occurs_at(v@, lower@, i as int));
    }
    let year_s = &v[0..i];
    let week_s = &v[i + 2..v.len()];
    let year = match parse_i32(year_s) {
        Some(y) => y,
        None => {
            let t = string_from_chars(year_s);
            return Some(Err(concat(&concat("`", t.as_str()), "` is not a valid year")));
        },
    };
    let week = match parse_u32(week_s) {
        Some(w) => w,
        None => {
            let t = string_from_chars(week_s);
            return Some(Err(concat(&concat("`", t.as_str()), "` is not a valid week number")));
        },
    };
    if week == 0 || week > 53 {
        let digits = string_from_chars(&decimal_text(week as u64));
        return Some(Err(concat(&concat("week number ", digits.as_str()), " is out of range (1–53)")));
    }
    if year < MIN_YEAR || year > MAX_YEAR {
        let m = concat(&concat("`", s), "` does not correspond to a valid ISO week");
        return Some(Err(m));
    }
    let monday = match iso_week_monday(year, week) {
        Some(d) => d,
        None => {
            let m = concat(&concat("`", s), "` does not correspond to a valid ISO week");
            return Some(Err(m));
        },
    };
    let sunday = shift_days(monday, 6)?;
    Some(Ok((monday, sunday)))
}

// ── periods ──────────────────────────────────────────────────────────────────

pub open spec fn span_period(r: Option<(Date, Date)>) -> Option<Result<Period, Seq<char>>> {
    match r {
        Some((a, b)) => Some(Ok(day_span(a, b))),
        None => None,
    }
}

/// The day `days` days from `today`, as a period.
pub open spec fn shifted_day(today: Date, days: int) -> Option<Result<Period, Seq<char>>> {
    match chrono_date_shift(today, days) {
        Some(d) => Some(Ok(day_span(d, d))),
        None => None,
    }
}

/// The week holding the day `days` days from `today`.
pub open spec fn shifted_week(today: Date, days: int) -> Option<Result<Period, Seq<char>>> {
    match chrono_date_shift(today, days) {
        Some(d) => span_period(iso_week_span(d)),
        None => None,
    }
}

pub open spec fn first_char_at(s: Seq<char>, c: char) -> int {
    choose|i: int| first_index_of(s, c, i)
}

/// `start/end`, split at the first `/`.
pub open spec fn slash_reading(s: Seq<char>) -> Option<Result<Period, Seq<char>>> {
    split_reading(s, '/')
}

/// A range written as its start and end around the first `sep`: dates alone
/// run from the start of the first day to the end of the last.
pub open spec fn split_reading(s: Seq<char>, sep: char) -> Option<Result<Period, Seq<char>>> {
    let i = first_char_at(s, sep);
    let left = s.subrange(0, i);
    let right = s.subrange(i + 1, s.len() as int);
    match datetime_reading(left, false) {
        None => Some(Err("`"@ + left + "` is not a valid date/datetime in period `"@ + s + "`"@)),
        Some(start) => match datetime_reading(right, true) {
            None => Some(
                Err("`"@ + right + "` is not a valid date/datetime in period `"@ + s + "`"@),
            ),
            Some(end) => Some(Ok(Period::Range(start, end))),
        },
    }
}

/// `YYYY-MM`: year and month, split at the first `-`, the month in `1..=12`.
pub open spec fn year_month_reading(s: Seq<char>) -> Option<(int, int)> {
    if has_char(s, '-') {
        let i = first_char_at(s, '-');
        match (i32_from_text(s.subrange(0, i)), u32_from_text(s.subrange(i + 1, s.len() as int))) {
            (Some(y), Some(m)) => if 1 <= m <= 12 {
                Some((y as int, m as int))
            } else {
                None
            },
            _ => None,
        }
    } else {
        None
    }
}

/// `YYYY` with a four-digit year.
pub open spec fn year_reading(s: Seq<char>) -> Option<int> {
    match i32_from_text(s) {
        Some(y) => if 1000 <= y <= 9999 {
            Some(y as int)
        } else {
            None
        },
        None => None,
    }
}

pub open spec fn invalid_period_message(s: Seq<char>) -> Seq<char> {
    "`"@ + s
        + "` is not a valid period — accepted: none | today | yesterday | tomorrow | this_week | last_week | next_week | this_month | last_month | next_month | YYYY | YYYY-MM | YYYY-Www | YYYY-MM-DD | YYYY-MM-DD/YYYY-MM-DD | YYYY-MM-DDTHH:MM/YYYY-MM-DDTHH:MM"@
}

/// How a period string reads on the day `today`.  `None` marks the inputs on
/// which `chrono` runs out of its date range; otherwise the period or the
/// message explaining why the text is not one.
pub open spec fn period_reading(s: Seq<char>, today: Date) -> Option<Result<Period, Seq<char>>> {
    if s == "none"@ {
        Some(Ok(Period::Absent))
    } else if s == "today"@ {
        Some(Ok(day_span(today, today)))
    } else if s == "yesterday"@ {
        shifted_day(today, -1)
    } else if s == "tomorrow"@ {
        shifted_day(today, 1)
    } else if s == "this_week"@ {
        span_period(iso_week_span(today))
    } else if s == "last_week"@ {
        shifted_week(today, -7)
    } else if s == "next_week"@ {
        shifted_week(today, 7)
    } else if s == "this_month"@ {
        span_period(month_span(today.year as int, today.month as int))
    } else if s == "last_month"@ {
        if today.month == 1 {
            span_period(month_span(today.year - 1, 12))
        } else {
            span_period(month_span(today.year as int, today.month - 1))
        }
    } else if s == "next_month"@ {
        if today.month == 12 {
            span_period(month_span(today.year + 1, 1))
        } else {
            span_period(month_span(today.year as int, today.month + 1))
        }
    } else if has_char(s, '/') {
        slash_reading(s)
    } else if contains_seq(s, "-W"@) || contains_seq(s, "-w"@) {
        match iso_week_reading(s) {
            None => None,
            Some(Err(m)) => Some(Err(m)),
            Some(Ok((a, b))) => Some(Ok(day_span(a, b))),
        }
    } else if chrono_date_parse(s, "%Y-%m-%d"@) is Some {
        let d = chrono_date_parse(s, "%Y-%m-%d"@)->0;
        Some(Ok(day_span(d, d)))
    } else if year_month_reading(s) is Some {
        let (y, m) = year_month_reading(s)->0;
        span_period(month_span(y, m))
    } else if year_reading(s) is Some {
        let y = year_reading(s)->0;
        Some(
            Ok(
                day_span(
                    Date { year: y as i32, month: 1, day: 1 },
                    Date { year: y as i32, month: 12, day: 31 },
                ),
            ),
        )
    } else {
        Some(Err(invalid_period_message(s)))
    }
}

pub(crate) fn is_word(v: &Vec<char>, word: &str) -> (res: bool)
    ensures
        res == (v@ == word@),
{
    same_chars(v, &chars_of(word))
}

pub(crate) fn day_period(d: Option<Date>) -> (res: Option<Result<Period, String>>)
    ensures
        option_result_view(res) == (match d {
            Some(x) => Some(Ok::<Period, Seq<char>>(day_span(x, x))),
            None => None,
        }),
{
    let x = d?;
    Some(Ok(day_range(x, x)))
}

pub(crate) fn span_result(r: Option<(Date, Date)>) -> (res: Option<Result<Period, String>>)
    ensures
        option_result_view(res) == span_period(r),
        r is Some ==> res matches Some(Ok(_)),
{
    let (a, b) = r?;
    Some(Ok(day_range(a, b)))
}

fn week_result(d: Option<Date>) -> (res: Option<Result<Period, String>>)
    requires
        d matches Some(x) ==> x.valid(),
    ensures
        option_result_view(res) == (match d {
            Some(x) => span_period(iso_week_span(x)),
            None => None,
        }),
        (d matches Some(x) && MIN_YEAR < x.year < MAX_YEAR) ==> res matches Some(Ok(_)),
{
    let x = d?;
    span_result(iso_week_range(x))
}

pub(crate) fn split_period(s: &str, v: &Vec<char>, i: usize, sep: char) -> (res: Option<Result<Period, String>>)
    requires
        v@ == s@,
        first_index_of(v@, sep, i as int),
    ensures
        option_result_view(res) == split_reading(s@, sep),
{
    proof {
        let j = first_char_at(s@, sep);
        assert(first_index_of(s@, sep, j));
        assert(j == i);
    }
    assert(i < v.len());
    let left = string_from_chars(&v[0..i]);
    let right = string_from_chars(&v[i + 1..v.len()]);
    let start = match parse_datetime(left.as_str()) {
        Ok(dt) => dt,
        Err(_) => {
            let m = concat(
                &concat(&concat(&concat("`", left.as_str()), "` is not a valid date/datetime in period `"), s),
                "`",
            );
            return Some(Err(m));
        },
    };
    let end = match parse_datetime_end(right.as_str()) {
        Ok(dt) => dt,
        Err(_) => {
            let m = concat(
                &concat(&concat(&concat("`", right.as_str()), "` is not a valid date/datetime in period `"), s),
                "`",
            );
            return Some(Err(m));
        },
    };
    Some(Ok(Period::Range(start, end)))
}

/// The names of periods relative to today.
pub open spec fn relative_name(s: Seq<char>) -> bool {
    ||| s == "none"@
    ||| s == "today"@
    ||| s == "yesterday"@
    ||| s == "tomorrow"@
    ||| s == "this_week"@
    ||| s == "last_week"@
    ||| s == "next_week"@
    ||| s == "this_month"@
    ||| s == "last_month"@
    ||| s == "next_month"@
}

/// Read a period on the day `today`.
///
/// Accepted: `none` (field absent); `today`, `yesterday`, `tomorrow`;
/// `this_week`, `last_week`, `next_week` (ISO weeks, Monday to Sunday);
/// `this_month`, `last_month`, `next_month`; `YYYY`; `YYYY-MM`; `YYYY-Www`;
/// `YYYY-MM-DD`; and `START/END` with dates or date-times (dates alone cover
/// whole days).  `None` is returned where the date arithmetic leaves the range
/// `chrono` can represent.
pub fn parse_period_at(s: &str, today: Date) -> (res: Option<Result<Period, String>>)
    requires
        today.valid(),
    ensures
        option_result_view(res) == period_reading(s@, today),
        // The relative names always read as a period on a day at least two
        // years inside the range of dates `chrono` represents.
        (MIN_YEAR + 2 <= today.year <= MAX_YEAR - 2 && relative_name(s@)) ==> res matches Some(Ok(_)),
{
    let v = chars_of(s);
    if is_word(&v, "none") {
        return Some(Ok(Period::Absent));
    }
    if is_word(&v, "today") {
        return Some(Ok(day_range(today, today)));
    }
    if is_word(&v, "yesterday") {
        return day_period(shift_days(today, -1));
    }
    if is_word(&v, "tomorrow") {
        return day_period(shift_days(today, 1));
    }
    if is_word(&v, "this_week") {
        return week_result(Some(today));
    }
    if is_word(&v, "last_week") {
        return week_result(shift_days(today, -7));
    }
    if is_word(&v, "next_week") {
        return week_result(shift_days(today, 7));
    }
    if is_word(&v, "this_month") {
        return span_result(month_range(today.year, today.month));
    }
    if is_word(&v, "last_month") {
        if today.month == 1 {
            return span_result(month_range(today.year - 1, 12));
        } else {
            return span_result(month_range(today.year, today.month - 1));
        }
    }
    if is_word(&v, "next_month") {
        if today.month == 12 {
            return span_result(month_range(today.year + 1, 1));
        } else {
            return span_result(month_range(today.year, today.month + 1));
        }
    }
    if let Some(i) = find_char(&v, '/') {
        return split_period(s, &v, i, '/');
    }
    if contains_chars(&v, &chars_of("-W")) || contains_chars(&v, &chars_of("-w")) {
        return match parse_iso_week(s) {
            None => None,
            Some(Err(m)) => Some(Err(m)),
            Some(Ok((a, b))) => Some(Ok(day_range(a, b))),
        };
    }
    if let Some(d) = parse_date_with(s, "%Y-%m-%d") {
        return Some(Ok(day_range(d, d)));
    }
    if let Some(i) = find_char(&v, '-') {
        proof {
            let j = first_char_at(s@, '-');
            assert(first_index_of(s@, '-', j));
            assert(j == i);
        }
        if let (Some(year), Some(month)) = (parse_i32(&v[0..i]), parse_u32(&v[i + 1..v.len()])) {
            if 1 <= month && month <= 12 {
                return span_result(month_range(year, month));
            }
        }
    }
    if let Some(year) = parse_i32(&v) {
        if 1000 <= year && year <= 9999 {
            let first = Date { year, month: 1, day: 1 };
            let last = Date { year, month: 12, day: 31 };
            return Some(Ok(day_range(first, last)));
        }
    }
    let m = concat(
        &concat("`", s),
        "` is not a valid period — accepted: none | today | yesterday | tomorrow | this_week | last_week | next_week | this_month | last_month | next_month | YYYY | YYYY-MM | YYYY-Www | YYYY-MM-DD | YYYY-MM-DD/YYYY-MM-DD | YYYY-MM-DDTHH:MM/YYYY-MM-DDTHH:MM",
    );
    Some(Err(m))
}

/// Read a period relative to the local date, which the clock gives from 1969
/// on.  `None` where the dates involved leave `chrono`'s range (the caller
/// treats this as fatal); a relative name always reads as a period unless the
/// clock is within two years of the last year `chrono` represents.
pub fn parse_period(s: &str) -> (res: Option<Result<Period, String>>)
    ensures
        exists|today: Date|
            today.valid() && today.year >= 1969 && option_result_view(res) == period_reading(s@, today) && (
            (today.year <= MAX_YEAR - 2 && relative_name(s@)) ==> res matches Some(Ok(_))),
{
    let today = local_now().date;
    parse_period_at(s, today)
}

} // verus!
