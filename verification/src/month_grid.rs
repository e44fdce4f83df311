//! Calendar arithmetic behind the month-grid date picker: the days a month
//! page shows, moving by months, and the ranges a click selects.

use vstd::prelude::*;

use crate::calendar::{chrono_date_shift, date_text_of, weekday_from_monday, date_from_ymd, date_text, days_from_monday, shift_days};
use crate::datetime::{Date, MAX_YEAR, MIN_YEAR, days_in_month, ymd_valid};
use crate::period::{Period, month_range};
use crate::text::concat;

verus! {

/// The highlighted range of the grid.
#[derive(Clone, Copy, Debug, PartialEq, Eq, Structural)]
pub enum Selection {
    /// Nothing is highlighted.
    Empty,
    /// The days from the first to the second, both included.
    Range(Date, Date),
}

impl Selection {
    pub open spec fn holds(self, d: Date) -> bool {
        match self {
            Selection::Empty => false,
            Selection::Range(s, e) => s.not_after(d) && d.not_after(e),
        }
    }

    /// `d` lies in the selection.
    pub fn contains(&self, d: Date) -> (res: bool)
        ensures
            res == self.holds(d),
    {
        match self {
            Selection::Empty => false,
            Selection::Range(s, e) => (s.is_before(&d) || *s == d) && (d.is_before(e) || d == *e),
        }
    }
}

pub open spec fn month_abbrev(m: int) -> Seq<char> {
    if m == 1 {
        "Jan"@
    } else if m == 2 {
        "Feb"@
    } else if m == 3 {
        "Mar"@
    } else if m == 4 {
        "Apr"@
    } else if m == 5 {
        "May"@
    } else if m == 6 {
        "Jun"@
    } else if m == 7 {
        "Jul"@
    } else if m == 8 {
        "Aug"@
    } else if m == 9 {
        "Sep"@
    } else if m == 10 {
        "Oct"@
    } else if m == 11 {
        "Nov"@
    } else if m == 12 {
        "Dec"@
    } else {
        "?"@
    }
}

/// The three-letter English name of month `m`, `?` outside `1..=12`.
pub fn month_name(m: u32) -> (res: &'static str)
    ensures
        res@ == month_abbrev(m as int),
{
    if m == 1 {
        "Jan"
    } else if m == 2 {
        "Feb"
    } else if m == 3 {
        "Mar"
    } else if m == 4 {
        "Apr"
    } else if m == 5 {
        "May"
    } else if m == 6 {
        "Jun"
    } else if m == 7 {
        "Jul"
    } else if m == 8 {
        "Aug"
    } else if m == 9 {
        "Sep"
    } else if m == 10 {
        "Oct"
    } else if m == 11 {
        "Nov"
    } else if m == 12 {
        "Dec"
    } else {
        "?"
    }
}

/// The number of days in a month.
pub fn last_day_of_month(year: i32, month: u32) -> (res: u32)
    requires
        MIN_YEAR < year < MAX_YEAR,
        1 <= month <= 12,
    ensures
        res == days_in_month(year as int, month as int),
{
    let (_, last) = month_range(year, month).unwrap();
    last.day
}

/// The first and last day of a month.
pub fn month_bounds(year: i32, month: u32) -> (res: (Date, Date))
    requires
        MIN_YEAR < year < MAX_YEAR,
        1 <= month <= 12,
    ensures
        res.0 == (Date { year, month, day: 1 }),
        res.1 == (Date { year, month, day: days_in_month(year as int, month as int) as u32 }),
{
    month_range(year, month).unwrap()
}

/// The month `n` months after the month of `d` (before, for negative `n`),
/// as a count of months since year 0.
pub open spec fn months_total(d: Date, n: int) -> int {
    d.year * 12 + (d.month - 1) + n
}

/// `d` moved by `n` calendar months, the day clamped to the last day of the
/// target month (January 31 plus one month is the last day of February).
pub open spec fn months_later(d: Date, n: int) -> Date {
    let total = months_total(d, n);
    let y = total / 12;
    let m = total % 12 + 1;
    let last = days_in_month(y, m);
    Date { year: y as i32, month: m as u32, day: (if d.day <= last { d.day as int } else { last }) as u32 }
}

/// Move `d` by `n` calendar months.
pub fn add_months(d: Date, n: i32) -> (res: Date)
    requires
        d.valid(),
        MIN_YEAR < months_total(d, n as int) / 12 < MAX_YEAR,
    ensures
        res == months_later(d, n as int),
        res.valid(),
{
    let total: i64 = d.year as i64 * 12 + (d.month as i64 - 1) + n as i64;
    let y: i64 = if total >= 0 {
        total / 12
    } else {
        -((-total + 11) / 12)
    };
    let r: i64 = total - y * 12;
    assert(y == total / 12 && r == total % 12) by (nonlinear_arith)
        requires
            y == (if total >= 0 {
                total / 12
            } else {
                -((-total + 11) / 12)
            }),
            r == total - y * 12,
    {
    }
    let year = y as i32;
    let month = (r + 1) as u32;
    let last = last_day_of_month(year, month);
    let day = if d.day <= last {
        d.day
    } else {
        last
    };
    date_from_ymd(year, month, day).unwrap()
}

/// The Monday-to-Sunday week starting at `monday`.
pub fn week_bounds(monday: Date) -> (res: (Date, Date))
    requires
        monday.valid(),
        monday.year < MAX_YEAR,
    ensures
        res.0 == monday,
        chrono_date_shift(monday, 6) == Some(res.1),
{
    (monday, shift_days(monday, 6).unwrap())
}

/// A period string for a range of days: `YYYY-MM-DD`, or
/// `YYYY-MM-DD/YYYY-MM-DD` when the days differ.
pub fn format_period_range(start: Date, end: Date) -> (res: String)
    requires
        start.valid(),
        end.valid(),
    ensures
        res@ == (if start == end {
            date_text_of(start)
        } else {
            date_text_of(start) + "/"@ + date_text_of(end)
        }),
{
    if start == end {
        date_text(start)
    } else {
        concat(&concat(date_text(start).as_str(), "/"), date_text(end).as_str())
    }
}

/// The days a period highlights: the dates of its range; nothing for the
/// absent-field period.
pub fn selection_from_period(period: &Period) -> (res: Selection)
    ensures
        res == match *period {
            Period::Absent => Selection::Empty,
            Period::Range(s, e) => Selection::Range(s.date, e.date),
        },
{
    match period {
        Period::Absent => Selection::Empty,
        Period::Range(s, e) => Selection::Range(s.date, e.date),
    }
}

/// The Monday on or before the first of `cursor`'s month, where a month page
/// starts.
pub open spec fn grid_start(cursor: Date) -> Date {
    let first = Date { year: cursor.year, month: cursor.month, day: 1 };
    chrono_date_shift(first, -weekday_from_monday(first))->0
}

/// The 42 days (six weeks, Monday first) shown for `cursor`'s month.
pub fn grid_days(cursor: Date) -> (res: Vec<Date>)
    requires
        cursor.valid(),
        MIN_YEAR < cursor.year < MAX_YEAR,
    ensures
        res@.len() == 42,
        forall|k: int| 0 <= k < 42 ==> Some(#[trigger] res@[k]) == chrono_date_shift(grid_start(cursor), k),
{
    let first = date_from_ymd(cursor.year, cursor.month, 1).unwrap();
    let lead = days_from_monday(first);
    let start = shift_days(first, -(lead as i64)).unwrap();
    let mut days: Vec<Date> = Vec::new();
    let mut k: i64 = 0;
    while k < 42
        invariant
            0 <= k <= 42,
            days@.len() == k,
            start == grid_start(cursor),
            start.valid(),
            start.year < MAX_YEAR,
            forall|j: int| 0 <= j < k ==> Some(#[trigger] days@[j]) == chrono_date_shift(start, j),
        decreases 42 - k,
    {
        let day = shift_days(start, k).unwrap();
        days.push(day);
        k += 1;
    }
    days
}

} // verus!
