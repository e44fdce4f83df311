//! Calendar dates and wall-clock date-times as plain values.
//!
//! The journal stores naive (time-zone free) timestamps.  Here a date is a
//! `(year, month, day)` triple of the proleptic Gregorian calendar and a
//! date-time adds hour, minute, second and nanosecond.  Calendar arithmetic,
//! parsing and formatting are done by `chrono`; the wrappers at the end of this
//! file are the only places that call it.

use vstd::prelude::*;

verus! {

/// Smallest year `chrono::NaiveDate` can hold.
pub const MIN_YEAR: i32 = -262143;

/// Largest year `chrono::NaiveDate` can hold.
pub const MAX_YEAR: i32 = 262142;

pub open spec fn is_leap_year(y: int) -> bool {
    (y % 4 == 0 && y % 100 != 0) || y % 400 == 0
}

pub open spec fn days_in_month(y: int, m: int) -> int {
    if m == 2 {
        if is_leap_year(y) { 29 } else { 28 }
    } else if m == 4 || m == 6 || m == 9 || m == 11 {
        30
    } else {
        31
    }
}

/// A calendar date (proleptic Gregorian).
#[derive(Clone, Copy, Debug, PartialEq, Eq, Structural)]
pub struct Date {
    pub year: i32,
    pub month: u32,
    pub day: u32,
}

/// A date with a time of day.  `nano` may reach two seconds' worth only on a
/// leap second, which is written as second 59.
#[derive(Clone, Copy, Debug, PartialEq, Eq, Structural)]
pub struct DateTime {
    pub date: Date,
    pub hour: u32,
    pub minute: u32,
    pub second: u32,
    pub nano: u32,
}

pub open spec fn ymd_valid(y: int, m: int, d: int) -> bool {
    &&& MIN_YEAR <= y <= MAX_YEAR
    &&& 1 <= m <= 12
    &&& 1 <= d <= days_in_month(y, m)
}

impl Date {
    /// The date exists in the calendar and lies in the range `chrono` supports.
    pub open spec fn valid(self) -> bool {
        ymd_valid(self.year as int, self.month as int, self.day as int)
    }

    /// Strictly earlier in the calendar.
    pub open spec fn before(self, other: Date) -> bool {
        ||| self.year < other.year
        ||| (self.year == other.year && self.month < other.month)
        ||| (self.year == other.year && self.month == other.month && self.day < other.day)
    }

    /// Earlier or the same day.
    pub open spec fn not_after(self, other: Date) -> bool {
        self.before(other) || self == other
    }

    /// Midnight at the start of this day.
    pub open spec fn start_of_day(self) -> DateTime {
        DateTime { date: self, hour: 0, minute: 0, second: 0, nano: 0 }
    }

    /// The last whole second of this day, 23:59:59.
    pub open spec fn end_of_day(self) -> DateTime {
        DateTime { date: self, hour: 23, minute: 59, second: 59, nano: 0 }
    }

    /// `self` is strictly earlier than `other`.
    pub fn is_before(&self, other: &Date) -> (res: bool)
        ensures
            res == self.before(*other),
    {
        self.year < other.year || (self.year == other.year && (self.month < other.month || (
        self.month == other.month && self.day < other.day)))
    }

    /// The date at midnight.
    pub fn at_start_of_day(&self) -> (res: DateTime)
        ensures
            res == self.start_of_day(),
    {
        DateTime { date: *self, hour: 0, minute: 0, second: 0, nano: 0 }
    }

    /// The date at 23:59:59.
    pub fn at_end_of_day(&self) -> (res: DateTime)
        ensures
            res == self.end_of_day(),
    {
        DateTime { date: *self, hour: 23, minute: 59, second: 59, nano: 0 }
    }
}

pub open spec fn time_valid(h: int, m: int, s: int, n: int) -> bool {
    &&& 0 <= h < 24
    &&& 0 <= m < 60
    &&& 0 <= s < 60
    &&& 0 <= n < 2_000_000_000
    &&& (n >= 1_000_000_000 ==> s == 59)
}

impl DateTime {
    pub open spec fn valid(self) -> bool {
        self.date.valid() && time_valid(
            self.hour as int,
            self.minute as int,
            self.second as int,
            self.nano as int,
        )
    }

    /// Strictly earlier in time.
    pub open spec fn before(self, other: DateTime) -> bool {
        ||| self.date.before(other.date)
        ||| (self.date == other.date && self.hour < other.hour)
        ||| (self.date == other.date && self.hour == other.hour && self.minute < other.minute)
        ||| (self.date == other.date && self.hour == other.hour && self.minute == other.minute
            && self.second < other.second)
        ||| (self.date == other.date && self.hour == other.hour && self.minute == other.minute
            && self.second == other.second && self.nano < other.nano)
    }

    /// Earlier or the same instant.
    pub open spec fn not_after(self, other: DateTime) -> bool {
        self.before(other) || self == other
    }

    /// `self` is strictly earlier than `other`.
    pub fn is_before(&self, other: &DateTime) -> (res: bool)
        ensures
            res == self.before(*other),
    {
        if self.date.is_before(&other.date) {
            true
        } else if self.date != other.date {
            false
        } else if self.hour != other.hour {
            self.hour < other.hour
        } else if self.minute != other.minute {
            self.minute < other.minute
        } else if self.second != other.second {
            self.second < other.second
        } else {
            self.nano < other.nano
        }
    }

    /// `self` is earlier than or equal to `other`.
    pub fn is_not_after(&self, other: &DateTime) -> (res: bool)
        ensures
            res == self.not_after(*other),
    {
        self.is_before(other) || *self == *other
    }
}

/// Earlier-than is a strict total order on date-times.
pub proof fn lemma_datetime_order(a: DateTime, b: DateTime)
    ensures
        !(a.before(b) && b.before(a)),
        !a.before(a),
        a.before(b) || b.before(a) || a == b,
{
}

/// Earlier-than is transitive.
pub proof fn lemma_datetime_before_trans(a: DateTime, b: DateTime, c: DateTime)
    requires
        a.before(b),
        b.before(c),
    ensures
        a.before(c),
{
}


/// The calendar day before `d`.
pub open spec fn prev_day(d: Date) -> Date {
    if d.day > 1 {
        Date { year: d.year, month: d.month, day: (d.day - 1) as u32 }
    } else if d.month > 1 {
        Date {
            year: d.year,
            month: (d.month - 1) as u32,
            day: days_in_month(d.year as int, d.month - 1) as u32,
        }
    } else {
        Date { year: (d.year - 1) as i32, month: 12, day: 31 }
    }
}

/// The calendar day after `d`.
pub open spec fn next_day(d: Date) -> Date {
    if (d.day as int) < days_in_month(d.year as int, d.month as int) {
        Date { year: d.year, month: d.month, day: (d.day + 1) as u32 }
    } else if d.month < 12 {
        Date { year: d.year, month: (d.month + 1) as u32, day: 1 }
    } else {
        Date { year: (d.year + 1) as i32, month: 1, day: 1 }
    }
}

} // verus!
