//! The calls into `chrono`: parsing, calendar arithmetic, week numbering,
//! formatting and the local clock.  Everything else works on the plain
//! [`Date`] / [`DateTime`] values of `datetime`.

use chrono::{Datelike, NaiveDate, NaiveDateTime, TimeDelta, Timelike};
use vstd::prelude::*;

use crate::datetime::{Date, DateTime, MAX_YEAR, MIN_YEAR, next_day, prev_day, ymd_valid};
use crate::number::{decimal_digits, digit_char};

verus! {

/// What `NaiveDateTime::parse_from_str(s, fmt)` yields, when it succeeds.
pub uninterp spec fn chrono_datetime_parse(s: Seq<char>, fmt: Seq<char>) -> Option<DateTime>;

/// What `NaiveDate::parse_from_str(s, fmt)` yields, when it succeeds.
pub uninterp spec fn chrono_date_parse(s: Seq<char>, fmt: Seq<char>) -> Option<Date>;

/// The date `days` days after `d` (before, when negative), as
/// `NaiveDate::checked_add_signed` computes it.
pub uninterp spec fn chrono_date_shift(d: Date, days: int) -> Option<Date>;

/// The date-time `secs` seconds after `dt`, as
/// `NaiveDateTime::checked_add_signed` computes it.
pub uninterp spec fn chrono_datetime_shift(dt: DateTime, secs: int) -> Option<DateTime>;

/// Days from 1970-01-01 to `d` in the proleptic Gregorian calendar
/// (negative before it).
#[verifier::opaque]
pub open spec fn day_number(d: Date) -> int {
    let y = if d.month <= 2 { d.year - 1 } else { d.year as int };
    let era = y / 400;
    let yoe = y - era * 400;
    let mp = (d.month + 9) % 12;
    let doy = (153 * mp + 2) / 5 + d.day - 1;
    let doe = yoe * 365 + yoe / 4 - yoe / 100 + doy;
    era * 146097 + doe - 719468
}

/// Days since the Monday that starts the week of `d`
/// (`Weekday::num_days_from_monday`); 1970-01-01 was a Thursday.
pub open spec fn weekday_from_monday(d: Date) -> int {
    (day_number(d) + 3) % 7
}

/// Days since the Sunday that starts the week of `d`
/// (`Weekday::num_days_from_sunday`).
pub open spec fn weekday_from_sunday(d: Date) -> int {
    (day_number(d) + 4) % 7
}

/// The Monday of ISO week `week` of ISO year `year` (`NaiveDate::from_isoywd_opt`).
pub uninterp spec fn chrono_iso_week_monday(year: int, week: int) -> Option<Date>;

/// Two decimal digits of `v` (below 100), zero-padded.
pub open spec fn two_digits(v: int) -> Seq<char> {
    seq![digit_char(v / 10), digit_char(v % 10)]
}

/// `%Y`: the year zero-padded to four digits; outside `0..=9999` it carries
/// its sign and still has at least four digits.
pub open spec fn year_text(y: int) -> Seq<char> {
    let digits = decimal_digits((if y < 0 { -y } else { y }) as nat);
    let padded = if digits.len() < 4 {
        Seq::new((4 - digits.len()) as nat, |i: int| '0') + digits
    } else {
        digits
    };
    if 0 <= y <= 9999 {
        padded
    } else if y < 0 {
        seq!['-'] + padded
    } else {
        seq!['+'] + padded
    }
}

/// `d.format("%Y-%m-%d")` as text.
pub open spec fn date_text_of(d: Date) -> Seq<char> {
    year_text(d.year as int) + seq!['-'] + two_digits(d.month as int) + seq!['-'] + two_digits(d.day as int)
}

/// `dt.format("%Y-%m-%dT%H:%M")` as text.
pub open spec fn minute_text_of(dt: DateTime) -> Seq<char> {
    date_text_of(dt.date) + seq!['T'] + two_digits(dt.hour as int) + seq![':'] + two_digits(dt.minute as int)
}

/// `NaiveDateTime::parse_from_str`: parses `s` against the `chrono` format
/// string `fmt`.  Claimed: the result, when present, is the value that the
/// name [`chrono_datetime_parse`] gives for these two strings, and it is a
/// valid date-time.  How `chrono` matches the format is not stated.
#[verifier::external_body]
pub(crate) fn parse_datetime_with(s: &str, fmt: &str) -> (res: Option<DateTime>)
    ensures
        res == chrono_datetime_parse(s@, fmt@),
        res matches Some(dt) ==> dt.valid(),
{
    NaiveDateTime::parse_from_str(s, fmt).ok().map(|t| DateTime {
        date: Date { year: t.year(), month: t.month(), day: t.day() },
        hour: t.hour(), minute: t.minute(), second: t.second(), nano: t.nanosecond(),
    })
}

/// `NaiveDate::parse_from_str`: parses `s` against the `chrono` format string
/// `fmt`.  Claimed: the result is the value named [`chrono_date_parse`] for
/// these strings, and a present result is a valid date.
#[verifier::external_body]
pub(crate) fn parse_date_with(s: &str, fmt: &str) -> (res: Option<Date>)
    ensures
        res == chrono_date_parse(s@, fmt@),
        res matches Some(d) ==> d.valid(),
{
    NaiveDate::parse_from_str(s, fmt).ok().map(|d| Date { year: d.year(), month: d.month(), day: d.day() })
}

/// `NaiveDate::from_ymd_opt`: claimed to succeed exactly on the calendar days
/// of `chrono`'s year range, and then to hold the given fields.
#[verifier::external_body]
pub(crate) fn date_from_ymd(year: i32, month: u32, day: u32) -> (res: Option<Date>)
    ensures
        res == (if ymd_valid(year as int, month as int, day as int) {
            Some(Date { year, month, day })
        } else {
            None
        }),
{
    NaiveDate::from_ymd_opt(year, month, day).map(|d| Date { year: d.year(), month: d.month(), day: d.day() })
}

/// `NaiveDate::checked_add_signed(TimeDelta::days(days))`: the date `days`
/// days later.  Claimed: the result is the value named [`chrono_date_shift`];
/// a present result is valid and lies on the side of `d` that the sign of
/// `days` says, a shift by one day giving the previous or next calendar
/// day; and the call succeeds when the result cannot leave `chrono`'s
/// range: a shift of at most one year away from the first and last year,
/// or one day back from any day but the very first.  Where a result exists
/// its year is within one of `d`'s for such small shifts.
#[verifier::external_body]
pub(crate) fn shift_days(d: Date, days: i64) -> (res: Option<Date>)
    requires
        d.valid(),
        -1_000_000 <= days <= 1_000_000,
    ensures
        res == chrono_date_shift(d, days as int),
        res matches Some(r) ==> r.valid(),
        res matches Some(r) ==> (days > 0 ==> d.before(r)),
        res matches Some(r) ==> (days < 0 ==> r.before(d)),
        res matches Some(r) ==> (days == 0 ==> r == d),
        res matches Some(r) ==> (-365 <= days <= 365 ==> d.year - 1 <= r.year <= d.year + 1),
        (0 <= days <= 365 && d.year < MAX_YEAR) ==> res is Some,
        (-365 <= days <= 0 && d.year > MIN_YEAR) ==> res is Some,
        (days == -1 && !(d.year == MIN_YEAR && d.month == 1 && d.day == 1)) ==> res is Some,
        res matches Some(r) ==> (days == -1 ==> r == prev_day(d)),
        res matches Some(r) ==> (days == 1 ==> r == next_day(d)),
{
    let n = NaiveDate::from_ymd_opt(d.year, d.month, d.day).unwrap();
    n.checked_add_signed(TimeDelta::days(days)).map(|r| Date { year: r.year(), month: r.month(), day: r.day() })
}

/// `NaiveDateTime::checked_add_signed(TimeDelta::seconds(secs))`.  Claimed:
/// the result is the value named [`chrono_datetime_shift`] and, when present,
/// is valid; a shift of at most one day succeeds unless it crosses the first
/// or last year `chrono` represents.
#[verifier::external_body]
pub(crate) fn shift_seconds(dt: DateTime, secs: i64) -> (res: Option<DateTime>)
    requires
        dt.valid(),
        -1_000_000_000 <= secs <= 1_000_000_000,
    ensures
        res == chrono_datetime_shift(dt, secs as int),
        res matches Some(r) ==> r.valid(),
        (-86400 <= secs <= 0 && dt.date.year > MIN_YEAR) ==> res is Some,
        (0 <= secs <= 86400 && dt.date.year < MAX_YEAR) ==> res is Some,
{
    let t = NaiveDate::from_ymd_opt(dt.date.year, dt.date.month, dt.date.day).unwrap()
        .and_hms_nano_opt(dt.hour, dt.minute, dt.second, dt.nano).unwrap();
    t.checked_add_signed(TimeDelta::seconds(secs)).map(|t| DateTime {
        date: Date { year: t.year(), month: t.month(), day: t.day() },
        hour: t.hour(), minute: t.minute(), second: t.second(), nano: t.nanosecond(),
    })
}

/// `d.weekday().num_days_from_monday()`: claimed to be
/// [`weekday_from_monday`], the days since the Monday of `d`'s week.
#[verifier::external_body]
pub(crate) fn days_from_monday(d: Date) -> (res: u32)
    requires
        d.valid(),
    ensures
        res == weekday_from_monday(d),
        res < 7,
{
    NaiveDate::from_ymd_opt(d.year, d.month, d.day).unwrap().weekday().num_days_from_monday()
}

/// `d.weekday().num_days_from_sunday()`: claimed to be
/// [`weekday_from_sunday`], the days since the Sunday of `d`'s week.
#[verifier::external_body]
pub(crate) fn days_from_sunday(d: Date) -> (res: u32)
    requires
        d.valid(),
    ensures
        res == weekday_from_sunday(d),
        res < 7,
{
    NaiveDate::from_ymd_opt(d.year, d.month, d.day).unwrap().weekday().num_days_from_sunday()
}

/// `NaiveDate::from_isoywd_opt(year, week, Weekday::Mon)`: claimed to be the
/// named value [`chrono_iso_week_monday`], a valid date when present.  The
/// year is kept to `chrono`'s range: the call steps to the year before or
/// after, which overflows at the ends of `i32`.
#[verifier::external_body]
pub(crate) fn iso_week_monday(year: i32, week: u32) -> (res: Option<Date>)
    requires
        MIN_YEAR <= year <= MAX_YEAR,
    ensures
        res == chrono_iso_week_monday(year as int, week as int),
        res matches Some(d) ==> d.valid(),
{
    NaiveDate::from_isoywd_opt(year, week, chrono::Weekday::Mon).map(|d| Date { year: d.year(), month: d.month(), day: d.day() })
}

/// `d.format("%Y-%m-%d").to_string()`: claimed to be [`date_text_of`]
/// (`chrono`'s `%Y` zero-pads to four digits and signs years outside
/// `0..=9999`; `%m` and `%d` zero-pad to two).
#[verifier::external_body]
pub(crate) fn date_text(d: Date) -> (res: String)
    requires
        d.valid(),
    ensures
        res@ == date_text_of(d),
{
    NaiveDate::from_ymd_opt(d.year, d.month, d.day).unwrap().format("%Y-%m-%d").to_string()
}

/// `dt.format("%Y-%m-%dT%H:%M").to_string()`: claimed to be
/// [`minute_text_of`].
#[verifier::external_body]
pub(crate) fn minute_text(dt: DateTime) -> (res: String)
    requires
        dt.valid(),
    ensures
        res@ == minute_text_of(dt),
{
    let t = NaiveDate::from_ymd_opt(dt.date.year, dt.date.month, dt.date.day).unwrap()
        .and_hms_nano_opt(dt.hour, dt.minute, dt.second, dt.nano).unwrap();
    t.format("%Y-%m-%dT%H:%M").to_string()
}

/// `chrono::Local::now().naive_local()`: the local wall-clock time.  Claimed:
/// a valid date-time no earlier than 1969 (`Utc::now` stops the program on a
/// system clock set before 1970, and a local offset is less than a day).  The
/// value itself depends on the clock and is not stated.
#[verifier::external_body]
pub(crate) fn local_now() -> (res: DateTime)
    ensures
        res.valid(),
        res.date.year >= 1969,
{
    let t = chrono::Local::now().naive_local();
    DateTime {
        date: Date { year: t.year(), month: t.month(), day: t.day() },
        hour: t.hour(), minute: t.minute(), second: t.second(), nano: t.nanosecond(),
    }
}

} // verus!
