//! Periods read with the journal's first day of the week: weeks start on the
//! configured day, and ranges are written `START,END`.

use vstd::prelude::*;

use crate::calendar::{chrono_date_parse, chrono_date_shift, days_from_monday, days_from_sunday, local_now, parse_date_with, shift_days};
use crate::date_range::days_into_week;
use crate::datetime::{Date, MAX_YEAR, MIN_YEAR};
use crate::journal::WeekStart;
use crate::period::{
    relative_name,
    Period, day_period, day_range, day_span, is_word, month_range, month_span, option_result_view, span_period,
    span_result, split_period, split_reading, shifted_day,
};
use crate::text::{chars_of, concat, find_char, has_char};

verus! {

/// The seven days of the week holding `d`, starting on `week_start`.
pub open spec fn week_span_from(d: Date, week_start: WeekStart) -> Option<(Date, Date)> {
    match chrono_date_shift(d, -days_into_week(d, week_start)) {
        Some(first) => match chrono_date_shift(first, 6) {
            Some(last) => Some((first, last)),
            None => None,
        },
        None => None,
    }
}

/// The week holding the day `days` days from `today`.
pub open spec fn shifted_week_from(today: Date, days: int, week_start: WeekStart) -> Option<Result<Period, Seq<char>>> {
    match chrono_date_shift(today, days) {
        Some(d) => span_period(week_span_from(d, week_start)),
        None => None,
    }
}

pub open spec fn week_period_message(s: Seq<char>) -> Seq<char> {
    "`"@ + s
        + "` is not a valid period — accepted: none | today | yesterday | tomorrow | this_week | last_week | next_week | this_month | last_month | next_month | YYYY-MM-DD | YYYY-MM-DD,YYYY-MM-DD | YYYY-MM-DDTHH:MM,YYYY-MM-DDTHH:MM"@
}

/// How a period string reads on the day `today` with weeks starting on
/// `week_start`.  `None` marks the inputs on which `chrono` runs out of its
/// date range; otherwise the period or the message explaining why the text
/// is not one.
pub open spec fn week_period_reading(s: Seq<char>, today: Date, week_start: WeekStart) -> Option<
    Result<Period, Seq<char>>,
> {
    if s == "none"@ {
        Some(Ok(Period::Absent))
    } else if s == "today"@ {
        Some(Ok(day_span(today, today)))
    } else if s == "yesterday"@ {
        shifted_day(today, -1)
    } else if s == "tomorrow"@ {
        shifted_day(today, 1)
    } else if s == "this_week"@ {
        span_period(week_span_from(today, week_start))
    } else if s == "last_week"@ {
        shifted_week_from(today, -7, week_start)
    } else if s == "next_week"@ {
        shifted_week_from(today, 7, week_start)
    } else if s == "this_month"@ {
        span_period(month_span(today.year as int, today.month as int))
    } else if s == "last_month"@ {
        if today.month == 1 {
            span_period(month_span(today.year - 1, 12))
        } else {
            span_period(month_span(today.year as int, today.month - 1))
        }
    } else if s == "next_month"@ {
        if today.month == 12 {
            span_period(month_span(today.year + 1, 1))
        } else {
            span_period(month_span(today.year as int, today.month + 1))
        }
    } else if has_char(s, ',') {
        split_reading(s, ',')
    } else if chrono_date_parse(s, "%Y-%m-%d"@) is Some {
        let d = chrono_date_parse(s, "%Y-%m-%d"@)->0;
        Some(Ok(day_span(d, d)))
    } else {
        Some(Err(week_period_message(s)))
    }
}

fn week_of(d: Option<Date>, week_start: WeekStart) -> (res: Option<Result<Period, String>>)
    requires
        d matches Some(x) ==> x.valid(),
    ensures
        option_result_view(res) == (match d {
            Some(x) => span_period(week_span_from(x, week_start)),
            None => None,
        }),
        (d matches Some(x) && MIN_YEAR < x.year < MAX_YEAR) ==> res matches Some(Ok(_)),
{
    let x = d?;
    let back = match week_start {
        WeekStart::Monday => days_from_monday(x),
        WeekStart::Sunday => days_from_sunday(x),
    };
    let first = match shift_days(x, -(back as i64)) {
        Some(f) => f,
        None => {
            return None;
        },
    };
    let last = match shift_days(first, 6) {
        Some(l) => l,
        None => {
            return None;
        },
    };
    span_result(Some((first, last)))
}

/// Read a period on the day `today`, weeks starting on `week_start`.
///
/// Accepted: `none` (field absent); `today`, `yesterday`, `tomorrow`;
/// `this_week`, `last_week`, `next_week` (seven days from the week's first
/// day); `this_month`, `last_month`, `next_month`; `YYYY-MM-DD`; and
/// `START,END` with dates or date-times (dates alone cover whole days).
/// `None` is returned where the date arithmetic leaves the range `chrono` can
/// represent.
pub fn parse_period_at(s: &str, today: Date, week_start: WeekStart) -> (res: Option<Result<Period, String>>)
    requires
        today.valid(),
    ensures
        option_result_view(res) == week_period_reading(s@, today, week_start),
        (MIN_YEAR + 2 <= today.year <= MAX_YEAR - 2 && relative_name(s@)) ==> res matches Some(Ok(_)),
{
    let v = chars_of(s);
    if is_word(&v, "none") {
        return Some(Ok(Period::Absent));
    }
    if is_word(&v, "today") {
        return Some(Ok(day_range(today, today)));
    }
    if is_word(&v, "yesterday") {
        return day_period(shift_days(today, -1));
    }
    if is_word(&v, "tomorrow") {
        return day_period(shift_days(today, 1));
    }
    if is_word(&v, "this_week") {
        return week_of(Some(today), week_start);
    }
    if is_word(&v, "last_week") {
        return week_of(shift_days(today, -7), week_start);
    }
    if is_word(&v, "next_week") {
        return week_of(shift_days(today, 7), week_start);
    }
    if is_word(&v, "this_month") {
        return span_result(month_range(today.year, today.month));
    }
    if is_word(&v, "last_month") {
        if today.month == 1 {
            return span_result(month_range(today.year - 1, 12));
        } else {
            return span_result(month_range(today.year, today.month - 1));
        }
    }
    if is_word(&v, "next_month") {
        if today.month == 12 {
            return span_result(month_range(today.year + 1, 1));
        } else {
            return span_result(month_range(today.year, today.month + 1));
        }
    }
    if let Some(i) = find_char(&v, ',') {
        return split_period(s, &v, i, ',');
    }
    if let Some(d) = parse_date_with(s, "%Y-%m-%d") {
        return Some(Ok(day_range(d, d)));
    }
    let m = concat(
        &concat("`", s),
        "` is not a valid period — accepted: none | today | yesterday | tomorrow | this_week | last_week | next_week | this_month | last_month | next_month | YYYY-MM-DD | YYYY-MM-DD,YYYY-MM-DD | YYYY-MM-DDTHH:MM,YYYY-MM-DDTHH:MM",
    );
    Some(Err(m))
}

/// Read a period relative to the local date, which the clock gives from 1969
/// on, weeks starting on `week_start`.  `None` where the dates involved leave
/// `chrono`'s range; a relative name always reads as a period unless the
/// clock is within two years of the last year `chrono` represents.
pub fn parse_period(s: &str, week_start: WeekStart) -> (res: Option<Result<Period, String>>)
    ensures
        exists|today: Date|
            today.valid() && today.year >= 1969 && option_result_view(res) == week_period_reading(
                s@,
                today,
                week_start,
            ) && ((today.year <= MAX_YEAR - 2 && relative_name(s@)) ==> res matches Some(Ok(_))),
{
    let today = local_now().date;
    parse_period_at(s, today, week_start)
}

} // verus!
