//! Listing entries by a range of days, as the journal's MCP server does: the
//! range a request names, and why an entry belongs to it.

use vstd::prelude::*;

use crate::calendar::{chrono_date_shift, weekday_from_monday, weekday_from_sunday, days_from_monday, days_from_sunday, shift_days};
use crate::datetime::{Date, MAX_YEAR, MIN_YEAR, days_in_month};
use crate::entry::{EventMeta, Frontmatter, TaskMeta};
use crate::journal::WeekStart;
use crate::period::month_range;
use crate::text::str_eq;

verus! {

/// Why an entry shows in a range of days.
#[derive(Clone, Copy, Debug, PartialEq, Eq, Structural)]
pub enum RangeLabel {
    /// An open task, or a closed one due in the range.
    Todo,
    /// A task closed in the range.
    Closed,
    /// An event overlapping the range.
    Event,
    Created,
    Updated,
}

impl RangeLabel {
    pub open spec fn text(self) -> Seq<char> {
        match self {
            RangeLabel::Todo => "TODO"@,
            RangeLabel::Closed => "CLOSED"@,
            RangeLabel::Event => "EVENT"@,
            RangeLabel::Created => "CREATED"@,
            RangeLabel::Updated => "UPDATED"@,
        }
    }

    /// The name shown for the label.
    pub fn as_str(self) -> (res: &'static str)
        ensures
            res@ == self.text(),
    {
        match self {
            RangeLabel::Todo => "TODO",
            RangeLabel::Closed => "CLOSED",
            RangeLabel::Event => "EVENT",
            RangeLabel::Created => "CREATED",
            RangeLabel::Updated => "UPDATED",
        }
    }
}

/// `d` lies in the range from `start` to `end`, both included; a missing
/// bound does not limit.
pub open spec fn day_in_range(d: Date, start: Option<Date>, end: Option<Date>) -> bool {
    &&& start matches Some(s) ==> s.not_after(d)
    &&& end matches Some(e) ==> d.not_after(e)
}

/// Whether `d` lies in the range.
pub fn date_in_range(d: Date, start: Option<Date>, end: Option<Date>) -> (res: bool)
    ensures
        res == day_in_range(d, start, end),
{
    let after_start = match start {
        Some(s) => !d.is_before(&s),
        None => true,
    };
    let before_end = match end {
        Some(e) => !e.is_before(&d),
        None => true,
    };
    after_start && before_end
}

/// A task status that closes the task.
pub open spec fn inactive_status(s: Seq<char>) -> bool {
    s == "done"@ || s == "cancelled"@ || s == "archived"@
}

pub open spec fn opt_in_range(t: Option<crate::datetime::DateTime>, start: Option<Date>, end: Option<Date>) -> bool {
    t matches Some(v) && day_in_range(v.date, start, end)
}

/// The labels of a task: `Todo` while it is open; once closed, `Todo` when
/// it was due in the range and `Closed` when it was closed in it.
pub open spec fn task_labels(task: Option<TaskMeta>, start: Option<Date>, end: Option<Date>) -> Seq<RangeLabel> {
    match task {
        Some(t) => if !inactive_status(t.status@) {
            seq![RangeLabel::Todo]
        } else {
            (if opt_in_range(t.due, start, end) {
                seq![RangeLabel::Todo]
            } else {
                seq![]
            }) + (if opt_in_range(t.closed_at, start, end) {
                seq![RangeLabel::Closed]
            } else {
                seq![]
            })
        },
        None => seq![],
    }
}

/// An event overlaps the range when it starts by its end and ends by its
/// start.
pub open spec fn event_overlaps(event: Option<EventMeta>, start: Option<Date>, end: Option<Date>) -> bool {
    event matches Some(e) && (end matches Some(re) ==> e.start.date.not_after(re)) && (start matches Some(rs)
        ==> rs.not_after(e.end.date))
}

/// Why an entry belongs to the range, in this order: its task, its event,
/// its creation, its last update.
pub open spec fn range_labels(fm: Frontmatter, start: Option<Date>, end: Option<Date>) -> Seq<RangeLabel> {
    task_labels(fm.task, start, end) + (if event_overlaps(fm.event, start, end) {
        seq![RangeLabel::Event]
    } else {
        seq![]
    }) + (if day_in_range(fm.created_at.date, start, end) {
        seq![RangeLabel::Created]
    } else {
        seq![]
    }) + (if day_in_range(fm.updated_at.date, start, end) {
        seq![RangeLabel::Updated]
    } else {
        seq![]
    })
}

fn opt_date_in_range(t: Option<crate::datetime::DateTime>, start: Option<Date>, end: Option<Date>) -> (res: bool)
    ensures
        res == opt_in_range(t, start, end),
{
    match t {
        Some(v) => date_in_range(v.date, start, end),
        None => false,
    }
}

/// The labels of an entry for the range from `start` to `end`.
pub fn compute_labels(fm: &Frontmatter, start: Option<Date>, end: Option<Date>) -> (res: Vec<RangeLabel>)
    ensures
        res@ == range_labels(*fm, start, end),
{
    let mut labels: Vec<RangeLabel> = Vec::new();
    if let Some(task) = &fm.task {
        let s = task.status.as_str();
        let inactive = str_eq(s, "done") || str_eq(s, "cancelled") || str_eq(s, "archived");
        if !inactive {
            labels.push(RangeLabel::Todo);
        } else {
            if opt_date_in_range(task.due, start, end) {
                labels.push(RangeLabel::Todo);
            }
            if opt_date_in_range(task.closed_at, start, end) {
                labels.push(RangeLabel::Closed);
            }
        }
    }
    let ghost after_task = labels@;
    assert(after_task =~= task_labels(fm.task, start, end));
    if let Some(event) = &fm.event {
        let overlaps_end = match end {
            Some(re) => !re.is_before(&event.start.date),
            None => true,
        };
        let overlaps_start = match start {
            Some(rs) => !event.end.date.is_before(&rs),
            None => true,
        };
        if overlaps_end && overlaps_start {
            labels.push(RangeLabel::Event);
        }
    }
    let ghost after_event = labels@;
    assert(after_event =~= after_task + (if event_overlaps(fm.event, start, end) {
        seq![RangeLabel::Event]
    } else {
        seq![]
    }));
    if date_in_range(fm.created_at.date, start, end) {
        labels.push(RangeLabel::Created);
    }
    let ghost after_created = labels@;
    assert(after_created =~= after_event + (if day_in_range(fm.created_at.date, start, end) {
        seq![RangeLabel::Created]
    } else {
        seq![]
    }));
    if date_in_range(fm.updated_at.date, start, end) {
        labels.push(RangeLabel::Updated);
    }
    assert(labels@ =~= after_created + (if day_in_range(fm.updated_at.date, start, end) {
        seq![RangeLabel::Updated]
    } else {
        seq![]
    }));
    labels
}

/// The days since the first day of `today`'s week.
pub open spec fn days_into_week(today: Date, week_start: WeekStart) -> int {
    match week_start {
        WeekStart::Monday => weekday_from_monday(today),
        WeekStart::Sunday => weekday_from_sunday(today),
    }
}

/// The range a request names on `today`: a single date wins, then today,
/// then the current week (seven days from the week's first day), then the
/// current month; otherwise the explicit bounds as given.
pub open spec fn date_filter(
    date: Option<Date>,
    date_start: Option<Date>,
    date_end: Option<Date>,
    on_today: bool,
    this_week: bool,
    this_month: bool,
    week_start: WeekStart,
    today: Date,
) -> (Option<Date>, Option<Date>) {
    if date is Some {
        (date, date)
    } else if on_today {
        (Some(today), Some(today))
    } else if this_week {
        let first = chrono_date_shift(today, -days_into_week(today, week_start));
        (first, chrono_date_shift(first->0, 6))
    } else if this_month {
        (
            Some(Date { year: today.year, month: today.month, day: 1 }),
            Some(
                Date {
                    year: today.year,
                    month: today.month,
                    day: days_in_month(today.year as int, today.month as int) as u32,
                },
            ),
        )
    } else {
        (date_start, date_end)
    }
}

/// Resolve the range a request names, on the day `today`.
pub fn resolve_date_filter_at(
    date: Option<Date>,
    date_start: Option<Date>,
    date_end: Option<Date>,
    on_today: bool,
    this_week: bool,
    this_month: bool,
    week_start: WeekStart,
    today: Date,
) -> (res: (Option<Date>, Option<Date>))
    requires
        today.valid(),
        MIN_YEAR < today.year < MAX_YEAR,
    ensures
        res == date_filter(date, date_start, date_end, on_today, this_week, this_month, week_start, today),
        res.0 is Some == (date is Some || on_today || this_week || this_month || date_start is Some),
        res.1 is Some == (date is Some || on_today || this_week || this_month || date_end is Some),
{
    if let Some(d) = date {
        return (Some(d), Some(d));
    }
    if on_today {
        return (Some(today), Some(today));
    }
    if this_week {
        let back = match week_start {
            WeekStart::Monday => days_from_monday(today),
            WeekStart::Sunday => days_from_sunday(today),
        };
        let first = shift_days(today, -(back as i64));
        let first_day = first.unwrap();
        let last = shift_days(first_day, 6);
        assert(last is Some);
        return (first, last);
    }
    if this_month {
        let (first, last) = month_range(today.year, today.month).unwrap();
        return (Some(first), Some(last));
    }
    (date_start, date_end)
}

/// Resolve the range a request names.  The local date is read only for
/// `on_today`, `this_week` and `this_month` when no `date` is given; the
/// result is none only when the week or month around that date cannot be
/// formed, in the last year `chrono` represents.
pub fn resolve_date_filter(
    date: Option<Date>,
    date_start: Option<Date>,
    date_end: Option<Date>,
    on_today: bool,
    this_week: bool,
    this_month: bool,
    week_start: WeekStart,
) -> (res: Option<(Option<Date>, Option<Date>)>)
    ensures
        date is Some ==> res == Some((date, date)),
        (date is None && !on_today && !this_week && !this_month) ==> res == Some((date_start, date_end)),
        on_today ==> res is Some,
        res matches Some(r) ==> exists|today: Date|
            today.valid() && r == date_filter(
                date,
                date_start,
                date_end,
                on_today,
                this_week,
                this_month,
                week_start,
                today,
            ),
{
    let ghost epoch_day = Date { year: 1970, month: 1, day: 1 };
    assert(epoch_day.valid());
    if date.is_some() {
        assert((date, date) == date_filter(date, date_start, date_end, on_today, this_week, this_month, week_start, epoch_day));
        return Some((date, date));
    }
    if !on_today && !this_week && !this_month {
        assert((date_start, date_end) == date_filter(date, date_start, date_end, on_today, this_week, this_month, week_start, epoch_day));
        return Some((date_start, date_end));
    }
    let today = crate::calendar::local_now().date;
    if on_today {
        let r = (Some(today), Some(today));
        assert(r == date_filter(date, date_start, date_end, on_today, this_week, this_month, week_start, today));
        return Some(r);
    }
    if today.year < MAX_YEAR {
        Some(resolve_date_filter_at(date, date_start, date_end, on_today, this_week, this_month, week_start, today))
    } else {
        None
    }
}

} // verus!
