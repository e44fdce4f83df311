//! Status flags of an entry: its type and its freshness.
//!
//! The flags are computed from the frontmatter (task status, event presence,
//! timestamps) and the current time.  Rendering (emoji, Nerd Font glyphs,
//! initials) is done by the [`EntryFlag`] methods.

use vstd::prelude::*;

use crate::calendar::{chrono_datetime_shift, local_now, shift_seconds};
use crate::datetime::{DateTime, MIN_YEAR};
use crate::entry::{EventMeta, TaskMeta};
use crate::text::str_eq;

verus! {

/// A computed flag describing an entry's type or freshness.
#[derive(Clone, Copy, Debug, PartialEq, Eq, Structural)]
pub enum EntryFlag {
    Overdue,
    New,
    Updated,
    Event,
    /// A past event: its `end` is before the current time.
    EventClosed,
    Done,
    Cancelled,
    InProgress,
    Archived,
    Open,
    Note,
}

impl EntryFlag {
    pub open spec fn text(self) -> Seq<char> {
        match self {
            EntryFlag::Overdue => "overdue"@,
            EntryFlag::New => "new"@,
            EntryFlag::Updated => "updated"@,
            EntryFlag::Event => "event"@,
            EntryFlag::EventClosed => "event_closed"@,
            EntryFlag::Done => "done"@,
            EntryFlag::Cancelled => "cancelled"@,
            EntryFlag::InProgress => "in_progress"@,
            EntryFlag::Archived => "archived"@,
            EntryFlag::Open => "open"@,
            EntryFlag::Note => "note"@,
        }
    }

    pub open spec fn emoji(self) -> Seq<char> {
        match self {
            EntryFlag::Overdue => "⏰"@,
            EntryFlag::New => "🆕"@,
            EntryFlag::Updated => "✏️"@,
            EntryFlag::Event => "📅"@,
            EntryFlag::EventClosed => "🗓️"@,
            EntryFlag::Done => "✅"@,
            EntryFlag::Cancelled => "❌"@,
            EntryFlag::InProgress => "🔄"@,
            EntryFlag::Archived => "📦"@,
            EntryFlag::Open => "⬜"@,
            EntryFlag::Note => "📝"@,
        }
    }

    pub open spec fn nerd(self) -> Seq<char> {
        match self {
            EntryFlag::Overdue => "󱦟"@,
            EntryFlag::New => "󰐕"@,
            EntryFlag::Updated => "󰏫"@,
            EntryFlag::Event => "󰃭"@,
            EntryFlag::EventClosed => "󰄻"@,
            EntryFlag::Done => "󰄲"@,
            EntryFlag::Cancelled => "󰜺"@,
            EntryFlag::InProgress => "󰔛"@,
            EntryFlag::Archived => "󰀼"@,
            EntryFlag::Open => "󰄱"@,
            EntryFlag::Note => "󰈙"@,
        }
    }

    pub open spec fn initial(self) -> char {
        match self {
            EntryFlag::Overdue => '!',
            EntryFlag::New => '+',
            EntryFlag::Updated => '~',
            EntryFlag::Event => 'E',
            EntryFlag::EventClosed => 'e',
            EntryFlag::Done => 'D',
            EntryFlag::Cancelled => 'C',
            EntryFlag::InProgress => 'I',
            EntryFlag::Archived => 'A',
            EntryFlag::Open => 'O',
            EntryFlag::Note => 'N',
        }
    }

    /// The machine-readable name of the flag.
    pub fn as_str(self) -> (res: &'static str)
        ensures
            res@ == self.text(),
    {
        match self {
            EntryFlag::Overdue => "overdue",
            EntryFlag::New => "new",
            EntryFlag::Updated => "updated",
            EntryFlag::Event => "event",
            EntryFlag::EventClosed => "event_closed",
            EntryFlag::Done => "done",
            EntryFlag::Cancelled => "cancelled",
            EntryFlag::InProgress => "in_progress",
            EntryFlag::Archived => "archived",
            EntryFlag::Open => "open",
            EntryFlag::Note => "note",
        }
    }

    /// The emoji shown for the flag.
    pub fn to_emoji(self) -> (res: &'static str)
        ensures
            res@ == self.emoji(),
    {
        match self {
            EntryFlag::Overdue => "⏰",
            EntryFlag::New => "🆕",
            EntryFlag::Updated => "✏️",
            EntryFlag::Event => "📅",
            EntryFlag::EventClosed => "🗓️",
            EntryFlag::Done => "✅",
            EntryFlag::Cancelled => "❌",
            EntryFlag::InProgress => "🔄",
            EntryFlag::Archived => "📦",
            EntryFlag::Open => "⬜",
            EntryFlag::Note => "📝",
        }
    }

    /// The Nerd Font glyph shown for the flag.
    pub fn to_nerd(self) -> (res: &'static str)
        ensures
            res@ == self.nerd(),
    {
        match self {
            EntryFlag::Overdue => "󱦟",
            EntryFlag::New => "󰐕",
            EntryFlag::Updated => "󰏫",
            EntryFlag::Event => "󰃭",
            EntryFlag::EventClosed => "󰄻",
            EntryFlag::Done => "󰄲",
            EntryFlag::Cancelled => "󰜺",
            EntryFlag::InProgress => "󰔛",
            EntryFlag::Archived => "󰀼",
            EntryFlag::Open => "󰄱",
            EntryFlag::Note => "󰈙",
        }
    }

    /// A one-character abbreviation of the flag.
    pub fn to_initial(self) -> (res: char)
        ensures
            res == self.initial(),
    {
        match self {
            EntryFlag::Overdue => '!',
            EntryFlag::New => '+',
            EntryFlag::Updated => '~',
            EntryFlag::Event => 'E',
            EntryFlag::EventClosed => 'e',
            EntryFlag::Done => 'D',
            EntryFlag::Cancelled => 'C',
            EntryFlag::InProgress => 'I',
            EntryFlag::Archived => 'A',
            EntryFlag::Open => 'O',
            EntryFlag::Note => 'N',
        }
    }
}

/// The canonical name of a task status: `done` (also `completed`),
/// `cancelled` (also `canceled`), `in_progress` (also `wip`), `archived`,
/// and `open` for anything else.
pub open spec fn status_label(s: Seq<char>) -> Seq<char> {
    if s == "done"@ || s == "completed"@ {
        "done"@
    } else if s == "cancelled"@ || s == "canceled"@ {
        "cancelled"@
    } else if s == "in_progress"@ || s == "wip"@ {
        "in_progress"@
    } else if s == "archived"@ {
        "archived"@
    } else {
        "open"@
    }
}

/// The type flag of a task with status `s`.
pub open spec fn status_flag(s: Seq<char>) -> EntryFlag {
    if s == "done"@ || s == "completed"@ {
        EntryFlag::Done
    } else if s == "cancelled"@ || s == "canceled"@ {
        EntryFlag::Cancelled
    } else if s == "in_progress"@ || s == "wip"@ {
        EntryFlag::InProgress
    } else if s == "archived"@ {
        EntryFlag::Archived
    } else {
        EntryFlag::Open
    }
}

/// The canonical flag name for a task status string; unrecognised statuses
/// count as `open`.
pub fn task_status_label(status: &str) -> (res: &'static str)
    ensures
        res@ == status_label(status@),
{
    if str_eq(status, "done") || str_eq(status, "completed") {
        "done"
    } else if str_eq(status, "cancelled") || str_eq(status, "canceled") {
        "cancelled"
    } else if str_eq(status, "in_progress") || str_eq(status, "wip") {
        "in_progress"
    } else if str_eq(status, "archived") {
        "archived"
    } else {
        "open"
    }
}

/// A task is overdue at `now` when its due time is past and it is not closed.
pub open spec fn is_overdue_at(task: Option<TaskMeta>, now: DateTime) -> bool {
    match task {
        Some(t) => (t.due matches Some(d) && d.before(now)) && t.closed_at is None,
        None => false,
    }
}

/// Slot 1, freshness: `Overdue` first, else `New` when created within the
/// last 24 hours, else `Updated` when written within them, else nothing.
pub open spec fn freshness_flags(
    task: Option<TaskMeta>,
    created_at: DateTime,
    updated_at: DateTime,
    now: DateTime,
) -> Seq<EntryFlag> {
    let threshold = chrono_datetime_shift(now, -86400)->0;
    if is_overdue_at(task, now) {
        seq![EntryFlag::Overdue]
    } else if threshold.not_after(created_at) {
        seq![EntryFlag::New]
    } else if threshold.not_after(updated_at) {
        seq![EntryFlag::Updated]
    } else {
        seq![]
    }
}

/// Slot 2, type: an event (closed once its end is past), else the task's
/// status, else a note.
pub open spec fn type_flag(task: Option<TaskMeta>, event: Option<EventMeta>, now: DateTime) -> EntryFlag {
    match event {
        Some(ev) => if ev.end.before(now) {
            EntryFlag::EventClosed
        } else {
            EntryFlag::Event
        },
        None => match task {
            Some(t) => status_flag(t.status@),
            None => EntryFlag::Note,
        },
    }
}

/// The flags of an entry at the instant `now`.
pub open spec fn flags_at(
    task: Option<TaskMeta>,
    event: Option<EventMeta>,
    created_at: DateTime,
    updated_at: DateTime,
    now: DateTime,
) -> Seq<EntryFlag> {
    freshness_flags(task, created_at, updated_at, now).push(type_flag(task, event, now))
}

fn flag_for_status(status: &str) -> (res: EntryFlag)
    ensures
        res == status_flag(status@),
{
    if str_eq(status, "done") || str_eq(status, "completed") {
        EntryFlag::Done
    } else if str_eq(status, "cancelled") || str_eq(status, "canceled") {
        EntryFlag::Cancelled
    } else if str_eq(status, "in_progress") || str_eq(status, "wip") {
        EntryFlag::InProgress
    } else if str_eq(status, "archived") {
        EntryFlag::Archived
    } else {
        EntryFlag::Open
    }
}

/// The flags of an entry at the instant `now`: at most one freshness flag
/// followed by exactly one type flag.
pub fn entry_flags_at(
    task: Option<&TaskMeta>,
    event: Option<&EventMeta>,
    created_at: DateTime,
    updated_at: DateTime,
    now: DateTime,
) -> (res: Vec<EntryFlag>)
    requires
        now.valid(),
        now.date.year > MIN_YEAR,
    ensures
        res@ == flags_at(
            match task {
                Some(t) => Some(*t),
                None => None,
            },
            match event {
                Some(e) => Some(*e),
                None => None,
            },
            created_at,
            updated_at,
            now,
        ),
        1 <= res@.len() <= 2,
{
    let mut flags: Vec<EntryFlag> = Vec::new();
    let is_overdue = match task {
        Some(t) => match t.due {
            Some(due) => due.is_before(&now) && t.closed_at.is_none(),
            None => false,
        },
        None => false,
    };
    if is_overdue {
        flags.push(EntryFlag::Overdue);
    } else {
        let threshold = shift_seconds(now, -86400).unwrap();
        if threshold.is_not_after(&created_at) {
            flags.push(EntryFlag::New);
        } else if threshold.is_not_after(&updated_at) {
            flags.push(EntryFlag::Updated);
        }
    }
    match event {
        Some(ev) => {
            if ev.end.is_before(&now) {
                flags.push(EntryFlag::EventClosed);
            } else {
                flags.push(EntryFlag::Event);
            }
        },
        None => match task {
            Some(t) => flags.push(flag_for_status(t.status.as_str())),
            None => flags.push(EntryFlag::Note),
        },
    }
    flags
}

/// The flags of an entry at the local time.
pub fn entry_flags(
    task: Option<&TaskMeta>,
    event: Option<&EventMeta>,
    created_at: DateTime,
    updated_at: DateTime,
) -> (res: Vec<EntryFlag>)
    ensures
        exists|now: DateTime|
            now.valid() && res@ == flags_at(
                match task {
                    Some(t) => Some(*t),
                    None => None,
                },
                match event {
                    Some(e) => Some(*e),
                    None => None,
                },
                created_at,
                updated_at,
                now,
            ),
{
    let now = local_now();
    entry_flags_at(task, event, created_at, updated_at, now)
}

} // verus!
