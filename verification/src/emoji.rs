//! Emoji shown for entry types and task statuses in text output.

use vstd::prelude::*;

use crate::calendar::{chrono_datetime_shift, local_now, shift_seconds};
use crate::datetime::{DateTime, MIN_YEAR};
use crate::entry::{EventMeta, TaskMeta};
use crate::labels::is_overdue_at;
use crate::text::{concat, owned, str_eq};

verus! {

/// A visual symbol with a machine-readable label.
#[derive(Clone, Copy, Debug)]
pub struct Symbol {
    pub emoji: &'static str,
    pub label: &'static str,
}

/// The emoji and label of a symbol.
pub open spec fn symbol_view(s: Symbol) -> (Seq<char>, Seq<char>) {
    (s.emoji@, s.label@)
}

/// The (emoji, label) pair of a task status; unrecognised statuses count as
/// open.
pub open spec fn status_symbol(s: Seq<char>) -> (Seq<char>, Seq<char>) {
    if s == "done"@ || s == "completed"@ {
        ("✅"@, "done"@)
    } else if s == "cancelled"@ || s == "canceled"@ {
        ("❌"@, "cancelled"@)
    } else if s == "in_progress"@ || s == "wip"@ {
        ("🔄"@, "in_progress"@)
    } else if s == "archived"@ {
        ("📦"@, "archived"@)
    } else {
        ("⬜"@, "open"@)
    }
}

/// The (emoji, label) pair for a task status string.
pub fn task_status_symbol(status: &str) -> (res: (&'static str, &'static str))
    ensures
        (res.0@, res.1@) == status_symbol(status@),
        res.1@ == crate::labels::status_label(status@),
{
    proof {
        lemma_symbol_follows_label(status@);
    }
    if str_eq(status, "done") || str_eq(status, "completed") {
        ("✅", "done")
    } else if str_eq(status, "cancelled") || str_eq(status, "canceled") {
        ("❌", "cancelled")
    } else if str_eq(status, "in_progress") || str_eq(status, "wip") {
        ("🔄", "in_progress")
    } else if str_eq(status, "archived") {
        ("📦", "archived")
    } else {
        ("⬜", "open")
    }
}

/// A status's symbol is labelled with the status's canonical label, and is
/// the symbol of that label: spellings of one status (`canceled` and
/// `cancelled`, `wip` and `in_progress`, `completed` and `done`) and
/// unrecognised statuses (read as `open`) show as their canonical status.
pub proof fn lemma_symbol_follows_label(s: Seq<char>)
    ensures
        status_symbol(s).1 == crate::labels::status_label(s),
        status_symbol(s) == status_symbol(crate::labels::status_label(s)),
{
    reveal_strlit("done");
    reveal_strlit("completed");
    reveal_strlit("cancelled");
    reveal_strlit("canceled");
    reveal_strlit("in_progress");
    reveal_strlit("wip");
    reveal_strlit("archived");
    reveal_strlit("open");
    assert("done"@[0] == 'd' && "done"@.len() == 4);
    assert("completed"@[0] == 'c' && "completed"@[1] == 'o' && "completed"@.len() == 9);
    assert("cancelled"@[0] == 'c' && "cancelled"@[1] == 'a' && "cancelled"@.len() == 9);
    assert("canceled"@[0] == 'c' && "canceled"@[1] == 'a' && "canceled"@.len() == 8);
    assert("in_progress"@[0] == 'i');
    assert("wip"@[0] == 'w');
    assert("archived"@[0] == 'a');
    assert("open"@[0] == 'o');
}

/// The emoji of a task status string.
pub fn task_status_emoji(status: &str) -> (res: &'static str)
    ensures
        res@ == status_symbol(status@).0,
{
    task_status_symbol(status).0
}

/// The symbols of an entry at the instant `now`: an optional freshness
/// symbol (overdue, created or updated within the last 24 hours), then the
/// type symbol (event, task status, or note).
pub open spec fn symbols_at(
    task: Option<TaskMeta>,
    event: Option<EventMeta>,
    created_at: DateTime,
    updated_at: DateTime,
    now: DateTime,
) -> Seq<(Seq<char>, Seq<char>)> {
    let threshold = chrono_datetime_shift(now, -86400)->0;
    let fresh: Seq<(Seq<char>, Seq<char>)> = if is_overdue_at(task, now) {
        seq![("⏰"@, "overdue"@)]
    } else if threshold.not_after(created_at) {
        seq![("🆕"@, "new"@)]
    } else if threshold.not_after(updated_at) {
        seq![("✏️"@, "updated"@)]
    } else {
        seq![]
    };
    let kind = match event {
        Some(_) => ("📅"@, "event"@),
        None => match task {
            Some(t) => status_symbol(t.status@),
            None => ("📝"@, "note"@),
        },
    };
    fresh.push(kind)
}

/// The symbols of an entry at the instant `now`.
pub fn entry_symbols_at(
    task: Option<&TaskMeta>,
    event: Option<&EventMeta>,
    created_at: DateTime,
    updated_at: DateTime,
    now: DateTime,
) -> (res: Vec<Symbol>)
    requires
        now.valid(),
        now.date.year > MIN_YEAR,
    ensures
        res@.map_values(|s: Symbol| symbol_view(s)) == symbols_at(
            match task {
                Some(t) => Some(*t),
                None => None,
            },
            match event {
                Some(e) => Some(*e),
                None => None,
            },
            created_at,
            updated_at,
            now,
        ),
{
    let mut symbols: Vec<Symbol> = Vec::new();
    let is_overdue = match task {
        Some(t) => match t.due {
            Some(due) => due.is_before(&now) && t.closed_at.is_none(),
            None => false,
        },
        None => false,
    };
    if is_overdue {
        symbols.push(Symbol { emoji: "⏰", label: "overdue" });
    } else {
        let threshold = shift_seconds(now, -86400).unwrap();
        if threshold.is_not_after(&created_at) {
            symbols.push(Symbol { emoji: "🆕", label: "new" });
        } else if threshold.is_not_after(&updated_at) {
            symbols.push(Symbol { emoji: "✏️", label: "updated" });
        }
    }
    let kind = match event {
        Some(_) => Symbol { emoji: "📅", label: "event" },
        None => match task {
            Some(t) => {
                let (emoji, label) = task_status_symbol(t.status.as_str());
                Symbol { emoji, label }
            },
            None => Symbol { emoji: "📝", label: "note" },
        },
    };
    symbols.push(kind);
    symbols
}

/// The symbols of an entry at the local time.
pub fn entry_symbols(
    task: Option<&TaskMeta>,
    event: Option<&EventMeta>,
    created_at: DateTime,
    updated_at: DateTime,
) -> (res: Vec<Symbol>)
    ensures
        exists|now: DateTime|
            now.valid() && res@.map_values(|s: Symbol| symbol_view(s)) == symbols_at(
                match task {
                    Some(t) => Some(*t),
                    None => None,
                },
                match event {
                    Some(e) => Some(*e),
                    None => None,
                },
                created_at,
                updated_at,
                now,
            ),
{
    let now = local_now();
    entry_symbols_at(task, event, created_at, updated_at, now)
}

/// The emoji of an entry by its type alone: event, else task status, else note.
pub fn entry_emoji(task: Option<&TaskMeta>, event: Option<&EventMeta>) -> (res: &'static str)
    ensures
        res@ == (if event is Some {
            "📅"@
        } else {
            match task {
                Some(t) => status_symbol(t.status@).0,
                None => "📝"@,
            }
        }),
{
    if event.is_some() {
        return "📅";
    }
    if let Some(t) = task {
        return task_status_emoji(t.status.as_str());
    }
    "📝"
}

/// The two-slot text of a symbol list: a missing slot is an ideographic
/// space (U+3000), so the result always spans two columns.
pub open spec fn symbols_line(s: Seq<(Seq<char>, Seq<char>)>) -> Seq<char> {
    if s.len() == 0 {
        "　　"@
    } else if s.len() == 1 {
        "　"@ + s[0].0
    } else {
        s[0].0 + s[1].0
    }
}

/// Render symbols into the fixed two-slot terminal text.
pub fn symbols_text(symbols: &[Symbol]) -> (res: String)
    ensures
        res@ == symbols_line(symbols@.map_values(|s: Symbol| symbol_view(s))),
{
    if symbols.len() == 0 {
        owned("　　")
    } else if symbols.len() == 1 {
        concat("　", symbols[0].emoji)
    } else {
        concat(symbols[0].emoji, symbols[1].emoji)
    }
}

} // verus!
