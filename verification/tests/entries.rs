use sapphire_journal::datetime::DateTime;
use sapphire_journal::emoji::{entry_emoji, entry_symbols_at, symbols_text, task_status_emoji, task_status_symbol, Symbol};
use sapphire_journal::entry::{Entry, EntryHeader, EventMeta, Frontmatter, TaskMeta};
use sapphire_journal::labels::{entry_flags_at, task_status_label, EntryFlag};
use sapphire_journal::period::parse_datetime;

fn dt(s: &str) -> DateTime {
    parse_datetime(s).unwrap()
}

fn task(status: &str, due: Option<&str>, closed: Option<&str>) -> TaskMeta {
    TaskMeta { due: due.map(dt), status: status.to_owned(), started_at: None, closed_at: closed.map(dt) }
}

#[test]
fn status_labels() {
    assert_eq!(task_status_label("done"), "done");
    assert_eq!(task_status_label("completed"), "done");
    assert_eq!(task_status_label("canceled"), "cancelled");
    assert_eq!(task_status_label("wip"), "in_progress");
    assert_eq!(task_status_label("archived"), "archived");
    assert_eq!(task_status_label("whatever"), "open");
    assert_eq!(task_status_symbol("done"), ("✅", "done"));
    assert_eq!(task_status_symbol("nope"), ("⬜", "open"));
    assert_eq!(task_status_emoji("in_progress"), "🔄");
}

#[test]
fn flag_renderings() {
    assert_eq!(EntryFlag::EventClosed.as_str(), "event_closed");
    assert_eq!(EntryFlag::Updated.to_emoji(), "✏️");
    assert_eq!(EntryFlag::Overdue.to_initial(), '!');
    assert_eq!(EntryFlag::Note.to_nerd(), "󰈙");
}

#[test]
fn flags_at_a_fixed_instant() {
    let now = dt("2026-03-05T12:00:00");
    let old = dt("2026-01-01T00:00:00");
    // Overdue task beats freshness.
    let t = task("open", Some("2026-03-01T00:00:00"), None);
    assert_eq!(entry_flags_at(Some(&t), None, now, now, now), vec![EntryFlag::Overdue, EntryFlag::Open]);
    // A closed task is not overdue.
    let t = task("done", Some("2026-03-01T00:00:00"), Some("2026-03-02T00:00:00"));
    assert_eq!(entry_flags_at(Some(&t), None, old, old, now), vec![EntryFlag::Done]);
    // Created within 24 hours; exactly 24 hours ago still counts.
    assert_eq!(entry_flags_at(None, None, dt("2026-03-04T12:00:00"), old, now), vec![EntryFlag::New, EntryFlag::Note]);
    assert_eq!(entry_flags_at(None, None, dt("2026-03-04T11:59:59"), old, now), vec![EntryFlag::Note]);
    assert_eq!(entry_flags_at(None, None, old, dt("2026-03-05T11:00:00"), now), vec![EntryFlag::Updated, EntryFlag::Note]);
    // Events: closed once their end is past.
    let past = EventMeta { start: old, end: dt("2026-03-01T00:00:00") };
    let soon = EventMeta { start: old, end: dt("2026-03-09T00:00:00") };
    assert_eq!(entry_flags_at(None, Some(&past), old, old, now), vec![EntryFlag::EventClosed]);
    assert_eq!(entry_flags_at(None, Some(&soon), old, old, now), vec![EntryFlag::Event]);
}

#[test]
fn symbols_and_their_text() {
    let now = dt("2026-03-05T12:00:00");
    let old = dt("2026-01-01T00:00:00");
    let t = task("wip", None, None);
    let s = entry_symbols_at(Some(&t), None, now, old, now);
    assert_eq!(s.len(), 2);
    assert_eq!((s[0].emoji, s[0].label), ("🆕", "new"));
    assert_eq!((s[1].emoji, s[1].label), ("🔄", "in_progress"));
    assert_eq!(symbols_text(&s), "🆕🔄");
    let one = [Symbol { emoji: "📝", label: "note" }];
    assert_eq!(symbols_text(&one), "　📝");
    assert_eq!(symbols_text(&[]), "　　");
    let ev = EventMeta { start: old, end: old };
    assert_eq!(entry_emoji(Some(&t), Some(&ev)), "📅");
    assert_eq!(entry_emoji(Some(&t), None), "🔄");
    assert_eq!(entry_emoji(None, None), "📝");
}

fn frontmatter(id: u64, title: &str) -> Frontmatter {
    let t = dt("2026-03-01T09:00:00");
    Frontmatter {
        id,
        parent_id: None,
        title: title.to_owned(),
        slug: String::new(),
        created_at: t,
        updated_at: t,
        tags: vec![],
        task: None,
        event: None,
    }
}

#[test]
fn headers_carry_their_flags() {
    let entry = Entry { path: "2026/0000001_a.md".to_owned(), frontmatter: frontmatter(1, "A"), body: String::new() };
    let h = EntryHeader::from_entry_at(entry, dt("2026-03-01T10:00:00"));
    assert_eq!(h.flags, vec![EntryFlag::New, EntryFlag::Note]);
    assert_eq!(h.id(), 1);
    assert_eq!(h.title(), "A");
}

#[test]
fn entry_title_falls_back_to_the_file_stem() {
    let entry = |path: &str, title: &str| Entry { path: path.to_owned(), frontmatter: frontmatter(0, title), body: String::new() };
    assert_eq!(entry("2026/0000000_test.md", "Hello").title(), "Hello");
    assert_eq!(entry("2026/0000000_test.md", "").title(), "0000000_test");
    assert_eq!(entry("notes/.hidden", "").title(), ".hidden");
    assert_eq!(entry("notes/archive.tar.gz", "").title(), "archive.tar");
    assert_eq!(entry("notes/draft/", "").title(), "draft");
    assert_eq!(entry("", "").title(), "(untitled)");
    assert_eq!(entry("notes/..", "").title(), "(untitled)");
}
