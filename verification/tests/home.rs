use sapphire_journal::datetime::DateTime;
use sapphire_journal::entry::{Entry, EntryHeader, EventMeta, Frontmatter, TaskMeta};
use sapphire_journal::home::{
    apply_editor, filter_and_sort_at, flag_label, is_descendant_or_self, join_tags, load_editor, parse_tags,
    period_label, reparent_action, sort_label,
};
use sapphire_journal::labels::EntryFlag;
use sapphire_journal::period::parse_datetime;

fn dt(s: &str) -> DateTime {
    parse_datetime(s).unwrap()
}

fn fm(id: u64, parent: Option<u64>, title: &str, created: &str) -> Frontmatter {
    Frontmatter {
        id,
        parent_id: parent,
        title: title.to_owned(),
        slug: String::new(),
        created_at: dt(created),
        updated_at: dt(created),
        tags: vec![],
        task: None,
        event: None,
    }
}

fn header(id: u64, parent: Option<u64>, title: &str, created: &str) -> EntryHeader {
    EntryHeader { path: format!("{id}.md"), frontmatter: fm(id, parent, title, created), flags: vec![] }
}

#[test]
fn captions() {
    assert_eq!(flag_label(EntryFlag::EventClosed), "Event closed");
    assert_eq!(flag_label(EntryFlag::InProgress), "In progress");
    assert_eq!(period_label("this_week"), "This week");
    assert_eq!(period_label(""), "All");
    assert_eq!(period_label("whenever"), "All");
    assert_eq!(sort_label("created_at"), "Created");
    assert_eq!(sort_label("id"), "ID");
}

#[test]
fn tags_fields() {
    assert_eq!(parse_tags(" rust, cli ,,  "), vec!["rust", "cli"]);
    assert_eq!(parse_tags(""), Vec::<String>::new());
    assert_eq!(parse_tags("a"), vec!["a"]);
    let tags = vec!["rust".to_owned(), "cli".to_owned()];
    assert_eq!(join_tags(&tags), "rust, cli");
    assert_eq!(join_tags(&vec![]), "");
    assert_eq!(parse_tags(&join_tags(&tags)), tags);
}

#[test]
fn editor_round_trip() {
    let mut f = fm(33, None, "Old", "2026-03-01T09:00:00");
    f.tags = vec!["a".to_owned(), "b".to_owned()];
    f.task = Some(TaskMeta {
        due: Some(dt("2026-03-10T23:59:59")),
        status: "wip".to_owned(),
        started_at: Some(dt("2026-03-02T08:00:00")),
        closed_at: None,
    });
    f.event = Some(EventMeta { start: dt("2026-03-04T00:00:00"), end: dt("2026-03-05T23:59:59") });
    let entry = Entry { path: "p.md".to_owned(), frontmatter: f, body: "body".to_owned() };
    let mut ed = load_editor(&entry);
    assert_eq!(ed.id, "0000011");
    assert_eq!(ed.tags, "a, b");
    assert_eq!(ed.task_status, "wip");
    assert_eq!(ed.task_due, "2026-03-10");
    assert_eq!((ed.event_start.as_str(), ed.event_end.as_str()), ("2026-03-04", "2026-03-05"));
    ed.title = "New".to_owned();
    ed.tags = "x, y".to_owned();
    ed.task_status = String::new();
    ed.event_end = String::new();
    let out = apply_editor(entry.clone(), &ed).unwrap();
    assert_eq!(out.frontmatter.title, "New");
    assert_eq!(out.frontmatter.tags, vec!["x", "y"]);
    let t = out.frontmatter.task.unwrap();
    // A blank status is open; the start time is kept; a date means its last second.
    assert_eq!(t.status, "open");
    assert_eq!(t.started_at, Some(dt("2026-03-02T08:00:00")));
    assert_eq!(t.due, Some(dt("2026-03-10T23:59:59")));
    // A missing event end is taken from the start.
    let ev = out.frontmatter.event.unwrap();
    assert_eq!(ev.start, dt("2026-03-04T00:00:00"));
    assert_eq!(ev.end, dt("2026-03-04T23:59:59"));
    // Errors.
    let mut bad = ed.clone();
    bad.task_due = "tomorrow-ish".to_owned();
    assert!(apply_editor(entry.clone(), &bad).unwrap_err().starts_with("task.due: "));
    let mut no_dates = ed.clone();
    no_dates.event_start = " ".to_owned();
    assert_eq!(apply_editor(entry.clone(), &no_dates).unwrap_err(), "event requires a start or end date");
    let mut plain = ed.clone();
    plain.has_task = false;
    plain.has_event = false;
    let p = apply_editor(entry, &plain).unwrap();
    assert!(p.frontmatter.task.is_none() && p.frontmatter.event.is_none());
}

#[test]
fn drop_targets_in_the_tree() {
    let es = vec![
        header(1, None, "root", "2026-03-01T00:00:00"),
        header(2, Some(1), "child", "2026-03-01T00:00:00"),
        header(3, Some(2), "grandchild", "2026-03-01T00:00:00"),
        header(4, None, "other", "2026-03-01T00:00:00"),
    ];
    assert!(is_descendant_or_self(&es, 1, 1));
    assert!(is_descendant_or_self(&es, 1, 3));
    assert!(is_descendant_or_self(&es, 2, 3));
    assert!(!is_descendant_or_self(&es, 3, 1));
    assert!(!is_descendant_or_self(&es, 1, 4));
    // A cycle in the parent links ends the walk.
    let cyc = vec![header(5, Some(6), "a", "2026-03-01T00:00:00"), header(6, Some(5), "b", "2026-03-01T00:00:00")];
    assert!(!is_descendant_or_self(&cyc, 7, 5));
}

#[test]
fn home_list_filters_and_sorts() {
    let now = dt("2026-03-05T12:00:00");
    let mut a = header(1, None, "HeLLo World", "2026-03-05T08:00:00");
    a.frontmatter.tags = vec!["Misc".to_owned()];
    let b = header(2, None, "another", "2026-03-04T08:00:00");
    let c = header(3, None, "zeta hello", "2026-02-01T08:00:00");
    let es = vec![a, b, c];
    let titles = |v: Vec<EntryHeader>| v.into_iter().map(|h| h.frontmatter.title).collect::<Vec<_>>();
    // The search is case-insensitive on titles, identifiers and tags.
    assert_eq!(titles(filter_and_sort_at(es.clone(), "", "  HELLO ", "title", "asc", now)), vec!["HeLLo World", "zeta hello"]);
    assert_eq!(titles(filter_and_sort_at(es.clone(), "", "misc", "", "asc", now)), vec!["HeLLo World"]);
    assert_eq!(titles(filter_and_sort_at(es.clone(), "", "0000002", "", "asc", now)), vec!["another"]);
    // Sorting, ascending and descending; unknown fields keep the input order.
    // Titles compare by character code: upper case first.
    assert_eq!(titles(filter_and_sort_at(es.clone(), "", "", "title", "asc", now)), vec!["HeLLo World", "another", "zeta hello"]);
    assert_eq!(titles(filter_and_sort_at(es.clone(), "", "", "created_at", "desc", now)), vec!["HeLLo World", "another", "zeta hello"]);
    assert_eq!(titles(filter_and_sort_at(es.clone(), "", "", "bogus", "desc", now)), vec!["zeta hello", "another", "HeLLo World"]);
    // A period keeps the entries created (or updated) in it; unreadable text keeps all.
    assert_eq!(titles(filter_and_sort_at(es.clone(), "today", "", "id", "asc", now)), vec!["HeLLo World"]);
    assert_eq!(titles(filter_and_sort_at(es.clone(), "this_month", "", "id", "asc", now)), vec!["HeLLo World", "another"]);
    assert_eq!(filter_and_sort_at(es.clone(), "not a period", "", "id", "asc", now).len(), 3);
}

#[test]
fn tree_drops_become_reparent_moves() {
    let t = "2026-03-01T09:00:00";
    let es = vec![header(1, None, "a", t), header(2, Some(1), "b", t), header(3, Some(2), "c", t), header(4, None, "d", t)];
    // Onto another entry: the dragged entry's path and its new parent.
    assert_eq!(reparent_action(&es, 4, Some(3)), Some(("4.md".to_string(), Some(3))));
    assert_eq!(reparent_action(&es, 3, Some(1)), Some(("3.md".to_string(), Some(1))));
    // Onto itself, into its own subtree, or onto its present parent: nothing.
    assert_eq!(reparent_action(&es, 2, Some(2)), None);
    assert_eq!(reparent_action(&es, 1, Some(3)), None);
    assert_eq!(reparent_action(&es, 3, Some(2)), None);
    // Onto the root zone: only an entry with a parent moves.
    assert_eq!(reparent_action(&es, 2, None), Some(("2.md".to_string(), None)));
    assert_eq!(reparent_action(&es, 4, None), None);
    // An unknown entry does not move.
    assert_eq!(reparent_action(&es, 9, Some(1)), None);
}
