use sapphire_journal::datetime::DateTime;
use sapphire_journal::entry::{Entry, EntryHeader, EventMeta, Frontmatter, TaskMeta};
use sapphire_journal::ops::{
    apply_fields, apply_filter_and_sort_at, build_entry_tree, check_entry, entry_filename_from_frontmatter,
    file_name, fix_entry, new_entry_destination, new_entry_file, new_entry_template, new_frontmatter,
    check_title, parent_dir, stable_sort, title_change_needs_check, title_taken, CheckIssue, EntryFields, EntryFilter, EntryTreeNode,
    FieldSelector, MatchLabel, SortField, SortOrder,
};
use sapphire_journal::period::{parse_datetime, parse_period_at, Period};

fn dt(s: &str) -> DateTime {
    parse_datetime(s).unwrap()
}

fn fm(id: u64, parent: Option<u64>, title: &str, created: &str) -> Frontmatter {
    Frontmatter {
        id,
        parent_id: parent,
        title: title.to_owned(),
        slug: String::new(),
        created_at: dt(created),
        updated_at: dt(created),
        tags: vec![],
        task: None,
        event: None,
    }
}

fn header(f: Frontmatter) -> EntryHeader {
    EntryHeader { path: format!("{}.md", f.title), frontmatter: f, flags: vec![] }
}

#[test]
fn sort_names_and_selectors() {
    assert_eq!(SortField::parse("task_due"), Ok(SortField::TaskDue));
    assert_eq!(
        SortField::parse("size"),
        Err("unknown sort field `size`; expected one of: id, title, task_status, created_at, updated_at, task_due, event_start".to_owned())
    );
    assert_eq!("desc".parse::<SortOrder>(), Ok(SortOrder::Desc));
    assert_eq!(SortOrder::parse("up"), Err("unknown sort order `up`; expected `asc` or `desc`".to_owned()));
    assert!(FieldSelector::default().is_empty());
    assert!(!FieldSelector { created_at: true, ..Default::default() }.is_empty());
    assert_eq!(MatchLabel::CreatedAt.as_str(), "CREATED");
}

#[test]
fn filter_by_period_fields_tags_and_status() {
    let now = dt("2026-03-10T12:00:00");
    let mut a = fm(1, None, "a", "2026-03-05T10:00:00");
    a.tags = vec!["work".to_owned(), "urgent".to_owned()];
    let mut b = fm(2, None, "b", "2026-02-01T10:00:00");
    b.task = Some(TaskMeta { due: Some(dt("2026-03-05T18:00:00")), status: "open".to_owned(), started_at: None, closed_at: None });
    let mut c = fm(3, None, "c", "2026-02-01T10:00:00");
    c.event = Some(EventMeta { start: dt("2026-03-01T00:00:00"), end: dt("2026-03-31T00:00:00") });
    let entries = vec![header(a), header(b), header(c)];

    let day = parse_period_at("2026-03-05", now.date).unwrap().unwrap();
    let filter = EntryFilter { period: Some(day), ..Default::default() };
    let (ok, labels) = filter.matches_at(&entries[0], now);
    assert!(ok);
    assert_eq!(labels, vec![MatchLabel::CreatedAt, MatchLabel::UpdatedAt]);
    let (ok, labels) = filter.matches_at(&entries[1], now);
    assert!(ok);
    assert_eq!(labels, vec![MatchLabel::TaskDue, MatchLabel::Overdue].into_iter().take(1).collect::<Vec<_>>());
    let (ok, labels) = filter.matches_at(&entries[2], now);
    assert!(ok);
    assert_eq!(labels, vec![MatchLabel::EventSpan]);

    // Restricting to created_at drops the task and the event.
    let filter = EntryFilter { period: Some(day), fields: FieldSelector { created_at: true, ..Default::default() }, ..Default::default() };
    assert!(filter.matches_at(&entries[0], now).0);
    assert!(!filter.matches_at(&entries[1], now).0);
    assert!(!filter.matches_at(&entries[2], now).0);

    // Overdue without a period.
    let filter = EntryFilter { overdue: true, ..Default::default() };
    assert_eq!(filter.matches_at(&entries[1], now), (true, vec![MatchLabel::Overdue]));
    assert!(!filter.matches_at(&entries[0], now).0);

    // Tags are ANDed; statuses must match a task.
    let filter = EntryFilter { tags: vec!["work".to_owned(), "urgent".to_owned()], ..Default::default() };
    assert!(filter.matches_at(&entries[0], now).0);
    assert!(!filter.matches_at(&entries[2], now).0);
    let filter = EntryFilter { task_status: vec!["open".to_owned()], ..Default::default() };
    assert!(filter.matches_at(&entries[1], now).0);
    assert!(!filter.matches_at(&entries[0], now).0);

    // No filter: everything, no labels.
    let filter = EntryFilter::default();
    assert!(!filter.has_any_filter());
    assert_eq!(filter.matches_at(&entries[2], now), (true, vec![]));

    // The absent-field period picks entries without the field.
    let filter = EntryFilter { period: Some(Period::Absent), fields: FieldSelector { task_due: true, ..Default::default() }, ..Default::default() };
    assert!(filter.matches_at(&entries[0], now).0);
    assert!(!filter.matches_at(&entries[1], now).0);
}

#[test]
fn started_tasks_until_the_period_end() {
    let now = dt("2026-03-10T12:00:00");
    let mut a = fm(1, None, "a", "2026-01-01T00:00:00");
    a.task = Some(TaskMeta { due: None, status: "in_progress".to_owned(), started_at: Some(dt("2026-03-03T00:00:00")), closed_at: None });
    let e = header(a);
    let early = parse_period_at("2026-03-01", now.date).unwrap().unwrap();
    let later = parse_period_at("2026-03-04", now.date).unwrap().unwrap();
    let f = EntryFilter { period: Some(early), fields: FieldSelector { created_at: true, ..Default::default() }, task_started: true, ..Default::default() };
    assert!(!f.matches_at(&e, now).0);
    let f = EntryFilter { period: Some(later), fields: FieldSelector { created_at: true, ..Default::default() }, task_started: true, ..Default::default() };
    assert_eq!(f.matches_at(&e, now), (true, vec![MatchLabel::TaskStarted]));
}

#[test]
fn sorting_is_stable_in_both_directions() {
    let now = dt("2026-03-10T12:00:00");
    let entries = vec![
        header(fm(3, None, "b", "2026-03-01T00:00:00")),
        header(fm(1, None, "a", "2026-03-02T00:00:00")),
        header(fm(2, None, "b", "2026-03-03T00:00:00")),
    ];
    let filter = EntryFilter { sort_by: Some(SortField::Title), ..Default::default() };
    let out = apply_filter_and_sort_at(entries.clone(), &filter, now);
    let ids: Vec<u64> = out.iter().map(|(h, _)| h.id()).collect();
    assert_eq!(ids, vec![1, 3, 2]);
    let filter = EntryFilter { sort_by: Some(SortField::Title), sort_order: SortOrder::Desc, ..Default::default() };
    let out = apply_filter_and_sort_at(entries.clone(), &filter, now);
    let ids: Vec<u64> = out.iter().map(|(h, _)| h.id()).collect();
    assert_eq!(ids, vec![3, 2, 1]);
    let filter = EntryFilter { sort_by: Some(SortField::Id), ..Default::default() };
    let ids: Vec<u64> = apply_filter_and_sort_at(entries.clone(), &filter, now).iter().map(|(h, _)| h.id()).collect();
    assert_eq!(ids, vec![1, 2, 3]);
    let filter = EntryFilter::default();
    let ids: Vec<u64> = apply_filter_and_sort_at(entries, &filter, now).iter().map(|(h, _)| h.id()).collect();
    assert_eq!(ids, vec![3, 1, 2]);
}

#[test]
fn absent_due_dates_sort_last() {
    let mut a = fm(1, None, "a", "2026-03-01T00:00:00");
    a.task = Some(TaskMeta { due: Some(dt("2026-03-09T00:00:00")), status: "open".to_owned(), started_at: None, closed_at: None });
    let b = fm(2, None, "b", "2026-03-01T00:00:00");
    let mut c = fm(3, None, "c", "2026-03-01T00:00:00");
    c.task = Some(TaskMeta { due: Some(dt("2026-03-02T00:00:00")), status: "open".to_owned(), started_at: None, closed_at: None });
    let items = vec![(header(a), vec![]), (header(b), vec![]), (header(c), vec![])];
    let ids: Vec<u64> = stable_sort(items, SortField::TaskDue, SortOrder::Asc).iter().map(|(h, _)| h.id()).collect();
    assert_eq!(ids, vec![3, 1, 2]);
}

fn ids_of(nodes: &[EntryTreeNode]) -> Vec<(u64, Vec<u64>)> {
    nodes.iter().map(|n| (n.entry.id(), n.children.iter().map(|c| c.entry.id()).collect())).collect()
}

#[test]
fn tree_keeps_input_order_and_orphans_become_roots() {
    let entries = vec![
        (header(fm(1, None, "root", "2026-03-01T00:00:00")), vec![]),
        (header(fm(2, Some(1), "child b", "2026-03-01T00:00:00")), vec![MatchLabel::CreatedAt]),
        (header(fm(3, Some(9), "orphan", "2026-03-01T00:00:00")), vec![]),
        (header(fm(4, Some(1), "child a", "2026-03-01T00:00:00")), vec![]),
        (header(fm(5, Some(2), "grandchild", "2026-03-01T00:00:00")), vec![]),
    ];
    let roots = build_entry_tree(entries);
    assert_eq!(ids_of(&roots), vec![(1, vec![2, 4]), (3, vec![])]);
    assert_eq!(ids_of(&roots[0].children), vec![(2, vec![5]), (4, vec![])]);
    assert_eq!(roots[0].children[0].labels, vec![MatchLabel::CreatedAt]);
}

#[test]
fn tree_drops_parent_cycles() {
    let entries = vec![
        (header(fm(1, Some(2), "a", "2026-03-01T00:00:00")), vec![]),
        (header(fm(2, Some(1), "b", "2026-03-01T00:00:00")), vec![]),
        (header(fm(3, None, "c", "2026-03-01T00:00:00")), vec![]),
    ];
    assert_eq!(ids_of(&build_entry_tree(entries)), vec![(3, vec![])]);
}

#[test]
fn new_frontmatter_defaults() {
    let now = dt("2026-03-10T12:00:00");
    let fields = EntryFields { title: Some("T".to_owned()), task_status: Some("done".to_owned()), event_end: Some(dt("2026-03-11T00:00:00")), ..Default::default() };
    let (f, body) = new_frontmatter(fields, 7, Some(1), now);
    assert_eq!(body, "");
    assert_eq!(f.title, "T");
    assert_eq!(f.parent_id, Some(1));
    let t = f.task.unwrap();
    assert_eq!(t.status, "done");
    assert_eq!(t.closed_at, Some(now));
    assert_eq!(t.started_at, None);
    let e = f.event.unwrap();
    assert_eq!((e.start, e.end), (dt("2026-03-11T00:00:00"), dt("2026-03-11T00:00:00")));
    let (f, _) = new_frontmatter(EntryFields::default(), 8, None, now);
    assert!(f.task.is_none() && f.event.is_none() && f.title.is_empty());
    let (f, _) = new_frontmatter(EntryFields { task_due: Some(now), ..Default::default() }, 8, None, now);
    assert_eq!(f.task.unwrap().status, "open");
}

#[test]
fn updates_apply_given_fields_only() {
    let now = dt("2026-03-10T12:00:00");
    let mut f = fm(1, None, "old", "2026-03-01T00:00:00");
    f.tags = vec!["x".to_owned()];
    f.task = Some(TaskMeta { due: None, status: "open".to_owned(), started_at: None, closed_at: None });
    let entry = Entry { path: "2026/0000001_old.md".to_owned(), frontmatter: f, body: "b".to_owned() };
    let fields = EntryFields { task_status: Some("in_progress".to_owned()), tags: Some(vec![]), ..Default::default() };
    let e = apply_fields(entry, fields, Some(5), now);
    assert_eq!(e.frontmatter.title, "old");
    assert!(e.frontmatter.tags.is_empty());
    assert_eq!(e.frontmatter.parent_id, Some(5));
    let t = e.frontmatter.task.clone().unwrap();
    assert_eq!(t.status, "in_progress");
    assert_eq!(t.started_at, Some(now));
    assert_eq!(e.body, "b");
    // Event: the existing one takes the given start.
    let fields = EntryFields { event_start: Some(dt("2026-04-01T00:00:00")), ..Default::default() };
    let e = apply_fields(e, fields, None, now);
    let ev = e.frontmatter.event.unwrap();
    assert_eq!((ev.start, ev.end), (dt("2026-04-01T00:00:00"), dt("2026-04-01T00:00:00")));
    assert!(title_change_needs_check("new", "old"));
    assert!(!title_change_needs_check("old", "old"));
    assert!(!title_change_needs_check("", "old"));
}

#[test]
fn check_and_fix_filenames() {
    let now = dt("2026-03-10T12:00:00");
    let f = fm(1, None, "My Note", "2026-03-01T00:00:00");
    assert_eq!(entry_filename_from_frontmatter(1, &f), "0000001_my_note.md");
    assert!(check_entry("/j/2026/0000001_my_note.md", &f).is_empty());
    let issues = check_entry("/j/2026/0000001.md", &f);
    assert_eq!(issues.len(), 1);
    let CheckIssue::FilenameMismatch { expected_filename } = &issues[0];
    assert_eq!(expected_filename, "0000001_my_note.md");
    assert_eq!(issues[0].as_str(), "filename mismatch — should be `0000001_my_note.md`");

    let mut g = f.clone();
    g.task = Some(TaskMeta { due: None, status: "done".to_owned(), started_at: None, closed_at: None });
    let entry = Entry { path: "/j/2026/0000001.md".to_owned(), frontmatter: g, body: String::new() };
    let (fixed, target) = fix_entry(entry, true, now);
    assert_eq!(target.as_deref(), Some("/j/2026/0000001_my_note.md"));
    assert_eq!(fixed.frontmatter.updated_at, now);
    assert_eq!(fixed.frontmatter.task.clone().unwrap().closed_at, Some(now));
    // Checking the file where it was moved finds nothing.
    assert!(check_entry(target.as_deref().unwrap(), &fixed.frontmatter).is_empty());
    let (_, again) = fix_entry(Entry { path: target.unwrap(), ..fixed }, false, now);
    assert_eq!(again, None);
    // A slug overrides the title.
    let mut h = fm(2, None, "Title", "2026-03-01T00:00:00");
    h.slug = "custom".to_owned();
    assert_eq!(entry_filename_from_frontmatter(2, &h), "0000002_custom.md");
    assert_eq!(file_name("/a/b/c.md"), "c.md");
    assert_eq!(parent_dir("/a/b/c.md"), "/a/b");
    assert_eq!(parent_dir("c.md"), "");
}

#[test]
fn new_entry_files() {
    let now = dt("2026-03-10T12:34:56");
    let text = new_entry_template(1, Some(2), now);
    assert!(text.starts_with("---\nid: '0000001'\nparent_id: '0000002'\ntitle: ''\ncreated_at: 2026-03-10T12:34\nupdated_at: 2026-03-10T12:34\n"));
    assert!(text.ends_with("#   end: YYYY-MM-DD\n---\n\n"));
    assert!(!new_entry_template(1, None, now).contains("parent_id"));
    assert_eq!(new_entry_file("/j", 2026, 1), "/j/2026/0000001.md");
    let f = fm(1, None, "Hello", "2026-03-01T00:00:00");
    assert_eq!(new_entry_destination("/j", 2026, &f), "/j/2026/0000001_hello.md");
}

#[test]
fn sort_names_read_through_from_str() {
    assert_eq!("event_start".parse::<SortField>(), Ok(SortField::EventStart));
    assert_eq!(
        "size".parse::<SortField>(),
        Err("unknown sort field `size`; expected one of: id, title, task_status, created_at, updated_at, task_due, event_start".to_string())
    );
    assert_eq!("asc".parse::<SortOrder>(), Ok(SortOrder::Asc));
    assert_eq!("up".parse::<SortOrder>(), Err("unknown sort order `up`; expected `asc` or `desc`".to_string()));
}

#[test]
fn titles_taken_by_other_entries() {
    let hs = vec![header(fm(1, None, "Alpha", "2026-01-01T00:00:00")), header(fm(2, None, "Beta", "2026-01-01T00:00:00"))];
    assert!(title_taken(&hs, "Alpha", None));
    assert!(!title_taken(&hs, "Alpha", Some(1)));
    assert!(title_taken(&hs, "Beta", Some(1)));
    assert!(!title_taken(&hs, "Gamma", None));
}

#[test]
fn duplicate_titles_are_refused() {
    let hs = vec![header(fm(1, None, "Alpha", "2026-01-01T00:00:00")), header(fm(2, None, "Beta", "2026-01-01T00:00:00"))];
    assert!(matches!(check_title(&hs, "Alpha", None), Err(sapphire_journal::error::Error::DuplicateTitle(t)) if t == "Alpha"));
    assert!(check_title(&hs, "Gamma", None).is_ok());
    assert!(check_title(&hs, "", None).is_ok());
    // Renaming entry 1: its own title is no conflict, another entry's is.
    assert!(check_title(&hs, "Alpha", Some((1, "Old"))).is_ok());
    assert!(check_title(&hs, "Beta", Some((2, "Beta"))).is_ok());
    assert!(check_title(&hs, "Beta", Some((1, "Alpha"))).is_err());
}
