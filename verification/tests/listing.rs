use sapphire_journal::cache::{headers_from_rows_at, is_stale_cache_file, title_lookup, CacheRow};
use sapphire_journal::cli::{build_filter, list_lines, show_text_at, tree_lines, DisplayMode, EntryFilterArgs};
use sapphire_journal::date_range::{compute_labels, date_in_range, resolve_date_filter, resolve_date_filter_at, RangeLabel};
use sapphire_journal::datetime::{Date, DateTime};
use sapphire_journal::entry::{Entry, EntryHeader, EventMeta, Frontmatter, TaskMeta};
use sapphire_journal::error::Error;
use sapphire_journal::journal::{Journal, WeekStart};
use sapphire_journal::labels::EntryFlag;
use sapphire_journal::ops::{build_entry_tree, parse_entry_fields, SortField, SortOrder};
use sapphire_journal::period::{parse_datetime, parse_with_fallback, Period};

fn dt(s: &str) -> DateTime {
    parse_datetime(s).unwrap()
}

fn d(year: i32, month: u32, day: u32) -> Date {
    Date { year, month, day }
}

fn fm(id: u64, parent: Option<u64>, title: &str) -> Frontmatter {
    Frontmatter {
        id,
        parent_id: parent,
        title: title.to_owned(),
        slug: String::new(),
        created_at: dt("2026-03-01T09:05:00"),
        updated_at: dt("2026-03-02T10:00:00"),
        tags: vec![],
        task: None,
        event: None,
    }
}

fn header(id: u64, parent: Option<u64>, title: &str, flags: Vec<EntryFlag>) -> EntryHeader {
    EntryHeader { path: format!("{id}.md"), frontmatter: fm(id, parent, title), flags }
}

fn row(id: u64) -> CacheRow {
    CacheRow {
        id,
        parent_id: None,
        path: format!("{id}.md"),
        title: format!("t{id}"),
        slug: String::new(),
        created_at: "2026-03-01T09:00".to_owned(),
        updated_at: "2026-03-01T09:00".to_owned(),
        task_status: None,
        task_due: None,
        task_started_at: None,
        task_closed_at: None,
        event_start: None,
        event_end: None,
    }
}

#[test]
fn cache_rows_become_headers_with_their_tags() {
    let tags = vec![(1u64, "a".to_owned()), (1, "b".to_owned()), (2, "c".to_owned()), (9, "x".to_owned())];
    let hs = headers_from_rows_at(vec![row(2), row(1), row(3)], &tags, dt("2026-03-10T00:00:00"));
    assert_eq!(hs.len(), 3);
    assert_eq!(hs[0].frontmatter.tags, vec!["c"]);
    assert_eq!(hs[1].frontmatter.tags, vec!["a", "b"]);
    assert!(hs[2].frontmatter.tags.is_empty());
    assert_eq!(hs[1].frontmatter.title, "t1");
    assert_eq!(hs[1].flags, vec![EntryFlag::Note]);
    // A repeated identifier gets no tags the second time.
    let twice = headers_from_rows_at(vec![row(1), row(1)], &tags, dt("2026-03-10T00:00:00"));
    assert_eq!(twice[0].frontmatter.tags, vec!["a", "b"]);
    assert!(twice[1].frontmatter.tags.is_empty());
}

#[test]
fn lookups_by_title() {
    match title_lookup("x", vec![]) {
        Err(Error::EntryNotFoundByTitle(t)) => assert_eq!(t, "x"),
        other => panic!("unexpected {:?}", other),
    }
    assert_eq!(title_lookup("x", vec![(4, "p.md".to_owned())]).unwrap(), (4, "p.md".to_owned()));
    match title_lookup("x", vec![(4, "p.md".to_owned()), (5, "q.md".to_owned())]) {
        Err(Error::AmbiguousTitle(t, n)) => assert_eq!((t.as_str(), n), ("x", 2)),
        other => panic!("unexpected {:?}", other),
    }
}

#[test]
fn stale_cache_files() {
    assert!(is_stale_cache_file("cache_v2.db"));
    assert!(is_stale_cache_file("cache_v10.db"));
    assert!(!is_stale_cache_file("cache_v3.db"));
    assert!(!is_stale_cache_file("cache_v2.db-wal"));
    assert!(!is_stale_cache_file("other.db"));
    assert!(!is_stale_cache_file("cache_.db"));
}

#[test]
fn list_and_tree_output() {
    let a = header(1, None, "Root", vec![EntryFlag::New, EntryFlag::Open]);
    let b = header(2, Some(1), "Child one", vec![EntryFlag::Note]);
    let c = header(3, Some(1), "Child two", vec![]);
    let e = header(4, Some(3), "Grandchild", vec![]);
    let f = header(5, None, "Other", vec![]);
    let lines = list_lines(&vec![a.clone(), b.clone()], DisplayMode::Initials);
    assert_eq!(lines, vec!["+O  0000001  Root", "·N  0000002  Child one"]);
    let tree = build_entry_tree(vec![
        (a, vec![]),
        (b, vec![]),
        (c, vec![]),
        (e, vec![]),
        (f, vec![]),
    ]);
    let lines = tree_lines(&tree, DisplayMode::Initials);
    assert_eq!(
        lines,
        vec![
            "+O  0000001  Root",
            "│  ├─ ·N  0000002  Child one",
            "│  └─ ·N  0000003  Child two",
            "│     └─ ·N  0000004  Grandchild",
            "·N  0000005  Other",
        ]
    );
    assert!(tree_lines(&vec![], DisplayMode::Emoji).is_empty());
    // Under the last root the indentation is blank.
    let single = build_entry_tree(vec![(header(1, None, "R", vec![]), vec![]), (header(2, Some(1), "C", vec![]), vec![])]);
    assert_eq!(tree_lines(&single, DisplayMode::Initials), vec!["·N  0000001  R", "   └─ ·N  0000002  C"]);
}

#[test]
fn showing_an_entry() {
    let mut f = fm(1, None, "Plan");
    f.tags = vec!["work".to_owned(), "q1".to_owned()];
    f.task = Some(TaskMeta {
        due: Some(dt("2026-03-09T00:00:00")),
        status: "done".to_owned(),
        started_at: None,
        closed_at: Some(dt("2026-03-03T08:30:00")),
    });
    f.event = Some(EventMeta { start: dt("2026-03-04T00:00:00"), end: dt("2026-03-05T23:59:59") });
    let entry = Entry { path: "p.md".to_owned(), frontmatter: f, body: "Body\n".to_owned() };
    let text = show_text_at(&entry, dt("2026-03-20T00:00:00"));
    assert_eq!(
        text,
        "# Plan\nflags:    event_closed\ncreated:  2026-03-01T09:05\nupdated:  2026-03-02T10:00\ntags:     work, q1\n\
         task:     done (due 2026-03-09)\nclosed:   2026-03-03T08:30\nevent:    2026-03-04 – 2026-03-05\n\nBody\n"
    );
    let plain = Entry { path: "p.md".to_owned(), frontmatter: fm(2, None, "N"), body: String::new() };
    assert_eq!(
        show_text_at(&plain, dt("2026-03-01T12:00:00")),
        "# N\nflags:    new, note\ncreated:  2026-03-01T09:05\nupdated:  2026-03-02T10:00\n\n"
    );
}

#[test]
fn date_ranges_and_labels() {
    assert!(date_in_range(d(2026, 3, 5), Some(d(2026, 3, 5)), Some(d(2026, 3, 5))));
    assert!(!date_in_range(d(2026, 3, 6), None, Some(d(2026, 3, 5))));
    assert!(date_in_range(d(1999, 1, 1), None, None));
    // 2026-03-05 is a Thursday.
    let today = d(2026, 3, 5);
    let none = None;
    assert_eq!(
        resolve_date_filter_at(Some(d(2026, 1, 1)), none, none, true, true, true, WeekStart::Monday, today),
        (Some(d(2026, 1, 1)), Some(d(2026, 1, 1)))
    );
    assert_eq!(resolve_date_filter_at(none, none, none, true, false, false, WeekStart::Monday, today), (Some(today), Some(today)));
    assert_eq!(
        resolve_date_filter_at(none, none, none, false, true, false, WeekStart::Monday, today),
        (Some(d(2026, 3, 2)), Some(d(2026, 3, 8)))
    );
    assert_eq!(
        resolve_date_filter_at(none, none, none, false, true, false, WeekStart::Sunday, today),
        (Some(d(2026, 3, 1)), Some(d(2026, 3, 7)))
    );
    assert_eq!(
        resolve_date_filter_at(none, none, none, false, false, true, WeekStart::Monday, d(2026, 2, 10)),
        (Some(d(2026, 2, 1)), Some(d(2026, 2, 28)))
    );
    assert_eq!(
        resolve_date_filter_at(none, Some(d(2026, 1, 1)), none, false, false, false, WeekStart::Monday, today),
        (Some(d(2026, 1, 1)), None)
    );
    let mut f = fm(1, None, "x");
    f.task = Some(TaskMeta { due: Some(dt("2026-03-01T00:00:00")), status: "open".to_owned(), started_at: None, closed_at: None });
    assert_eq!(
        compute_labels(&f, Some(d(2026, 3, 2)), Some(d(2026, 3, 3))),
        vec![RangeLabel::Todo, RangeLabel::Updated]
    );
    f.task = Some(TaskMeta {
        due: Some(dt("2026-03-01T00:00:00")),
        status: "done".to_owned(),
        started_at: None,
        closed_at: Some(dt("2026-03-02T00:00:00")),
    });
    f.event = Some(EventMeta { start: dt("2026-02-20T00:00:00"), end: dt("2026-03-01T00:00:00") });
    assert_eq!(
        compute_labels(&f, Some(d(2026, 3, 1)), Some(d(2026, 3, 1))),
        vec![RangeLabel::Todo, RangeLabel::Event, RangeLabel::Created]
    );
    assert_eq!(compute_labels(&f, Some(d(2026, 4, 1)), None), Vec::<RangeLabel>::new());
    assert_eq!(RangeLabel::Closed.as_str(), "CLOSED");
}

#[test]
fn request_fields_from_text() {
    let f = parse_entry_fields(
        Some("s".to_owned()),
        Some(" a, ,b ".to_owned()),
        Some("2026-03-10"),
        Some("wip".to_owned()),
        None,
        None,
        Some("2026-03-11"),
        Some("2026-03-12"),
    )
    .unwrap();
    assert!(f.title.is_none() && f.body.is_none() && f.parent.is_none());
    assert_eq!(f.slug.as_deref(), Some("s"));
    assert_eq!(f.tags, Some(vec!["a".to_owned(), "b".to_owned()]));
    assert_eq!(f.task_due, Some(dt("2026-03-10T23:59:59")));
    assert_eq!(f.event_start, Some(dt("2026-03-11T00:00:00")));
    assert_eq!(f.event_end, Some(dt("2026-03-12T23:59:59")));
    let err = parse_entry_fields(None, None, None, None, Some("bad"), Some("worse"), None, None).unwrap_err();
    assert_eq!(err, "`bad` is not a valid date/datetime — expected YYYY-MM-DD or YYYY-MM-DDTHH:MM");
}

#[test]
fn entries_by_identifier_prefix() {
    let paths = vec![
        "/j/2026/0000001_a.md".to_owned(),
        "/j/2026/0000002_b.md".to_owned(),
        "/j/2026/0000002_c.txt".to_owned(),
        "/j/0000003.md".to_owned(),
    ];
    assert_eq!(Journal::find_entry_by_id_in(&paths, "0000001").unwrap(), "/j/2026/0000001_a.md");
    assert_eq!(Journal::find_entry_by_id_in(&paths, "0000003").unwrap(), "/j/0000003.md");
    match Journal::find_entry_by_id_in(&paths, "00000") {
        Err(Error::AmbiguousId(p, n)) => assert_eq!((p.as_str(), n), ("00000", 3)),
        other => panic!("unexpected {:?}", other),
    }
    match Journal::find_entry_by_id_in(&paths, "zzz") {
        Err(Error::EntryNotFound(p)) => assert_eq!(p, "zzz"),
        other => panic!("unexpected {:?}", other),
    }
    // The prefix must fit in the stem.
    assert!(Journal::find_entry_by_id_in(&paths, "0000003.md").is_err());
}

#[test]
fn frontmatter_times() {
    assert_eq!(parse_with_fallback("2026-03-06T14:00", 0, 0).unwrap(), dt("2026-03-06T14:00:00"));
    assert_eq!(parse_with_fallback("2026-03-06T14:00:30", 0, 0).unwrap(), dt("2026-03-06T14:00:30"));
    assert_eq!(parse_with_fallback("2026-03-06", 23, 59).unwrap(), dt("2026-03-06T23:59:00"));
    assert_eq!(parse_with_fallback("2026-03-06", 0, 0).unwrap(), dt("2026-03-06T00:00:00"));
    assert_eq!(
        parse_with_fallback("soon", 0, 0).unwrap_err(),
        "cannot parse `soon` as a datetime; expected format YYYY-MM-DDTHH:MM"
    );
    let frac = parse_with_fallback("2026-03-06T14:00:30.5", 0, 0).unwrap();
    assert_eq!((frac.second, frac.nano), (30, 500_000_000));
}

fn args(period: Option<&str>) -> EntryFilterArgs {
    EntryFilterArgs {
        period: period.map(|p| p.to_owned()),
        all_periods: false,
        task_due: true,
        event_span: false,
        created_at: false,
        updated_at: false,
        overdue: true,
        task_started: false,
        task_status: Some(vec!["open".to_owned()]),
        tags: None,
        sort_by: Some("title".to_owned()),
        sort_order: "desc".to_owned(),
    }
}

#[test]
fn listing_options_become_a_filter() {
    let today = d(2026, 3, 5);
    let f = build_filter(args(Some("today")), WeekStart::Monday, today).unwrap().unwrap();
    assert!(f.fields.task_due && !f.fields.event_span);
    assert!(f.overdue && !f.task_started);
    assert_eq!(f.task_status, vec!["open"]);
    assert!(f.tags.is_empty());
    assert_eq!(f.sort_by, Some(SortField::Title));
    assert_eq!(f.sort_order, SortOrder::Desc);
    match f.period {
        Some(Period::Range(s, e)) => {
            assert_eq!(s, dt("2026-03-05T00:00:00"));
            assert_eq!(e, dt("2026-03-05T23:59:59"));
        }
        other => panic!("unexpected {:?}", other),
    }
    assert_eq!(
        build_filter(args(None), WeekStart::Monday, today).unwrap().unwrap_err(),
        "PERIOD is required (e.g. `today`, `this_week`, `2026-03-15`), or pass `--all-periods` to show all entries"
    );
    let mut all = args(None);
    all.all_periods = true;
    assert!(build_filter(all.clone(), WeekStart::Monday, today).unwrap().unwrap().period.is_none());
    all.sort_by = Some("size".to_owned());
    all.sort_order = "up".to_owned();
    assert!(build_filter(all.clone(), WeekStart::Monday, today).unwrap().unwrap_err().starts_with("unknown sort field `size`"));
    all.sort_by = None;
    assert_eq!(build_filter(all, WeekStart::Monday, today).unwrap().unwrap_err(), "unknown sort order `up`; expected `asc` or `desc`");
    assert!(build_filter(args(Some("someday")), WeekStart::Monday, today).unwrap().is_err());
    // Weeks start on the configured day.
    let f = build_filter(args(Some("this_week")), WeekStart::Sunday, today).unwrap().unwrap();
    match f.period {
        Some(Period::Range(s, _)) => assert_eq!(s, dt("2026-03-01T00:00:00")),
        other => panic!("unexpected {:?}", other),
    }
}

#[test]
fn date_filter_without_relative_names_needs_no_clock() {
    let d = Date { year: 2026, month: 3, day: 10 };
    let e = Date { year: 2026, month: 3, day: 20 };
    assert_eq!(
        resolve_date_filter(Some(d), None, Some(e), true, true, true, WeekStart::Monday),
        Some((Some(d), Some(d)))
    );
    assert_eq!(resolve_date_filter(None, Some(d), Some(e), false, false, false, WeekStart::Sunday), Some((Some(d), Some(e))));
    assert_eq!(resolve_date_filter(None, None, None, false, false, false, WeekStart::Sunday), Some((None, None)));
    let (start, end) = resolve_date_filter(None, None, None, true, false, false, WeekStart::Monday).unwrap();
    assert!(start.is_some() && start == end);
}
