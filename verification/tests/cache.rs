use sapphire_journal::cache::{
    bump_id, db_files, db_path, duplicate_title_outcome, entry_from_row, header_from_row_at, plan_sync,
    schema_action, CacheRow, SchemaAction, SCHEMA_VERSION,
};
use sapphire_journal::datetime::DateTime;
use sapphire_journal::entry::{Entry, Frontmatter};
use sapphire_journal::error::Error;
use sapphire_journal::journal::DuplicateTitlePolicy;
use sapphire_journal::labels::EntryFlag;
use sapphire_journal::period::parse_datetime;

fn dt(s: &str) -> DateTime {
    parse_datetime(s).unwrap()
}

fn row(id: u64) -> CacheRow {
    CacheRow {
        id,
        parent_id: Some(7),
        path: "/j/2026/0000001_a.md".to_owned(),
        title: "A".to_owned(),
        slug: "a".to_owned(),
        created_at: "2026-03-01T09:30".to_owned(),
        updated_at: "not a time".to_owned(),
        task_status: Some("open".to_owned()),
        task_due: Some("2026-03-04T00:00".to_owned()),
        task_started_at: None,
        task_closed_at: None,
        event_start: Some("2026-03-02T10:00".to_owned()),
        event_end: None,
    }
}

#[test]
fn database_file_names() {
    assert_eq!(db_path("/c/sapphire-journal/abc"), "/c/sapphire-journal/abc/cache_v3.db");
    assert_eq!(db_files("/c/x.db"), vec!["/c/x.db", "/c/x.db-wal", "/c/x.db-shm"]);
}

#[test]
fn schema_versions() {
    assert_eq!(schema_action(0).unwrap(), SchemaAction::Initialize);
    assert_eq!(schema_action(SCHEMA_VERSION).unwrap(), SchemaAction::Open);
    match schema_action(9) {
        Err(Error::CacheSchemaTooNew { db_version, app_version }) => {
            assert_eq!(db_version, 9);
            assert_eq!(app_version, 3);
        }
        other => panic!("unexpected {:?}", other),
    }
    assert!(schema_action(2).is_err());
}

#[test]
fn sync_plans() {
    let disk = vec![("a.md".to_owned(), 10i64), ("b.md".to_owned(), 20), ("c.md".to_owned(), 30)];
    let stored = vec![("a.md".to_owned(), 10i64), ("b.md".to_owned(), 21), ("gone.md".to_owned(), 5)];
    let plan = plan_sync(&disk, &stored);
    assert_eq!(plan.removed, vec!["gone.md"]);
    assert_eq!(plan.changed, vec![1, 2]);
    // A cache that matches the disk has nothing to do.
    let settled = plan_sync(&disk, &disk);
    assert!(settled.removed.is_empty());
    assert!(settled.changed.is_empty());
    // An empty cache re-reads everything.
    let fresh = plan_sync(&disk, &vec![]);
    assert_eq!(fresh.changed, vec![0, 1, 2]);
}

#[test]
fn duplicate_titles() {
    assert_eq!(duplicate_title_outcome(DuplicateTitlePolicy::Allow, Some("x".to_owned())).unwrap(), None);
    assert_eq!(duplicate_title_outcome(DuplicateTitlePolicy::Warn, None).unwrap(), None);
    assert_eq!(
        duplicate_title_outcome(DuplicateTitlePolicy::Warn, Some("x".to_owned())).unwrap(),
        Some("warn: duplicate title detected: `x`".to_owned())
    );
    match duplicate_title_outcome(DuplicateTitlePolicy::Error, Some("x".to_owned())) {
        Err(Error::DuplicateTitle(t)) => assert_eq!(t, "x"),
        other => panic!("unexpected {:?}", other),
    }
}

#[test]
fn bumping_an_identifier_renames_the_file() {
    let t = dt("2026-03-01T09:00:00");
    let fm = Frontmatter {
        id: 31,
        parent_id: None,
        title: "My Note".to_owned(),
        slug: String::new(),
        created_at: t,
        updated_at: t,
        tags: vec![],
        task: None,
        event: None,
    };
    let entry = Entry { path: "/j/2026/000000z_my_note.md".to_owned(), frontmatter: fm, body: "b".to_owned() };
    let (bumped, path) = bump_id(entry);
    assert_eq!(bumped.frontmatter.id, 32);
    assert_eq!(path, "/j/2026/0000010_my_note.md");
    assert_eq!(bumped.path, path);
    assert_eq!(bumped.body, "b");
}

#[test]
fn rows_become_entries() {
    let e = entry_from_row(row(3), vec!["t".to_owned()]);
    assert_eq!(e.frontmatter.id, 3);
    assert_eq!(e.frontmatter.parent_id, Some(7));
    assert_eq!(e.frontmatter.created_at, dt("2026-03-01T09:30:00"));
    // Unreadable text reads as the epoch.
    assert_eq!(e.frontmatter.updated_at, dt("1970-01-01T00:00:00"));
    let task = e.frontmatter.task.clone().unwrap();
    assert_eq!(task.status, "open");
    assert_eq!(task.due, Some(dt("2026-03-04T00:00:00")));
    // An event needs both of its times.
    assert!(e.frontmatter.event.is_none());
    assert_eq!(e.body, "");
    assert_eq!(e.frontmatter.tags, vec!["t"]);
    let h = header_from_row_at(row(3), vec![], dt("2026-03-05T12:00:00"));
    assert_eq!(h.flags, vec![EntryFlag::Overdue, EntryFlag::Open]);
}
