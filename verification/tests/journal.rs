use sapphire_journal::journal::{
    entry_filename, is_markdown_name, is_year_dir_name, join_path, new_entry_path_at, parent_path,
    search_dirs, slugify, Journal,
};

#[test]
fn slugify_basic() {
    assert_eq!(slugify("My Example Entry"), "my_example_entry");
}

#[test]
fn slugify_preserves_hyphens() {
    assert_eq!(slugify("2026-03-17"), "2026-03-17");
}

#[test]
fn slugify_preserves_japanese() {
    assert_eq!(slugify("日本語タイトル"), "日本語タイトル");
}

#[test]
fn slugify_japanese_with_spaces() {
    assert_eq!(slugify("今日の メモ"), "今日の_メモ");
}

#[test]
fn slugify_replaces_special_chars() {
    assert_eq!(slugify("Hello, World! (2026)"), "hello_world_2026");
    assert_eq!(slugify("a/b:c*d"), "a_b_c_d");
}

#[test]
fn slugify_trims_underscores() {
    assert_eq!(slugify("  leading"), "leading");
}

#[test]
fn slugify_doc_example_and_idempotence() {
    assert_eq!(slugify("My Example Entry!"), "my_example_entry");
    for t in ["My Example Entry!", "__a__b__", "今日の　メモ", "x.y-z", ""] {
        let once = slugify(t);
        assert_eq!(slugify(&once), once);
    }
    // U+3000 is white space.
    assert_eq!(slugify("今日の　メモ"), "今日の_メモ");
}

#[test]
fn filenames_of_entries() {
    // 1 is written "0000001".
    assert_eq!(entry_filename(1, "My Note"), "0000001_my_note.md");
    assert_eq!(entry_filename(0, "!!!"), "0000000.md");
    assert_eq!(entry_filename(32, ""), "0000010.md");
    let (path, id) = new_entry_path_at("Hello", 2026, 33);
    assert_eq!(id, 33);
    assert_eq!(path, "2026/0000011_hello.md");
}

#[test]
fn paths_and_directories() {
    assert_eq!(join_path("/j", "x"), "/j/x");
    assert_eq!(join_path("/j/", "x"), "/j/x");
    assert_eq!(join_path("", "x"), "x");
    assert_eq!(parent_path("/a/b").as_deref(), Some("/a"));
    assert_eq!(parent_path("/a").as_deref(), Some("/"));
    assert_eq!(parent_path("/"), None);
    assert_eq!(parent_path("a").as_deref(), Some(""));
    assert_eq!(parent_path(""), None);
    assert_eq!(search_dirs("/home/u/j"), vec!["/home/u/j", "/home/u", "/home", "/"]);
    let j = Journal { root: "/home/u/j".to_owned() };
    assert_eq!(j.journal_dir(), "/home/u/j/.sapphire-journal");
    assert_eq!(j.cache_dir("/home/u/.cache", "abc"), "/home/u/.cache/sapphire-journal/abc");
    assert!(is_year_dir_name("2026"));
    assert!(!is_year_dir_name(".2026"));
    assert!(!is_year_dir_name("notes"));
    assert!(is_markdown_name("a.md"));
    assert!(!is_markdown_name(".md"));
    assert!(!is_markdown_name("a.txt"));
}

#[test]
fn journal_lookup() {
    let dirs = search_dirs("/home/u/j");
    let marked = vec![false, true, false, false];
    let j = Journal::find_from(&dirs, &marked).unwrap();
    assert_eq!(j.root, "/home/u");
    assert!(Journal::find_from(&dirs, &vec![false; 4]).is_err());
    assert!(Journal::from_root("/x".to_owned(), false).is_err());
    assert_eq!(Journal::from_root("/x".to_owned(), true).unwrap().root, "/x");
}

#[test]
fn identifier_text_reads_and_writes() {
    assert_eq!(sapphire_journal::id::read_id_text("0000010"), Some(32));
    assert_eq!(sapphire_journal::id::read_id_text("000001"), None);
    assert_eq!(sapphire_journal::id::read_id_text("00000日0"), None);
    assert_eq!(sapphire_journal::id::write_id_text(32), "0000010");
    assert!(sapphire_journal::id::new_id() < sapphire_journal::id::ID_LIMIT);
}

#[test]
fn iso_weeks_outside_the_calendar_are_errors() {
    assert_eq!(
        sapphire_journal::period::parse_iso_week("-2147483648-W01"),
        Some(Err("`-2147483648-W01` does not correspond to a valid ISO week".to_string()))
    );
    assert_eq!(
        sapphire_journal::period::parse_iso_week("2147483647-W52"),
        Some(Err("`2147483647-W52` does not correspond to a valid ISO week".to_string()))
    );
}

#[test]
fn collects_entry_files_in_path_order() {
    let journal = sapphire_journal::journal::Journal { root: "/j".to_string() };
    let config = sapphire_journal::journal::JournalConfig::default();
    let s = |v: &[&str]| v.iter().map(|x| x.to_string()).collect::<Vec<String>>();
    let root_names = s(&["notes.md", "2026", "2026.md", "readme.txt", "10", ".md", "2025"]);
    let dirs = vec![
        ("2026".to_string(), s(&["b.md", "a.md", "c.txt"])),
        ("drafts".to_string(), s(&["x.md"])),
        ("10".to_string(), s(&["z.md"])),
        ("2025".to_string(), s(&["y.md"])),
    ];
    let paths: Vec<String> =
        journal.collect_entries(&config, &root_names, &dirs).into_iter().map(|f| f.path).collect();
    assert_eq!(
        paths,
        s(&["/j/10/z.md", "/j/2025/y.md", "/j/2026/a.md", "/j/2026/b.md", "/j/2026.md", "/j/notes.md"])
    );
}
