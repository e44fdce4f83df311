use sapphire_journal::entry_ref::EntryRef;

#[test]
fn parse_at_seven_byte_non_ascii_falls_through_to_title_instead_of_panicking() {
    let entry = EntryRef::parse("@日本1");
    assert!(
        matches!(entry, EntryRef::Title(ref t) if t == "@日本1"),
        "expected the documented fall-through to Title for an invalid id after `@`, got {entry:?}"
    );
}

#[test]
fn entry_refs_classify_ids_paths_and_titles() {
    // "abc1234" reads as a base-32 identifier.
    match EntryRef::parse("@abc1234") {
        EntryRef::Id(v) => assert_eq!(v, ((((((10u64 * 32 + 11) * 32 + 12) * 32 + 1) * 32 + 2) * 32 + 3) * 32 + 4)),
        other => panic!("expected an id, got {other:?}"),
    }
    assert!(matches!(EntryRef::parse("@nope"), EntryRef::Title(ref t) if t == "@nope"));
    assert!(matches!(EntryRef::parse("notes/a.md"), EntryRef::Path(_)));
    assert!(matches!(EntryRef::parse("a\\b"), EntryRef::Path(_)));
    assert!(matches!(EntryRef::parse("./x"), EntryRef::Path(_)));
    assert!(matches!(EntryRef::parse("~/x"), EntryRef::Path(_)));
    assert!(matches!(EntryRef::parse("x.md"), EntryRef::Path(_)));
    assert!(matches!(EntryRef::parse("Meeting notes"), EntryRef::Title(ref t) if t == "Meeting notes"));
}

#[test]
fn identifier_text_reads_back() {
    use_id_text(0);
    use_id_text(33);
    use_id_text(34_359_738_367);
}

fn use_id_text(v: u64) {
    let text = sapphire_journal::journal::entry_filename(v, "");
    let id = text.trim_end_matches(".md");
    assert_eq!(id.len(), 7);
    match EntryRef::parse(&format!("@{id}")) {
        EntryRef::Id(back) => assert_eq!(back, v),
        other => panic!("expected an id, got {other:?}"),
    }
}
