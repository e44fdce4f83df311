use sapphire_journal::registry::{
    clone_request, data_dir, delete_confirmed, journals_dir, new_journal_request, registry_path, xdg_data_home,
    JournalRegistry, RegistryEntry,
};

fn entry(id: u128, name: &str) -> RegistryEntry {
    RegistryEntry { id, name: name.to_string(), storage_path: format!("/data/journals/{id}") }
}

fn ids(r: &JournalRegistry) -> Vec<u128> {
    r.journals.iter().map(|e| e.id).collect()
}

#[test]
fn registry_add_ignores_a_known_identifier() {
    let mut r = JournalRegistry::default();
    r.add(entry(7, "work"));
    r.add(entry(9, "home"));
    r.add(entry(7, "again"));
    assert_eq!(ids(&r), vec![7, 9]);
    assert_eq!(r.journals[0].name, "work");
    assert!(r.contains_id(9));
    assert!(!r.contains_id(8));
}

#[test]
fn registry_remove_keeps_the_others_in_order() {
    let mut r = JournalRegistry::default();
    for (id, name) in [(1, "a"), (2, "b"), (3, "c")] {
        r.add(entry(id, name));
    }
    r.remove_by_id(2);
    assert_eq!(ids(&r), vec![1, 3]);
    r.remove_by_id(42);
    assert_eq!(ids(&r), vec![1, 3]);
    r.remove_by_id(1);
    r.remove_by_id(3);
    assert!(r.journals.is_empty());
}

#[test]
fn registry_add_then_remove_restores() {
    let mut r = JournalRegistry::default();
    r.add(entry(u128::MAX, "max"));
    r.add(entry(0x1234_5678_9abc_def0_1234_5678_9abc_def0, "uuid"));
    let before = ids(&r);
    r.add(entry(5, "new"));
    r.remove_by_id(5);
    assert_eq!(ids(&r), before);
}

#[test]
fn data_home_resolution() {
    assert_eq!(xdg_data_home(Some("/x/data".into()), Some("/home/u".into()), "/tmp".into()), "/x/data");
    assert_eq!(xdg_data_home(Some(String::new()), Some("/home/u".into()), "/tmp".into()), "/home/u/.local/share");
    assert_eq!(xdg_data_home(None, Some("/home/u/".into()), "/tmp".into()), "/home/u/.local/share");
    assert_eq!(xdg_data_home(None, None, "/tmp".into()), "/tmp");
}

#[test]
fn registry_locations() {
    assert_eq!(data_dir("/home/u/.local/share"), "/home/u/.local/share/sapphire-journal");
    assert_eq!(journals_dir("/d"), "/d/sapphire-journal/journals");
    assert_eq!(registry_path("/d/"), "/d/sapphire-journal/journals.toml");
}

#[test]
fn clone_dialog_submits_trimmed_fields() {
    assert_eq!(
        clone_request("  Work Journal ", " https://example.com/j.git\n", false),
        Some(("Work Journal".to_string(), "https://example.com/j.git".to_string()))
    );
    assert_eq!(clone_request("Work", "   ", false), None);
    assert_eq!(clone_request("", "https://example.com/j.git", false), None);
    assert_eq!(clone_request("Work", "https://example.com/j.git", true), None);
}

#[test]
fn new_journal_dialog_submits_a_trimmed_name() {
    assert_eq!(new_journal_request("\tNotes  ", false), Some("Notes".to_string()));
    assert_eq!(new_journal_request("  ", false), None);
    assert_eq!(new_journal_request("Notes", true), None);
}

#[test]
fn delete_dialog_needs_the_exact_name() {
    assert!(delete_confirmed(" Work Journal ", "Work Journal", false));
    assert!(!delete_confirmed("work journal", "Work Journal", false));
    assert!(!delete_confirmed("Work Journal", "Work Journal", true));
}
