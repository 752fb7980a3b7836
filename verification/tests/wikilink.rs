use quick_capture::wikilink::{people_from_entries, stem_of, FolderEntry, FolderError, PersonEntry};

fn file(name: &str) -> FolderEntry {
    FolderEntry { name: Some(name.into()), is_dir: Some(false), path: Some(format!("/people/{name}")) }
}

fn names(rows: &[PersonEntry]) -> Vec<&str> {
    rows.iter().map(|r| r.name.as_str()).collect()
}

#[test]
fn read_people_dir_lists_only_md_files_sorted_case_insensitive() {
    let entries = vec![
        file("Zed.md"),
        file("ana beatriz.md"),
        file("ignore.txt"),
        file(".DS_Store"),
        FolderEntry { name: Some("subdir".into()), is_dir: Some(true), path: Some("/people/subdir".into()) },
    ];
    let rows = people_from_entries(&entries);
    assert_eq!(names(&rows), vec!["ana beatriz", "Zed"]);
}

#[test]
fn read_people_dir_accepts_uppercase_extension() {
    let rows = people_from_entries(&vec![file("Diego.MD")]);
    assert_eq!(rows.len(), 1);
    assert_eq!(rows[0].name, "Diego");
}

#[test]
fn read_people_dir_returns_empty_for_empty_dir() {
    assert!(people_from_entries(&vec![]).is_empty());
}

#[test]
fn read_people_dir_carries_full_absolute_path() {
    let rows = people_from_entries(&vec![file("Diego.md")]);
    assert_eq!(rows[0].path, "/people/Diego.md");
}

#[test]
fn hidden_md_files_and_unreadable_entries_are_skipped() {
    let entries = vec![
        file(".hidden.md"),
        FolderEntry { name: None, is_dir: Some(false), path: Some("/people/x.md".into()) },
        FolderEntry { name: Some("y.md".into()), is_dir: None, path: Some("/people/y.md".into()) },
        FolderEntry { name: Some("z.md".into()), is_dir: Some(false), path: None },
        file("ok.md"),
    ];
    assert_eq!(names(&people_from_entries(&entries)), vec!["ok"]);
}

#[test]
fn equal_lowercase_names_keep_listing_order() {
    let entries = vec![file("bob.md"), file("Bob.md"), file("alice.md"), file("BOB.md")];
    let rows = people_from_entries(&entries);
    assert_eq!(names(&rows), vec!["alice", "bob", "Bob", "BOB"]);
}

#[test]
fn stems_follow_the_last_dot() {
    assert_eq!(stem_of("a.b.md"), "a.b");
    assert_eq!(stem_of("notes"), "notes");
    assert_eq!(stem_of(".bashrc"), ".bashrc");
    assert_eq!(stem_of(".."), "..");
    assert_eq!(stem_of("x."), "x");
}

#[test]
fn folder_errors_have_stable_messages() {
    assert_eq!(FolderError::NotFound.to_message(), "folder does not exist");
    assert_eq!(FolderError::NotADirectory.to_message(), "path is not a directory");
    assert_eq!(FolderError::Io("boom".into()).to_message(), "io error: boom");
}
