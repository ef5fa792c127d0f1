use paperview::{Document, FileEntry, History, HistoryStore};

#[test]
fn records_newest_entry_first() {
    let mut history = History::new();

    history.record(FileEntry::new("first.md", "First"));
    history.record(FileEntry::new("second.md", "Second"));

    assert_eq!(history.entries()[0].title(), "Second");
    assert_eq!(history.entries()[1].title(), "First");
}

#[test]
fn deduplicates_entries_by_path() {
    let mut history = History::new();

    history.record(FileEntry::new("notes.md", "Old"));
    history.record(FileEntry::new("notes.md", "New"));

    assert_eq!(history.entries().len(), 1);
    assert_eq!(history.entries()[0].title(), "New");
}

#[test]
fn equal_paths_by_component_are_one_entry() {
    let mut history = History::new();
    history.record(FileEntry::new("docs/notes.md", "Old"));
    history.record(FileEntry::new("b.md", "B"));
    history.record(FileEntry::new("docs//notes.md", "New"));

    assert_eq!(history.entries().len(), 2);
    assert_eq!(history.entries()[0].path(), "docs//notes.md");
    assert_eq!(history.entries()[1].title(), "B");
}

#[test]
fn records_only_file_backed_documents() {
    let mut history = History::new();
    history.record_document(&Document::from_source("# Scratch"));
    assert!(history.is_empty());
    history.record_document(&Document::from_source("# Notes").with_path("notes.md"));
    assert_eq!(history.entries()[0].title(), "Notes");
    assert_eq!(HistoryStore::new("h.toml").path(), "h.toml");
}

#[test]
fn recording_keeps_one_entry_per_path() {
    let mut history = History::new();
    history.record(FileEntry::new("a.md", "A"));
    history.record(FileEntry::new("b.md", "B"));
    history.record(FileEntry::new("a.md", "A last"));
    let paths: Vec<&str> = history.entries().iter().map(|e| e.path()).collect();
    assert_eq!(paths, vec!["a.md", "b.md"]);
}
