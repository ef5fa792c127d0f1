use paperview::{Document, OpenDocuments};

#[test]
fn opens_and_activates_documents() {
    let first = Document::from_source("# First").with_path("first.md");
    let second = Document::from_source("# Second").with_path("second.md");
    let mut documents = OpenDocuments::from_document(first);

    let second_index = documents.open_or_activate(second);

    assert_eq!(second_index, 1);
    assert_eq!(documents.len(), 2);
    assert_eq!(documents.active().map(Document::title), Some("Second"));
}

#[test]
fn opening_existing_path_replaces_and_activates_tab() {
    let first = Document::from_source("# First").with_path("first.md");
    let stale = Document::from_source("# Stale").with_path("second.md");
    let fresh = Document::from_source("# Fresh").with_path("second.md");
    let mut documents = OpenDocuments::from_document(first);
    documents.open_or_activate(stale);
    documents.select(0);

    let index = documents.open_or_activate(fresh);

    assert_eq!(index, 1);
    assert_eq!(documents.len(), 2);
    assert_eq!(documents.active().map(Document::title), Some("Fresh"));
}

#[test]
fn closing_active_tab_selects_next_available_tab() {
    let first = Document::from_source("# First").with_path("first.md");
    let second = Document::from_source("# Second").with_path("second.md");
    let third = Document::from_source("# Third").with_path("third.md");
    let mut documents = OpenDocuments::from_document(first);
    documents.open_or_activate(second);
    documents.open_or_activate(third);
    documents.select(1);

    let removed = documents.close(1);

    assert_eq!(removed.as_ref().map(Document::title), Some("Second"));
    assert_eq!(documents.len(), 2);
    assert_eq!(documents.active_index(), Some(1));
    assert_eq!(documents.active().map(Document::title), Some("Third"));
}

#[test]
fn closing_tab_before_active_shifts_active_index() {
    let first = Document::from_source("# First").with_path("first.md");
    let second = Document::from_source("# Second").with_path("second.md");
    let third = Document::from_source("# Third").with_path("third.md");
    let mut documents = OpenDocuments::from_document(first);
    documents.open_or_activate(second);
    documents.open_or_activate(third);

    documents.close(0);

    assert_eq!(documents.active_index(), Some(1));
    assert_eq!(documents.active().map(Document::title), Some("Third"));
}

#[test]
fn closing_last_tab_clears_active_document() {
    let first = Document::from_source("# First").with_path("first.md");
    let mut documents = OpenDocuments::from_document(first);

    let removed = documents.close(0);

    assert_eq!(removed.as_ref().map(Document::title), Some("First"));
    assert!(documents.is_empty());
    assert_eq!(documents.active(), None);
}

#[test]
fn replacing_and_iterating_tabs() {
    let mut documents = OpenDocuments::new();
    documents.replace_active(Document::from_source("# One"));
    assert_eq!(documents.active_index(), Some(0));
    documents.open_or_activate(Document::from_source("# Two"));
    documents.open_or_activate(Document::from_source("# Three"));
    assert_eq!(documents.len(), 3);
    documents.replace_active(Document::from_source("# Replaced"));
    let titles: Vec<(usize, &str)> = documents.iter().into_iter().map(|(i, d)| (i, d.title())).collect();
    assert_eq!(titles, vec![(0, "One"), (1, "Two"), (2, "Replaced")]);
    assert_eq!(documents.close(7), None);
    documents.select(9);
    assert_eq!(documents.active_index(), Some(2));
}
