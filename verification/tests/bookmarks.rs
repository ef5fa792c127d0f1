use paperview::{Bookmark, BookmarkStore, Bookmarks, Document};

#[test]
fn creates_bookmark_from_file_backed_document() {
    let document = Document::from_source("# PaperView\n\nBody").with_path("docs/PRD.md");

    let bookmark = Bookmark::from_document(&document).expect("bookmark");

    assert_eq!(bookmark.path(), "docs/PRD.md");
    assert_eq!(bookmark.title(), "PaperView");
    assert!(Bookmark::from_document(&Document::from_source("# Memory")).is_none());
}

#[test]
fn adds_newest_bookmark_first_and_deduplicates_same_target() {
    let mut bookmarks = Bookmarks::new();
    let first = Bookmark::new("docs/PRD.md", "PRD").with_source_line(12);
    let replacement = Bookmark::new("docs/PRD.md", "Product").with_source_line(12);
    let second = Bookmark::new("README.md", "Readme");

    bookmarks.add(first);
    bookmarks.add(second.clone());
    bookmarks.add(replacement.clone());

    assert_eq!(bookmarks.entries(), &[replacement, second]);
}

#[test]
fn bookmarks_of_other_lines_or_anchors_are_kept() {
    let mut bookmarks = Bookmarks::new();
    bookmarks.add(Bookmark::new("a.md", "A").with_source_line(1));
    bookmarks.add(Bookmark::new("a.md", "A").with_source_line(2));
    bookmarks.add(Bookmark::new("a.md", "A").with_heading_anchor("intro"));
    bookmarks.add(Bookmark::new("a.md", "A again").with_heading_anchor("intro"));
    assert_eq!(bookmarks.entries().len(), 3);
    assert_eq!(bookmarks.entries()[0].title(), "A again");
    assert_eq!(bookmarks.entries()[0].heading_anchor(), Some("intro"));
}

#[test]
fn removes_bookmarks_by_index() {
    let mut bookmarks = Bookmarks::new();
    bookmarks.add(Bookmark::new("docs/PRD.md", "PRD"));

    assert_eq!(bookmarks.remove(0), Some(Bookmark::new("docs/PRD.md", "PRD")));
    assert_eq!(bookmarks.remove(0), None);
}

#[test]
fn prunes_missing_bookmark_paths() {
    let mut bookmarks = Bookmarks::new();
    bookmarks.add(Bookmark::new("/tmp/existing.md", "Existing"));
    bookmarks.add(Bookmark::new("/tmp/missing.md", "Missing"));

    assert_eq!(bookmarks.prune_missing(&[false, true]), 1);
    assert_eq!(bookmarks.entries().len(), 1);
    assert_eq!(bookmarks.entries()[0].path(), "/tmp/existing.md");
}

#[test]
fn bookmark_keeps_scroll_progress_bits() {
    let bookmark = Bookmark::new("a.md", "A").with_scroll_progress_bits(0.25f32.to_bits());
    assert_eq!(bookmark.scroll_progress_bits().map(f32::from_bits), Some(0.25));
    assert_eq!(bookmark.source_line(), None);
    assert!(Bookmarks::default().is_empty());
    assert_eq!(BookmarkStore::new("b.toml").path(), "b.toml");
}
