use paperview::document::DocumentError;
use paperview::gui::Status;
use paperview::window::ReaderWindow;
use paperview::{Document, History, SplitResize};

fn window() -> ReaderWindow {
    ReaderWindow::new_empty(false, 50, Status::Empty, History::new())
}

fn doc(source: &str, path: &str) -> Document {
    Document::from_source(source).with_path(path)
}

#[test]
fn opening_documents_adds_active_tabs_and_history() {
    let mut w = window();
    w.open_document(doc("# First\n\nNeedle", "first.md"));
    w.open_document(doc("# Second", "second.md"));

    assert_eq!(w.documents.len(), 2);
    assert_eq!(w.documents.active_index(), Some(1));
    assert_eq!(w.status, Status::Loaded("second.md".to_owned()));
    assert_eq!(w.history.entries().len(), 2);
    assert_eq!(w.active_toc_block, Some(0));

    w.select_tab(0);
    assert_eq!(w.status, Status::Loaded("first.md".to_owned()));

    w.close_tab(0);
    assert_eq!(w.documents.len(), 1);
    assert_eq!(w.status, Status::Loaded("second.md".to_owned()));
    w.close_tab(0);
    assert_eq!(w.status, Status::Empty);
    assert_eq!(w.active_toc_block, None);
}

#[test]
fn open_failure_reports_error() {
    let mut w = window();
    w.open_failed(&DocumentError::UnsupportedFileType { path: "a.pdf".to_owned() });
    assert_eq!(w.status, Status::Error("unsupported document type: a.pdf".to_owned()));
}

#[test]
fn split_needs_second_tab_and_resizes() {
    let mut w = window();
    w.open_document(doc("# First", "first.md"));
    w.toggle_split();
    assert_eq!(w.split.secondary_index(), None);
    assert!(!w.resize_split(SplitResize::GrowPrimary));

    w.open_document(doc("# Second", "second.md"));
    w.toggle_split();
    assert_eq!(w.split.secondary_index(), Some(0));
    assert!(w.resize_split(SplitResize::GrowPrimary));
    assert_eq!(w.split.widths(), (60, 40));
    w.select_split_tab(1);
    assert_eq!(w.split.secondary_index(), Some(0));
}

#[test]
fn edit_and_presentation_toggle() {
    let mut w = window();
    w.toggle_edit();
    assert_eq!(w.status, Status::Error("open a document before editing".to_owned()));
    w.toggle_presentation();
    assert_eq!(w.status, Status::Error("open a document before presenting".to_owned()));

    w.open_document(doc("# One\n\n---\n\n# Two\n\n---\n\n# Three", "deck.md"));
    w.toggle_edit();
    assert!(w.edit.is_some());
    w.toggle_presentation();
    assert!(w.edit.is_none());
    assert_eq!(w.slide_index, 0);
    w.next_slide();
    w.next_slide();
    w.next_slide();
    assert_eq!(w.slide_index, 2);
    w.previous_slide();
    assert_eq!(w.slide_index, 1);
    w.first_slide();
    assert_eq!(w.slide_index, 0);
    w.last_slide();
    assert_eq!(w.slide_index, 2);
    w.exit_presentation();
    assert!(w.deck.is_none());
    assert_eq!(w.status, Status::Loaded("deck.md".to_owned()));
}

#[test]
fn hover_tex_search_and_anchors() {
    let mut w = window();
    w.open_document(doc("# Intro\n\nNeedle one.\n\nNeedle two.", "a.md"));
    w.hover("b.md");
    assert_eq!(w.status, Status::Hovering("b.md".to_owned()));
    w.hover_left();
    assert_eq!(w.status, Status::Loaded("a.md".to_owned()));

    w.finish_tex_compile("p.tex".to_owned(), Err("boom".to_owned()));
    assert_eq!(w.status, Status::Error("boom".to_owned()));

    w.update_search_query("needle".to_owned());
    assert_eq!(w.search_matches.len(), 2);
    assert_eq!(w.search_selected, Some(0));
    w.select_next_search_match();
    w.select_next_search_match();
    assert_eq!(w.search_selected, Some(0));
    w.select_previous_search_match();
    assert_eq!(w.search_selected, Some(1));

    w.open_anchor("intro");
    assert_eq!(w.active_toc_block, Some(0));
    w.open_anchor("missing");
    assert_eq!(w.status, Status::Error("heading anchor not found: #missing".to_owned()));
    w.toggle_zen();
    assert!(w.zen.is_enabled());
}
