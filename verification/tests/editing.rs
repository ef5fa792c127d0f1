use paperview::editing::{DiscardGuard, LeaveOutcome};
use paperview::{Document, EditSession, EditSessionError};

#[test]
fn starts_clean_from_document_source() {
    let document = Document::from_source("# Draft\n\nBody");
    let session = EditSession::from_document(&document);

    assert_eq!(session.buffer(), "# Draft\n\nBody");
    assert!(!session.is_dirty());
}

#[test]
fn tracks_dirty_buffer_changes() {
    let document = Document::from_source("# Draft\n\nBody");
    let mut session = EditSession::from_document(&document);

    session.replace_buffer("# Draft\n\nUpdated");

    assert!(session.is_dirty());
}

#[test]
fn builds_preview_document_from_buffer() {
    let document = Document::from_source("# Draft\n\nBody");
    let mut session = EditSession::from_document(&document);

    session.replace_buffer("# Preview\n\nUpdated");
    let preview = session.preview_document();

    assert_eq!(preview.title(), "Preview");
    assert_eq!(preview.source(), "# Preview\n\nUpdated");
}

#[test]
fn rejects_save_without_path() {
    let document = Document::from_source("# Draft\n\nBody");
    let mut session = EditSession::from_document(&document);

    session.replace_buffer("# Saved\n\nUpdated");

    assert!(matches!(session.save_target(), Err(EditSessionError::MissingPath)));
}

#[test]
fn marking_saved_clears_dirty_state() {
    let document = Document::from_source("# Draft\n\nBody").with_path("draft.md");
    let mut session = EditSession::from_document(&document);
    session.replace_buffer("# Saved\n\nUpdated");
    assert_eq!(session.save_target(), Ok("draft.md".to_owned()));

    let saved = session.mark_saved();

    assert_eq!(saved.title(), "Saved");
    assert_eq!(saved.path().map(|p| p.as_str()), Some("draft.md"));
    assert!(!session.is_dirty());
    assert_eq!(
        EditSessionError::WriteFailed { path: "draft.md".to_owned(), message: "denied".to_owned() }.message(),
        "failed to write draft.md: denied"
    );
}

#[test]
fn dirty_edits_need_a_second_request_to_leave() {
    let mut guard = DiscardGuard::new();
    assert_eq!(guard.request_leave(true), LeaveOutcome::Warned);
    assert!(!LeaveOutcome::Warned.left());
    assert_eq!(guard.request_leave(true), LeaveOutcome::Discarded);
    assert!(LeaveOutcome::Discarded.left());

    assert_eq!(guard.request_leave(true), LeaveOutcome::Warned);
    guard.reset();
    assert_eq!(guard.request_leave(true), LeaveOutcome::Warned);
    assert_eq!(guard.request_leave(false), LeaveOutcome::Closed);
    assert_eq!(LeaveOutcome::Closed.message(), "Editing Mode closed");
    assert_eq!(LeaveOutcome::Warned.message(), "Unsaved edits. Press Esc again to discard or Ctrl+S to save.");
}
