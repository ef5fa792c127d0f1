use paperview::summary::render_document_summary;
use paperview::Document;

#[test]
fn renders_loaded_document_summary() {
    let document = Document::from_source("# PaperView\n\nFast reader.");

    let summary = render_document_summary(&document);

    assert!(summary.contains("PaperView GUI preview: PaperView"));
    assert!(summary.contains("Blocks: 2"));
    assert!(summary.contains("- H1 PaperView"));
}

#[test]
fn summary_lists_at_most_five_blocks() {
    let document = Document::from_source(
        "## Intro\n\n> Note\n\n```rust\nfn main() {}\n```\n\n1. one\n2. two\n\n---\n\nSixth.",
    )
    .with_path("docs/notes.md");
    let summary = render_document_summary(&document);

    assert_eq!(
        summary,
        "PaperView GUI preview: Untitled\nPath: docs/notes.md\nBlocks: 6\n- H2 Intro\n- Quote: Note\n- Code (rust, 13 bytes)\n- Ordered list (2 items)\n- Rule"
    );
}

#[test]
fn summary_of_a_document_in_memory() {
    let summary = render_document_summary(&Document::from_source("Plain."));
    assert_eq!(summary, "PaperView GUI preview: Untitled\nPath: <memory>\nBlocks: 1\n- Paragraph: Plain.");
}
