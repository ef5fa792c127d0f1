use paperview::render::{
    render_document, render_document_lines, render_document_with_anchors, render_toc_lines, render_toc_marked_lines,
    TocMark,
};
use paperview::Document;

#[test]
fn renders_basic_markdown_blocks() {
    let document = Document::from_source("# PaperView\n\n- Fast\n- Native\n\n---");

    assert_eq!(
        render_document(&document),
        "# PaperView\n\n- Fast\n- Native\n\n---\n\nOn this page\n------------\n- PaperView\n"
    );
}

#[test]
fn renders_nested_toc_entries() {
    let document = Document::from_source("# PaperView\n\n## Reader\n\n### Navigation");

    assert!(
        render_document(&document).contains(
            "On this page\n------------\n- PaperView\n  - Reader\n    - Navigation\n"
        )
    );
}

#[test]
fn renders_latex_math_blocks() {
    let document = Document::from_source("Before $x$.\n\n$$\nE = mc^2\n$$");

    assert!(render_document(&document).contains("Before $x$.\n\n$$\nE = mc^2\n$$\n"));
}

#[test]
fn renders_mermaid_diagram_blocks() {
    let document = Document::from_source("```mermaid\ngraph TD\n  A-->B\n```");

    assert!(render_document(&document).contains("```mermaid\ngraph TD\n  A-->B\n```\n"));
}

#[test]
fn renders_markdown_tables() {
    let document = Document::from_source(
        "| Feature | Status |\n| :--- | ---: |\n| GUI | Done |\n| TUI | In progress |",
    );

    let rendered = render_document(&document);

    assert!(rendered.contains("| Feature |"));
    assert!(rendered.contains("Status |"));
    assert!(rendered.contains("| :------ |"));
    assert!(rendered.contains("----------: |"));
    assert!(rendered.contains("| GUI"));
    assert!(rendered.contains("Done |"));
    assert!(rendered.contains("| TUI"));
    assert!(rendered.contains("In progress |"));
}

#[test]
fn renders_table_cell_inline_markdown() {
    let document = Document::from_source(
        "| Feature | Link |\n| --- | --- |\n| **GUI** | [docs](docs/gui.md) |",
    );
    let rendered = render_document(&document);

    assert!(rendered.contains("**GUI**"));
    assert!(rendered.contains("[docs](docs/gui.md)"));
}

#[test]
fn renders_markdown_images() {
    let document = Document::from_source("![Architecture](docs/arch.png \"System diagram\")");

    assert!(
        render_document(&document)
            .contains("![Architecture](docs/arch.png \"System diagram\")\n")
    );
}

#[test]
fn renders_paragraph_inline_markdown() {
    let document = Document::from_source(
        "A **bold** and *quiet* [link](https://example.com) with `code`.",
    );

    assert!(
        render_document(&document)
            .contains("A **bold** and *quiet* [link](https://example.com) with `code`.\n")
    );
}

#[test]
fn renders_heading_inline_markdown() {
    let document = Document::from_source("# **PaperView** [docs](docs/index.md) `reader`");
    let rendered = render_document(&document);

    assert!(rendered.contains("# **PaperView** [docs](docs/index.md) `reader`\n"));
    assert!(rendered.contains("- PaperView docs reader\n"));
}

#[test]
fn renders_list_and_blockquote_inline_markdown() {
    let document = Document::from_source(
        "> A **quiet** [quote](https://example.com)\n\n- *Fast* `reader`\n- Plain",
    );
    let rendered = render_document(&document);

    assert!(rendered.contains("> A **quiet** [quote](https://example.com)\n"));
    assert!(rendered.contains("- *Fast* `reader`\n"));
    assert!(rendered.contains("- Plain\n"));
}

#[test]
fn renders_task_list_markdown() {
    let document = Document::from_source("- [x] Done\n- [ ] Todo");
    let rendered = render_document(&document);

    assert!(rendered.contains("- [x] Done\n"));
    assert!(rendered.contains("- [ ] Todo\n"));
}

#[test]
fn records_block_line_starts() {
    let document = Document::from_source("# PaperView\n\nBody.\n\n## Reader");
    let rendered = render_document_with_anchors(&document);

    assert_eq!(rendered.block_line_starts[0].block_index, 0);
    assert_eq!(rendered.block_line_starts[0].line, 0);
    assert_eq!(rendered.block_line_starts[2].block_index, 2);
    assert!(rendered.block_line_starts[2].line > rendered.block_line_starts[0].line);
}

#[test]
fn block_line_starts_count_rendered_lines() {
    let document = Document::from_source("1. One\n2. [ ] Two\n\n```\ncode\n```\n\n---");
    let rendered = render_document_with_anchors(&document);
    assert_eq!(
        render_document_lines(&document),
        vec!["1. One", "2. [ ] Two", "", "```", "code", "```", "", "---", ""]
    );
    let starts: Vec<usize> = rendered.block_line_starts.iter().map(|s| s.line).collect();
    assert_eq!(starts, vec![0, 3, 7]);
    assert_eq!(render_toc_lines(&[]), vec!["On this page", "------------", "No headings"]);
}

#[test]
fn highlights_active_toc_item() {
    let document = Document::from_source("# PaperView\n\n## Reader");
    let lines = render_toc_marked_lines(&document.parsed().toc(), Some(1), None, false);

    assert!(lines.iter().any(|(line, _)| line.contains("> Reader")));
}

#[test]
fn marks_selected_toc_item_when_focused() {
    let document = Document::from_source("# PaperView\n\n## Reader");
    let lines = render_toc_marked_lines(&document.parsed().toc(), Some(0), Some(1), true);

    assert!(lines.iter().any(|(line, _)| line.contains("+ Reader")));
}

#[test]
fn marked_toc_lines_show_every_mark() {
    let document = Document::from_source("# One\n\n## Two\n\n## Three");
    let toc = document.parsed().toc();
    let lines = render_toc_marked_lines(&toc, Some(0), Some(0), true);
    assert_eq!(lines[0], ("* One".to_owned(), TocMark::PickedActive));
    assert_eq!(lines[1], ("  - Two".to_owned(), TocMark::Plain));
    let unfocused = render_toc_marked_lines(&toc, Some(2), Some(1), false);
    assert_eq!(unfocused[1], ("  - Two".to_owned(), TocMark::Plain));
    assert_eq!(unfocused[2], ("  > Three".to_owned(), TocMark::Active));
    let empty = render_toc_marked_lines(&[], None, None, true);
    assert_eq!(empty, vec![("No headings".to_owned(), TocMark::Plain)]);
}

#[test]
fn block_line_starts_increase_within_the_lines() {
    let document = Document::from_source("# Title\n\nOne\ntwo\n\n- a\n- b\n\n```\ncode\n```");
    let rendered = render_document_with_anchors(&document);
    let starts = &rendered.block_line_starts;
    assert_eq!(starts[0].line, 0);
    for pair in starts.windows(2) {
        assert!(pair[0].line < pair[1].line);
    }
    assert!(starts.iter().all(|s| s.line < rendered.lines.len()));
}
