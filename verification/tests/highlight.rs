use paperview::highlight::{markdown_highlights, MarkdownHighlight, MarkdownHighlighter};

#[test]
fn highlights_block_markers() {
    let highlights = markdown_highlights("## Heading");

    assert_eq!(highlights[0].0, 0..2);
    assert_eq!(highlights[0].1, MarkdownHighlight::HeadingMarker);

    let highlights = markdown_highlights("- Item");
    assert_eq!(highlights[0].1, MarkdownHighlight::ListMarker);

    let highlights = markdown_highlights("> Quote");
    assert_eq!(highlights[0].1, MarkdownHighlight::QuoteMarker);
}

#[test]
fn highlights_inline_ranges() {
    let highlights = markdown_highlights("A **bold** [link](docs.md) and `code`");

    assert!(highlights.iter().any(|(_, highlight)| *highlight == MarkdownHighlight::Emphasis));
    assert!(highlights.iter().any(|(_, highlight)| *highlight == MarkdownHighlight::Link));
    assert!(highlights.iter().any(|(_, highlight)| *highlight == MarkdownHighlight::Code));
}

#[test]
fn code_fences_cover_the_rest_of_the_line() {
    assert_eq!(markdown_highlights("  ```rust"), vec![(2..9, MarkdownHighlight::Code)]);
    assert_eq!(markdown_highlights("~~~"), vec![(0..3, MarkdownHighlight::Code)]);
}

#[test]
fn highlights_ordered_list_markers_and_links() {
    assert_eq!(
        markdown_highlights("12. see [a](b)"),
        vec![(0..3, MarkdownHighlight::ListMarker), (8..14, MarkdownHighlight::Link)]
    );
    assert_eq!(markdown_highlights("####### too deep"), vec![]);
}

#[test]
fn highlight_ranges_are_byte_offsets() {
    assert_eq!(
        markdown_highlights("\u{e9} **b**"),
        vec![
            (3..5, MarkdownHighlight::Emphasis),
            (3..4, MarkdownHighlight::Emphasis),
            (6..7, MarkdownHighlight::Emphasis),
        ]
    );
}

#[test]
fn highlighter_counts_lines() {
    let mut highlighter = MarkdownHighlighter::new();
    assert_eq!(highlighter.current_line(), 0);
    let highlights = highlighter.highlight_line("`x`");
    assert_eq!(highlights, vec![(0..1, MarkdownHighlight::Code)]);
    assert_eq!(highlighter.current_line(), 1);
    highlighter.change_line(usize::MAX);
    highlighter.highlight_line("");
    assert_eq!(highlighter.current_line(), usize::MAX);
}
