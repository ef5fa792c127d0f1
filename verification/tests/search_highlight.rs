use paperview::search_highlight::{
    block_matches_active_search_line, block_plain_text, highlight_segments, normalized_search_query, render_search,
    searchable_text, HighlightSegment, RenderSearch, SearchHighlight,
};
use paperview::Document;

fn segment(text: &str, highlight: SearchHighlight) -> HighlightSegment {
    HighlightSegment { text: text.to_owned(), highlight }
}

#[test]
fn splits_text_into_search_highlight_segments() {
    assert_eq!(
        highlight_segments(
            "PaperView paper reader",
            Some(&RenderSearch { query: "paper".to_owned(), active: false })
        ),
        vec![
            segment("Paper", SearchHighlight::Match),
            segment("View ", SearchHighlight::Plain),
            segment("paper", SearchHighlight::Match),
            segment(" reader", SearchHighlight::Plain),
        ]
    );
}

#[test]
fn marks_active_search_highlight_segments() {
    assert_eq!(
        highlight_segments(
            "PaperView paper reader",
            Some(&RenderSearch { query: "paper".to_owned(), active: true })
        ),
        vec![
            segment("Paper", SearchHighlight::Active),
            segment("View ", SearchHighlight::Plain),
            segment("paper", SearchHighlight::Active),
            segment(" reader", SearchHighlight::Plain),
        ]
    );
}

#[test]
fn ignores_empty_search_highlight_queries() {
    assert_eq!(highlight_segments("PaperView", None), vec![segment("PaperView", SearchHighlight::Plain)]);
    assert_eq!(
        highlight_segments("", Some(&RenderSearch { query: "x".to_owned(), active: false })),
        vec![segment("", SearchHighlight::Plain)]
    );
    assert_eq!(normalized_search_query(Some("  ")), None);
    assert_eq!(normalized_search_query(Some(" needle ")), Some("needle".to_owned()));
    assert_eq!(normalized_search_query(None), None);
}

#[test]
fn matches_active_search_line_to_rendered_block_text() {
    let document = Document::from_source("# Title\n\nA **needle** here.\n\nAnother needle.");
    let blocks = &document.parsed().blocks;

    assert!(block_matches_active_search_line(&blocks[1], "A **needle** here.", "needle"));
    assert!(!block_matches_active_search_line(&blocks[2], "A **needle** here.", "needle"));
}

#[test]
fn reduces_text_for_matching() {
    assert_eq!(searchable_text("  A **Needle**, here! "), "a needle here");
    let document = Document::from_source("- one\n- two\n\n| A | B |\n| - | - |\n| c | d |\n\n![Alt](img.png \"T\")");
    let blocks = &document.parsed().blocks;
    assert_eq!(block_plain_text(&blocks[0]), "one two");
    assert_eq!(block_plain_text(&blocks[1]), "A B c d");
    assert_eq!(block_plain_text(&blocks[2]), "Alt img.png T");
}

#[test]
fn render_search_marks_the_selected_block() {
    let document = Document::from_source("Alpha needle.\n\nBeta.");
    let blocks = &document.parsed().blocks;
    assert_eq!(render_search(&blocks[0], Some("  "), Some("Alpha needle.")), None);
    assert_eq!(
        render_search(&blocks[0], Some(" needle "), Some("Alpha needle.")),
        Some(RenderSearch { query: "needle".to_owned(), active: true })
    );
    assert_eq!(
        render_search(&blocks[1], Some("needle"), Some("Alpha needle.")),
        Some(RenderSearch { query: "needle".to_owned(), active: false })
    );
    assert_eq!(
        render_search(&blocks[0], Some("needle"), None),
        Some(RenderSearch { query: "needle".to_owned(), active: false })
    );
}
