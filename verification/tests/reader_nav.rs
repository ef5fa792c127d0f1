use paperview::reader_nav::{
    active_toc_block_index, block_line_start, max_scroll, offset_scroll, task_source_line_at_scroll,
    toc_index_for_block,
};
use paperview::render::{render_document_with_anchors, BlockLineStart};
use paperview::Document;

fn active_at(document: &Document, scroll: u16) -> Option<usize> {
    let rendered = render_document_with_anchors(document);
    let toc = document.parsed().toc();
    active_toc_block_index(&toc, &rendered.block_line_starts, scroll)
}

#[test]
fn scrolling_is_saturating() {
    let document = Document::from_source("# Title\n\nBody");
    let rendered = render_document_with_anchors(&document);
    let bottom_limit = max_scroll(rendered.lines.len());

    let scroll = offset_scroll(0, -1, bottom_limit);
    assert_eq!(scroll, 0);

    let bottom = bottom_limit;
    assert_eq!(offset_scroll(bottom, 1, bottom_limit), bottom);
}

#[test]
fn active_toc_tracks_scroll_position() {
    let document = Document::from_source("# First\n\nOne.\n\n## Second\n\nTwo.\n\n## Third\n\nThree.");
    let rendered = render_document_with_anchors(&document);
    let starts = &rendered.block_line_starts;

    assert_eq!(active_at(&document, 0), Some(0));

    let second = block_line_start(starts, 2) as u16;
    assert_eq!(active_at(&document, second), Some(2));

    let third = block_line_start(starts, 4) as u16;
    assert_eq!(active_at(&document, third), Some(4));
}

#[test]
fn active_toc_falls_back_to_first_heading() {
    let document = Document::from_source("# First\n\nBody.");

    assert_eq!(active_at(&document, 0), Some(0));
}

#[test]
fn active_toc_is_empty_without_headings() {
    let document = Document::from_source("Body only.");

    assert_eq!(active_at(&document, 0), None);
}

#[test]
fn active_toc_falls_back_to_first_heading_above_it() {
    let document = Document::from_source("Intro.\n\n# First\n\nBody.");

    assert_eq!(active_at(&document, 0), Some(1));
}

#[test]
fn block_line_start_is_past_the_end_for_unknown_blocks() {
    let starts = [
        BlockLineStart { block_index: 0, line: 0 },
        BlockLineStart { block_index: 1, line: 3 },
    ];

    assert_eq!(block_line_start(&starts, 1), 3);
    assert_eq!(block_line_start(&starts, 7), usize::MAX);
}

#[test]
fn toc_index_maps_heading_blocks_to_positions() {
    let document = Document::from_source("# First\n\nOne.\n\n## Second\n\nTwo.");
    let toc = document.parsed().toc();

    assert_eq!(toc_index_for_block(&toc, 0), Some(0));
    assert_eq!(toc_index_for_block(&toc, 2), Some(1));
    assert_eq!(toc_index_for_block(&toc, 1), None);
}

#[test]
fn max_scroll_is_the_last_line() {
    assert_eq!(max_scroll(0), 0);
    assert_eq!(max_scroll(1), 0);
    assert_eq!(max_scroll(12), 11);
}

#[test]
fn offset_scroll_clamps_both_ways() {
    assert_eq!(offset_scroll(5, 3, 20), 8);
    assert_eq!(offset_scroll(5, 30, 20), 20);
    assert_eq!(offset_scroll(5, -3, 20), 2);
    assert_eq!(offset_scroll(5, -30, 20), 0);
    assert_eq!(offset_scroll(u16::MAX - 1, 5, u16::MAX), u16::MAX);
}

#[test]
fn task_line_is_found_under_the_scroll_position() {
    let document = Document::from_source("# Tasks\n\n- [ ] one\n- [x] two\n- plain\n");
    let rendered = render_document_with_anchors(&document);
    let blocks = &document.parsed().blocks;
    let starts = &rendered.block_line_starts;
    let list_start = block_line_start(starts, 1);
    let count = rendered.lines.len();

    assert_eq!(task_source_line_at_scroll(blocks, starts, count, list_start as u16), Some(2));
    assert_eq!(task_source_line_at_scroll(blocks, starts, count, list_start as u16 + 1), Some(3));
    assert_eq!(task_source_line_at_scroll(blocks, starts, count, list_start as u16 + 2), None);
    assert_eq!(task_source_line_at_scroll(blocks, starts, count, 0), None);
}
