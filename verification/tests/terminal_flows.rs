use paperview::editing::{DiscardGuard, LeaveOutcome};
use paperview::gui::{last_slide, next_slide, previous_slide, window_layout, ReaderBody};
use paperview::reader_nav::{max_scroll, offset_scroll};
use paperview::render::{render_document_lines, render_document_with_anchors};
use paperview::selection::{select_next_bounded, select_previous_bounded};
use paperview::terminal::{
    line_state, opened_at_line_status, source_line_scroll, split_resize_status, SearchLineState,
};
use paperview::terminal_keys::{terminal_command, KeyTarget, TerminalCommand, TerminalKey};
use paperview::terminal::ReaderFocus;
use paperview::{presentation_deck, Document, OpenDocuments, SplitResize, SplitViewState, ZenModeState};

fn documents(sources: &[(&str, &str)]) -> OpenDocuments {
    let mut documents = OpenDocuments::new();
    for (source, path) in sources {
        documents.open_or_activate(Document::from_source(*source).with_path(*path));
    }
    documents.select(0);
    documents
}

fn split_lines(docs: &OpenDocuments, split: &SplitViewState) -> Vec<String> {
    match split.secondary_index() {
        Some(i) => render_document_lines(docs.iter()[i].1),
        None => Vec::new(),
    }
}

#[test]
fn reader_can_open_near_workspace_search_line() {
    let document = Document::from_source("# Title\n\nOne.\n\nNeedle.\n\nTail.");
    let lines = render_document_with_anchors(&document).lines.len();

    assert_eq!(source_line_scroll(5, lines), 4);
    assert_eq!(opened_at_line_status("search result", 5), "Opened search result at line 5");
}

#[test]
fn workspace_search_selection_is_bounded() {
    let mut selected = Some(0);
    selected = select_previous_bounded(selected, 2);
    assert_eq!(selected, Some(0));

    selected = select_next_bounded(selected, 2);
    selected = select_next_bounded(selected, 2);
    assert_eq!(selected, Some(1));
}

#[test]
fn dashboard_selection_is_bounded() {
    let mut selected = Some(0);
    selected = select_previous_bounded(selected, 2);
    assert_eq!(selected, Some(0));

    selected = select_next_bounded(selected, 2);
    selected = select_next_bounded(selected, 2);
    assert_eq!(selected, Some(1));
    assert_eq!(select_next_bounded(None, 0), None);
    assert_eq!(select_previous_bounded(Some(3), 0), Some(3));
}

#[test]
fn split_toggle_targets_first_non_active_tab() {
    let docs = documents(&[("# First", "first.md"), ("# Second\n\nSide\n\nMore", "second.md")]);
    let mut split = SplitViewState::new(50);

    split.toggle(docs.active_index(), docs.len());
    assert_eq!(split.secondary_index(), Some(1));
    assert!(split_lines(&docs, &split).iter().any(|line| line == "# Second"));

    split.toggle(docs.active_index(), docs.len());
    assert_eq!(split.secondary_index(), None);
    assert!(split_lines(&docs, &split).is_empty());
}

#[test]
fn split_toggle_requires_secondary_tab() {
    let docs = documents(&[("# Only", "only.md")]);
    let mut split = SplitViewState::new(50);

    split.toggle(docs.active_index(), docs.len());
    assert_eq!(split.secondary_index(), None);
}

#[test]
fn split_retargets_when_active_tab_changes() {
    let mut docs = documents(&[("# First", "first.md"), ("# Second", "second.md"), ("# Third", "third.md")]);
    let mut split = SplitViewState::new(50);
    split.toggle(docs.active_index(), docs.len());

    docs.select(1);
    split.retarget(docs.active_index(), docs.len());

    assert_ne!(split.secondary_index(), docs.active_index());
    assert_eq!(split.secondary_index(), Some(0));
    assert!(split_lines(&docs, &split).iter().any(|line| line == "# First"));
}

#[test]
fn split_side_navigation_wraps_through_non_active_tabs() {
    let docs = documents(&[("# First", "first.md"), ("# Second", "second.md"), ("# Third", "third.md")]);
    let mut split = SplitViewState::new(50);
    split.toggle(docs.active_index(), docs.len());

    let next = split.cycle_secondary(docs.active_index(), docs.len(), 1).unwrap();
    split.select_secondary(next, docs.active_index(), docs.len());
    assert_eq!(split.secondary_index(), Some(2));
    assert!(split_lines(&docs, &split).iter().any(|line| line == "# Third"));

    let next = split.cycle_secondary(docs.active_index(), docs.len(), 1).unwrap();
    split.select_secondary(next, docs.active_index(), docs.len());
    assert_eq!(split.secondary_index(), Some(1));

    let previous = split.cycle_secondary(docs.active_index(), docs.len(), -1).unwrap();
    split.select_secondary(previous, docs.active_index(), docs.len());
    assert_eq!(split.secondary_index(), Some(2));
}

#[test]
fn split_side_navigation_requires_enabled_split() {
    let docs = documents(&[("# First", "first.md"), ("# Second", "second.md")]);
    let split = SplitViewState::new(50);

    assert_eq!(split.cycle_secondary(docs.active_index(), docs.len(), 1), None);
}

#[test]
fn split_resize_changes_primary_width_when_enabled() {
    let docs = documents(&[("# First", "first.md"), ("# Second", "second.md")]);
    let mut split = SplitViewState::new(50);
    split.toggle(docs.active_index(), docs.len());

    assert!(split.resize(SplitResize::GrowPrimary));
    assert_eq!(split.widths(), (60, 40));

    split.resize(SplitResize::ShrinkPrimary);
    split.resize(SplitResize::ShrinkPrimary);
    assert_eq!(split.widths(), (40, 60));
    let (primary, secondary) = split.widths();
    assert_eq!(split_resize_status(primary, secondary), "Split View 40/60");
}

#[test]
fn split_resize_is_bounded_and_requires_split() {
    let docs = documents(&[("# First", "first.md"), ("# Second", "second.md")]);
    let mut split = SplitViewState::new(50);

    assert!(!split.resize(SplitResize::GrowPrimary));
    assert_eq!(split.widths(), (50, 50));

    split.toggle(docs.active_index(), docs.len());
    for _ in 0..8 {
        split.resize(SplitResize::GrowPrimary);
    }
    assert_eq!(split.widths(), (70, 30));
    for _ in 0..8 {
        split.resize(SplitResize::ShrinkPrimary);
    }
    assert_eq!(split.widths(), (30, 70));
}

#[test]
fn closing_split_tab_retargets_or_disables_split() {
    let mut docs = documents(&[("# First", "first.md"), ("# Second", "second.md")]);
    let mut split = SplitViewState::new(50);
    split.toggle(docs.active_index(), docs.len());
    docs.select(1);
    split.retarget(docs.active_index(), docs.len());

    docs.close(1);
    split.retarget(docs.active_index(), docs.len());

    assert_eq!(split.secondary_index(), None);
}

#[test]
fn presentation_mode_navigates_and_clamps_slides() {
    let deck = presentation_deck("# One\n\n---\n\n# Two\n\n---\n\n# Three");
    let len = deck.len();
    let mut index = 0;

    index = previous_slide(index);
    assert_eq!(index, 0);
    index = next_slide(index, len);
    index = next_slide(index, len);
    assert_eq!(index, 2);
    index = next_slide(index, len);
    assert_eq!(index, 2);
    assert_eq!(deck.slides()[index].title(), "Three");
}

#[test]
fn presentation_mode_space_advances_slide() {
    let command = terminal_command(KeyTarget::Slides, ReaderFocus::Reader, TerminalKey::Char(' '), false, true);
    assert_eq!(command, TerminalCommand::NextSlide);
    assert_eq!(next_slide(0, 2), 1);
}

#[test]
fn presentation_mode_home_end_jump_between_bounds() {
    let home = terminal_command(KeyTarget::Slides, ReaderFocus::Reader, TerminalKey::Home, false, true);
    let end = terminal_command(KeyTarget::Slides, ReaderFocus::Reader, TerminalKey::End, false, true);
    assert_eq!(home, TerminalCommand::FirstSlide);
    assert_eq!(end, TerminalCommand::LastSlide);
    assert_eq!(last_slide(3), 2);
}

#[test]
fn presentation_mode_escape_and_q_exit_to_reader() {
    for key in [TerminalKey::Esc, TerminalKey::Char('q')] {
        let command = terminal_command(KeyTarget::Slides, ReaderFocus::Reader, key, false, true);
        assert_eq!(command, TerminalCommand::ExitSlides);
    }
}

#[test]
fn document_text_highlights_selected_search_line() {
    let document = Document::from_source("Needle one.\n\nMiddle.\n\nNeedle two.");
    let matches = document.search("needle");

    assert_eq!(line_state(&matches, Some(0), 0), SearchLineState::Selected);
    assert_eq!(line_state(&matches, Some(0), 4), SearchLineState::Matched);
}

#[test]
fn document_text_highlights_unselected_search_lines() {
    let document = Document::from_source("Needle one.\n\nMiddle.\n\nNeedle two.");
    let matches = document.search("needle");

    assert_eq!(line_state(&matches, None, 0), SearchLineState::Matched);
    assert_eq!(line_state(&matches, None, 2), SearchLineState::Plain);
}

#[test]
fn edit_mode_clean_escape_closes_immediately() {
    let mut guard = DiscardGuard::new();
    let outcome = guard.request_leave(false);
    assert_eq!(outcome, LeaveOutcome::Closed);
    assert_eq!(outcome.message(), "Editing Mode closed");
}

#[test]
fn dirty_edit_blocks_tab_switch_until_confirmed() {
    let mut guard = DiscardGuard::new();
    assert_eq!(guard.request_leave(true), LeaveOutcome::Warned);
    assert_eq!(guard.request_leave(true), LeaveOutcome::Discarded);
}

#[test]
fn dirty_edit_blocks_close_until_confirmed() {
    let mut guard = DiscardGuard::new();
    let first = guard.request_leave(true);
    assert!(!first.left());
    assert_eq!(first.message(), "Unsaved edits. Press Esc again to discard or Ctrl+S to save.");
    let second = guard.request_leave(true);
    assert!(second.left());
    assert_eq!(second.message(), "Discarded unsaved edits");
}

#[test]
fn toggle_zen_flips_layout_state() {
    let mut zen = ZenModeState::new(false);
    assert_eq!(window_layout(true, false, false, zen.is_enabled(), false), (ReaderBody::Single, true));
    zen.toggle();
    assert_eq!(window_layout(true, false, false, zen.is_enabled(), false), (ReaderBody::Zen, false));
    zen.toggle();
    assert!(!zen.is_enabled());
}

#[test]
fn split_scroll_tracks_primary_reader_progress() {
    let primary = Document::from_source("# First\n\nOne\n\nTwo\n\nThree\n\nFour");
    let secondary = Document::from_source("# Second\n\nA\n\nB");
    let primary_max = max_scroll(render_document_lines(&primary).len());
    let secondary_max = max_scroll(render_document_lines(&secondary).len());

    let bottom = primary_max;
    assert_eq!(paperview::synced_scroll_offset(bottom, primary_max, secondary_max), secondary_max);

    let up = offset_scroll(bottom, -1, primary_max);
    assert!(paperview::synced_scroll_offset(up, primary_max, secondary_max) <= secondary_max);
}
