use paperview::terminal::{terminal_layout, PaneKind, TerminalLayout};
use paperview::bookmarks::Bookmark;
use paperview::history::FileEntry;
use paperview::reader_nav::{active_toc_block_index, block_line_start};
use paperview::render::render_document_with_anchors;
use paperview::search::{SearchMatch, WorkspaceSearchMatch};
use paperview::terminal::{
    bookmark_item_text, closed_status, open_path_request, opened_tab_status, search_match_scroll,
    task_toggle_at_scroll, edit_max_scroll, edit_preview_max_scroll, header_status, header_title,
    history_item_text, jump_to_selected_toc, line_kind, line_state, next_tab_index, presentation_pane_title,
    previous_tab_index, search_status, select_next_toc, select_previous_toc, side_status, split_resize_status,
    split_toggle_status, tab_labels, tab_status, toggle_focus, workspace_search_item_text, zen_status, HeaderMode,
    LineKind, ReaderFocus, SearchLineState,
};
use paperview::{presentation_deck, Document, OpenDocuments, ZenModeState};

struct Reader {
    document: Document,
    focus: ReaderFocus,
    selected: Option<usize>,
    scroll: u16,
    zen: ZenModeState,
}

impl Reader {
    fn new(source: &str) -> Reader {
        Reader {
            document: Document::from_source(source),
            focus: ReaderFocus::Reader,
            selected: None,
            scroll: 0,
            zen: ZenModeState::new(false),
        }
    }

    fn toggle_focus(&mut self) {
        let rendered = render_document_with_anchors(&self.document);
        let toc = self.document.parsed().toc();
        let (focus, selected) = toggle_focus(
            self.focus,
            self.zen.is_enabled(),
            &toc,
            &rendered.block_line_starts,
            self.scroll,
            self.selected,
        );
        self.focus = focus;
        self.selected = selected;
    }

    fn toggle_zen(&mut self) {
        self.zen.toggle();
        if self.zen.is_enabled() {
            self.focus = ReaderFocus::Reader;
        }
    }
}

fn documents(sources: &[(&str, &str)]) -> OpenDocuments {
    let mut documents = OpenDocuments::new();
    for (source, path) in sources {
        documents.open_or_activate(Document::from_source(*source).with_path(*path));
    }
    documents.select(0);
    documents
}

#[test]
fn toc_focus_toggle_requires_headings() {
    let mut app = Reader::new("# First\n\nBody.");

    assert_eq!(app.focus, ReaderFocus::Reader);
    app.toggle_focus();
    assert_eq!(app.focus, ReaderFocus::Toc);
    app.toggle_focus();
    assert_eq!(app.focus, ReaderFocus::Reader);

    let mut empty = Reader::new("Body only.");
    empty.toggle_focus();
    assert_eq!(empty.focus, ReaderFocus::Reader);
    assert_eq!(empty.selected, None);
}

#[test]
fn zen_toggle_forces_reader_focus_and_blocks_toc_focus() {
    let mut app = Reader::new("# First\n\nBody.");
    app.toggle_focus();
    assert_eq!(app.focus, ReaderFocus::Toc);

    app.toggle_zen();
    assert!(app.zen.is_enabled());
    assert_eq!(app.focus, ReaderFocus::Reader);

    app.toggle_focus();
    assert_eq!(app.focus, ReaderFocus::Reader);

    app.toggle_zen();
    assert!(!app.zen.is_enabled());
    app.toggle_focus();
    assert_eq!(app.focus, ReaderFocus::Toc);
}

#[test]
fn toggling_focus_picks_the_heading_in_view() {
    let mut app = Reader::new("# First\n\nOne.\n\n## Second\n\nTwo.");
    let rendered = render_document_with_anchors(&app.document);
    app.scroll = block_line_start(&rendered.block_line_starts, 2) as u16;
    app.toggle_focus();
    assert_eq!(app.selected, Some(1));
}

#[test]
fn toc_selection_is_bounded() {
    let mut selected = None;
    selected = select_previous_toc(selected, 2);
    assert_eq!(selected, Some(0));
    selected = select_previous_toc(selected, 2);
    assert_eq!(selected, Some(0));

    selected = select_next_toc(selected, 2);
    selected = select_next_toc(selected, 2);
    assert_eq!(selected, Some(1));
    assert_eq!(select_next_toc(Some(1), 0), None);
}

#[test]
fn toc_jump_scrolls_to_selected_heading() {
    let mut app = Reader::new("# First\n\nBody.\n\n## Second");
    app.toggle_focus();
    app.selected = select_next_toc(app.selected, 2);
    let rendered = render_document_with_anchors(&app.document);
    let toc = app.document.parsed().toc();
    let starts = &rendered.block_line_starts;
    let jumped = jump_to_selected_toc(app.focus, &toc, app.selected, starts, rendered.lines.len());

    assert_eq!(jumped, Some(block_line_start(starts, 2) as u16));
    assert_eq!(active_toc_block_index(&toc, starts, jumped.unwrap()), Some(2));
    assert_eq!(jump_to_selected_toc(ReaderFocus::Reader, &toc, app.selected, starts, rendered.lines.len()), None);
}

#[test]
fn tab_navigation_wraps_between_documents() {
    let mut docs = documents(&[("# First", "first.md"), ("# Second\n\n## Two", "second.md")]);
    assert_eq!(docs.active().unwrap().title(), "First");

    docs.select(next_tab_index(&docs).unwrap());
    assert_eq!(docs.active().unwrap().title(), "Second");
    assert_eq!(docs.active_index(), Some(1));

    docs.select(next_tab_index(&docs).unwrap());
    assert_eq!(docs.active().unwrap().title(), "First");

    docs.select(previous_tab_index(&docs).unwrap());
    assert_eq!(docs.active().unwrap().title(), "Second");
    assert_eq!(next_tab_index(&OpenDocuments::new()), None);
}

#[test]
fn tab_line_marks_active_document() {
    let docs = documents(&[("# First", "first.md"), ("# Second", "second.md")]);
    let labels = tab_labels(&docs);

    assert_eq!(labels, vec![(" 1:First ".to_owned(), true), (" 2:Second ".to_owned(), false)]);
}

#[test]
fn zen_header_replaces_tab_line() {
    let docs = documents(&[("# First", "first.md"), ("# Second", "second.md")]);
    assert!(tab_labels(&docs)[0].0.contains("1:First"));
    assert_eq!(header_title(docs.active().unwrap()), " PaperView - First ");
}

#[test]
fn closing_active_tab_selects_neighbor() {
    let mut docs = documents(&[
        ("# First", "first.md"),
        ("# Second\n\n## Two", "second.md"),
        ("# Third", "third.md"),
    ]);
    docs.select(next_tab_index(&docs).unwrap());
    let index = docs.active_index().unwrap();
    let closed = docs.close(index).unwrap();

    assert_eq!(docs.len(), 2);
    assert_eq!(docs.active().unwrap().title(), "Third");
    assert_eq!(docs.active_index(), Some(1));
    assert_eq!(closed_status(closed.title()), "Closed Second");
}

#[test]
fn closing_last_tab_requests_exit() {
    let mut docs = documents(&[("# Only", "only.md")]);
    docs.close(0);
    assert!(docs.is_empty());
}

#[test]
fn search_status_reports_position() {
    assert_eq!(search_status("needle", None, 0), "No matches for 'needle'");
    assert_eq!(search_status("needle", Some(1), 3), "Match 2/3 for 'needle' - n/N moves");
}

#[test]
fn presentation_pane_title_counts_slides() {
    let deck = presentation_deck("# One\n\n---\n\n# Two");
    assert_eq!(presentation_pane_title(None, 0), "Presentation");
    assert_eq!(presentation_pane_title(Some(&deck), 0), "Presentation 1 / 2");
}

#[test]
fn header_status_follows_mode() {
    let deck = presentation_deck("# One\n\n---\n\n# Two");
    assert_eq!(header_status(HeaderMode::Searching, "abc", None, 0, Some("s")), "/abc");
    assert_eq!(header_status(HeaderMode::OpeningPath, "a.md", None, 0, None), "Open: a.md");
    assert_eq!(
        header_status(HeaderMode::Editing { dirty: true, preview: false }, "", None, 0, None),
        "Editing (dirty, preview off) - Ctrl+S save, Ctrl+P preview, Esc view"
    );
    assert_eq!(
        header_status(HeaderMode::Presenting, "", Some(&deck), 1, None),
        "Slide 2/2 - Two - Space/Right next, Left previous, Esc view"
    );
    assert_eq!(header_status(HeaderMode::Presenting, "", None, 0, None), "Presentation Mode");
    assert_eq!(header_status(HeaderMode::Reading, "", None, 0, Some("Saved")), "Saved");
    assert!(header_status(HeaderMode::Reading, "", None, 0, None).starts_with("[e] edit  [o] open"));
}

#[test]
fn list_items_describe_entries() {
    let entry = FileEntry::new("/notes/a.md", "A");
    assert_eq!(history_item_text(&entry), ("A".to_owned(), "/notes/a.md".to_owned()));

    let bookmark = Bookmark::new("/notes/a.md", "A").with_heading_anchor("intro").with_source_line(4);
    assert_eq!(bookmark_item_text(&bookmark), ("A".to_owned(), "/notes/a.md #intro line 4".to_owned()));
    let plain = Bookmark::new("/notes/b.md", "B");
    assert_eq!(bookmark_item_text(&plain).1, "/notes/b.md");

    let found = WorkspaceSearchMatch {
        path: "docs/a.md".to_owned(),
        line_number: 3,
        column: 7,
        line: "  a needle here ".to_owned(),
    };
    assert_eq!(
        workspace_search_item_text(&found),
        ("docs/a.md:3:7".to_owned(), "a needle here".to_owned())
    );
}

#[test]
fn line_state_marks_matches() {
    let matches = vec![
        SearchMatch { line_index: 0, column: 0, line: "Needle one.".to_owned() },
        SearchMatch { line_index: 4, column: 0, line: "Needle two.".to_owned() },
    ];
    assert_eq!(line_state(&matches, Some(1), 4), SearchLineState::Selected);
    assert_eq!(line_state(&matches, Some(1), 0), SearchLineState::Matched);
    assert_eq!(line_state(&matches, Some(1), 2), SearchLineState::Plain);
    assert_eq!(line_state(&matches, Some(9), 0), SearchLineState::Matched);
}

#[test]
fn line_kind_follows_prefix() {
    assert_eq!(line_kind("# Title"), LineKind::Heading);
    assert_eq!(line_kind("> quote"), LineKind::Quote);
    assert_eq!(line_kind(">no"), LineKind::Body);
    assert_eq!(line_kind(""), LineKind::Body);
}

#[test]
fn pane_scroll_limits() {
    assert_eq!(edit_preview_max_scroll(10, 4), 6);
    assert_eq!(edit_preview_max_scroll(3, 4), 0);
    assert_eq!(edit_preview_max_scroll(10, 0), 9);
    assert_eq!(edit_preview_max_scroll(100_000, 1), u16::MAX);
    assert_eq!(edit_max_scroll("a\nb\nc", 1), 2);
    assert_eq!(edit_max_scroll("", 5), 0);
}

#[test]
fn status_messages() {
    assert_eq!(tab_status(1, 3, "Second"), "Tab 2/3: Second");
    assert_eq!(side_status(0, 2, "First"), "Side 1/2: First");
    assert_eq!(split_toggle_status(true), "Split View enabled");
    assert_eq!(split_toggle_status(false), "Split View disabled");
    assert_eq!(zen_status(true), "Zen Mode enabled");
    assert_eq!(split_resize_status(55, 45), "Split View 55/45");
}

#[test]
fn search_match_scroll_stays_in_document() {
    let matches = vec![
        SearchMatch { line_index: 0, column: 0, line: "Needle one.".to_owned() },
        SearchMatch { line_index: 4, column: 0, line: "Needle two.".to_owned() },
    ];
    assert_eq!(search_match_scroll(&matches, 1, 10), Some(4));
    assert_eq!(search_match_scroll(&matches, 1, 3), Some(2));
    assert_eq!(search_match_scroll(&matches, 2, 10), None);
}

#[test]
fn search_navigation_wraps_between_matches() {
    let document = Document::from_source("Needle one.\n\nMiddle.\n\nNeedle two.");
    let matches = document.search("needle");
    let line_count = render_document_with_anchors(&document).lines.len();
    let mut selected = Some(0);

    selected = paperview::selection::select_next_wrapping(selected, matches.len());
    assert_eq!(selected, Some(1));
    assert_eq!(search_match_scroll(&matches, 1, line_count), Some(4));

    selected = paperview::selection::select_next_wrapping(selected, matches.len());
    assert_eq!(selected, Some(0));
    assert_eq!(search_match_scroll(&matches, 0, line_count), Some(0));

    selected = paperview::selection::select_previous_wrapping(selected, matches.len());
    assert_eq!(selected, Some(1));
}

#[test]
fn open_prompt_trims_and_rejects_empty() {
    assert_eq!(open_path_request("  notes/a.md \n"), Ok("notes/a.md".to_owned()));
    assert_eq!(open_path_request("   "), Err("Open path is empty".to_owned()));
    assert_eq!(opened_tab_status(1, 2, "Opened"), "Opened tab 2/2: Opened");
}

#[test]
fn task_toggle_needs_file_and_checkbox() {
    let source = "# Tasks\n\n- [ ] one\n- [x] two\n";
    let memory = Document::from_source(source);
    let rendered = render_document_with_anchors(&memory);
    let starts = &rendered.block_line_starts;
    let list = block_line_start(starts, 1) as u16;
    let count = rendered.lines.len();
    assert_eq!(
        task_toggle_at_scroll(&memory, starts, count, list),
        Err("Task toggles require a file-backed document".to_owned())
    );

    let file = Document::from_source(source).with_path("tasks.md");
    assert_eq!(
        task_toggle_at_scroll(&file, starts, count, list),
        Ok(("tasks.md".to_owned(), "# Tasks\n\n- [x] one\n- [x] two\n".to_owned()))
    );
    assert_eq!(
        task_toggle_at_scroll(&file, starts, count, list + 1),
        Ok(("tasks.md".to_owned(), "# Tasks\n\n- [ ] one\n- [ ] two\n".to_owned()))
    );
    assert_eq!(
        task_toggle_at_scroll(&file, starts, count, 0),
        Err("No task checkbox at the reader line".to_owned())
    );
}

fn panes(layout: &TerminalLayout) -> Vec<(PaneKind, u16, String)> {
    layout.panes.iter().map(|p| (p.kind, p.width_percent, p.title.clone())).collect()
}

#[test]
fn terminal_layout_follows_modes() {
    let reading = terminal_layout(false, false, false, true, None, None, false, "");
    assert_eq!(panes(&reading), vec![(PaneKind::Reader, 100, "Reader".to_owned())]);
    assert_eq!(reading.toc_title.as_deref(), Some("On this page"));

    let split = terminal_layout(false, false, false, true, Some((60, 40)), Some("Second"), true, "");
    assert_eq!(
        panes(&split),
        vec![(PaneKind::Reader, 60, "Reader".to_owned()), (PaneKind::Side, 40, "Side: Second".to_owned())]
    );
    assert_eq!(split.toc_title.as_deref(), Some("On this page [active]"));
    let untitled = terminal_layout(false, false, false, true, Some((50, 50)), None, false, "");
    assert_eq!(untitled.panes[1].title, "Side: Split");

    let zen = terminal_layout(true, false, false, true, Some((60, 40)), Some("Second"), false, "");
    assert_eq!(panes(&zen), vec![(PaneKind::Reader, 100, "Reader".to_owned())]);
    assert_eq!(zen.toc_title, None);

    let editing = terminal_layout(false, false, true, true, None, None, false, "");
    assert_eq!(
        panes(&editing),
        vec![(PaneKind::Editor, 50, "Editor".to_owned()), (PaneKind::Preview, 50, "Preview".to_owned())]
    );
    assert!(editing.toc_title.is_some());
    let editing_split = terminal_layout(false, false, true, false, Some((60, 40)), None, false, "");
    assert_eq!(panes(&editing_split), vec![(PaneKind::Editor, 100, "Editor".to_owned())]);
    assert_eq!(editing_split.toc_title, None);

    let slides = terminal_layout(false, true, false, true, None, None, false, "Presentation 1 / 2");
    assert_eq!(panes(&slides), vec![(PaneKind::Slides, 100, "Presentation 1 / 2".to_owned())]);
    assert_eq!(slides.toc_title, None);
}
