use vstd::prelude::*;

use crate::document::{Document, DocumentError};
use crate::links::{anchor_block_index, anchor_block_of, missing_anchor_message};
use crate::editing::EditSession;
use crate::gui::Status;
use crate::history::History;
use crate::open_documents::OpenDocuments;
use crate::parser::{toc_of, BlockView, ParsedDocument};
use crate::presentation::{deck_of, presentation_deck, PresentationDeck};
use crate::search::{search_of, SearchMatch};
use crate::selection::{clamped_selection, next_wrapping_of, previous_wrapping_of, select_next_wrapping, select_previous_wrapping, clamp_search_selection};
use crate::split_view::{first_secondary_of, resized_width_of, SplitResize, SplitViewState};
use crate::text::push_str;
use crate::zen_mode::ZenModeState;

verus! {

/// The reader window's state, apart from what only its widgets hold: the
/// open documents, the split, zen mode, the status, the recent files, the
/// edit session, the slides on show, the search, and the heading the reader
/// is in.
pub struct ReaderWindow {
    pub documents: OpenDocuments,
    pub split: SplitViewState,
    pub zen: ZenModeState,
    pub status: Status,
    pub drag_hovered: bool,
    pub history: History,
    pub edit: Option<EditSession>,
    pub deck: Option<PresentationDeck>,
    pub slide_index: usize,
    pub search_query: String,
    pub search_matches: Vec<SearchMatch>,
    pub search_selected: Option<usize>,
    pub active_toc_block: Option<usize>,
}

/// The path of the active document, if it has one.
pub open spec fn active_path_of(documents: (Seq<Document>, Option<usize>)) -> Option<Seq<char>> {
    match documents.1 {
        Some(i) => documents.0[i as int].path_view(),
        None => None,
    }
}

/// The status that shows a document's path: loaded with it, or empty
/// without one.
pub open spec fn shows_path(status: Status, path: Option<Seq<char>>) -> bool {
    match path {
        Some(p) => status matches Status::Loaded(q) && q@ == p,
        None => status == Status::Empty,
    }
}

/// The block of the first heading of a document, if it has headings.
pub open spec fn first_toc_block_of(blocks: Seq<BlockView>) -> Option<usize> {
    if toc_of(blocks).len() > 0 {
        Some(toc_of(blocks)[0].block_index)
    } else {
        None
    }
}

/// The first heading's block of the active document.
pub open spec fn active_first_toc_of(documents: (Seq<Document>, Option<usize>)) -> Option<usize> {
    match documents.1 {
        Some(i) => first_toc_block_of(documents.0[i as int].parsed_view()),
        None => None,
    }
}

/// The search matches in the active document; none without one.
pub open spec fn active_search_of(documents: (Seq<Document>, Option<usize>), query: Seq<char>) -> Seq<(usize, usize, Seq<char>)> {
    match documents.1 {
        Some(i) => search_of(documents.0[i as int].source_view(), query),
        None => Seq::empty(),
    }
}

/// The block of the first heading of a parsed document.
pub fn first_toc_block_index(parsed: &ParsedDocument) -> (r: Option<usize>)
    ensures
        r == first_toc_block_of(parsed.deep_view()),
{
    let toc = parsed.toc();
    if toc.len() > 0 {
        assert(toc.deep_view()[0] == toc@[0].deep_view());
        Some(toc[0].block_index)
    } else {
        None
    }
}

/// The split after the active tab changed: a side document that is now
/// the active one, or gone, gives way to the first other document.
pub open spec fn retargeted_of(split: (Option<usize>, u16), active: Option<usize>, count: nat) -> (Option<usize>, u16) {
    (
        match split.0 {
            Some(index) => if active == Some(index) || index >= count {
                first_secondary_of(active, count as usize)
            } else {
                Some(index)
            },
            None => None,
        },
        split.1,
    )
}

impl ReaderWindow {
    /// The search: its query, its matches and the picked one.
    pub open spec fn search_view(self) -> (Seq<char>, Seq<(usize, usize, Seq<char>)>, Option<usize>) {
        (self.search_query@, self.search_matches.deep_view(), self.search_selected)
    }

    /// What the window shows after its active document changed: no edit
    /// session and no slides, the split retargeted, the first heading as the
    /// one the reader is in, and the search run again over the new document
    /// with the picked match kept in range.
    pub open spec fn refreshed_after(self, old: ReaderWindow) -> bool {
        &&& self.edit is None
        &&& self.deck is None
        &&& self.slide_index == 0
        &&& self.split@ == retargeted_of(old.split@, self.documents@.1, self.documents@.0.len())
        &&& self.active_toc_block == active_first_toc_of(self.documents@)
        &&& self.search_query@ == old.search_query@
        &&& self.search_matches.deep_view() == active_search_of(self.documents@, self.search_query@)
        &&& self.search_selected == clamped_selection(old.search_selected, self.search_matches@.len() as usize)
        &&& self.zen@ == old.zen@
        &&& self.drag_hovered == old.drag_hovered
    }
}

impl ReaderWindow {
    /// A window with nothing open, zen mode as configured, the split width
    /// as configured (kept in its range), the given status and recent files.
    pub fn new_empty(zen: bool, split_width: u16, status: Status, history: History) -> (r: ReaderWindow)
        ensures
            r.documents@.0.len() == 0,
            r.zen@ == zen,
            r.split@ == (None::<usize>, crate::split_view::clamped_width(split_width)),
            r.status == status,
            r.history@ == history@,
            !r.drag_hovered,
            r.edit is None,
            r.deck is None,
            r.slide_index == 0,
            r.search_query@.len() == 0,
            r.search_matches@.len() == 0,
            r.search_selected is None,
            r.active_toc_block is None,
    {
        ReaderWindow {
            documents: OpenDocuments::new(),
            split: SplitViewState::new(split_width),
            zen: ZenModeState::new(zen),
            status,
            drag_hovered: false,
            history,
            edit: None,
            deck: None,
            slide_index: 0,
            search_query: String::new(),
            search_matches: Vec::new(),
            search_selected: None,
            active_toc_block: None,
        }
    }

    /// The status that shows the active document: loaded with its path, or
    /// empty.
    pub fn active_status(&self) -> (r: Status)
        ensures
            shows_path(r, active_path_of(self.documents@)),
    {
        match self.documents.active() {
            Some(d) => match d.path() {
                Some(p) => {
                    let mut q = String::new();
                    push_str(&mut q, p.as_str());
                    Status::Loaded(q)
                },
                None => Status::Empty,
            },
            None => Status::Empty,
        }
    }

    fn sync_active_toc_to_top(&mut self)
        ensures
            final(self).active_toc_block == active_first_toc_of(final(self).documents@),
            final(self).documents@ == old(self).documents@,
            final(self).split@ == old(self).split@,
            final(self).zen@ == old(self).zen@,
            final(self).status == old(self).status,
            final(self).drag_hovered == old(self).drag_hovered,
            final(self).history@ == old(self).history@,
            final(self).edit == old(self).edit,
            final(self).deck == old(self).deck,
            final(self).slide_index == old(self).slide_index,
            final(self).search_query@ == old(self).search_query@,
            final(self).search_matches.deep_view() == old(self).search_matches.deep_view(),
            final(self).search_selected == old(self).search_selected,
    {
        self.active_toc_block = match self.documents.active() {
            Some(d) => first_toc_block_index(d.parsed()),
            None => None,
        };
    }

    fn refresh_search_matches(&mut self)
        ensures
            final(self).search_matches.deep_view() == active_search_of(final(self).documents@, final(self).search_query@),
            final(self).search_selected == clamped_selection(
                old(self).search_selected,
                final(self).search_matches@.len() as usize,
            ),
            final(self).documents@ == old(self).documents@,
            final(self).split@ == old(self).split@,
            final(self).zen@ == old(self).zen@,
            final(self).status == old(self).status,
            final(self).drag_hovered == old(self).drag_hovered,
            final(self).history@ == old(self).history@,
            final(self).edit == old(self).edit,
            final(self).deck == old(self).deck,
            final(self).slide_index == old(self).slide_index,
            final(self).search_query@ == old(self).search_query@,
            final(self).active_toc_block == old(self).active_toc_block,
    {
        self.search_matches = match self.documents.active() {
            Some(d) => d.search(self.search_query.as_str()),
            None => {
                let v: Vec<SearchMatch> = Vec::new();
                assert(v.deep_view() =~= Seq::<(usize, usize, Seq<char>)>::empty());
                v
            },
        };
        self.search_selected = clamp_search_selection(self.search_selected, self.search_matches.len());
    }
}

impl ReaderWindow {
    fn end_presentation(&mut self)
        ensures
            final(self).deck is None,
            final(self).slide_index == 0,
            final(self).active_toc_block == active_first_toc_of(final(self).documents@),
            final(self).documents@ == old(self).documents@,
            final(self).split@ == old(self).split@,
            final(self).zen@ == old(self).zen@,
            final(self).status == old(self).status,
            final(self).drag_hovered == old(self).drag_hovered,
            final(self).history@ == old(self).history@,
            final(self).edit == old(self).edit,
            final(self).search_view() == old(self).search_view(),
    {
        self.deck = None;
        self.slide_index = 0;
        self.sync_active_toc_to_top();
    }

    /// Refreshes what depends on the active document after it changed.
    fn after_active_change(&mut self)
        ensures
            final(self).refreshed_after(*old(self)),
            final(self).documents@ == old(self).documents@,
            final(self).status == old(self).status,
            final(self).history@ == old(self).history@,
    {
        self.edit = None;
        self.end_presentation();
        self.split.retarget(self.documents.active_index(), self.documents.len());
        self.sync_active_toc_to_top();
        self.refresh_search_matches();
    }

    /// Opens a document that was read from a file: it goes into the recent
    /// files and into a tab (the tab of the same file, if one is open), and
    /// becomes the one shown.
    pub fn open_document(&mut self, document: Document)
        ensures
            final(self).documents@ == (
                crate::open_documents::opened_of(old(self).documents@.0, document),
                Some(crate::open_documents::open_target_of(old(self).documents@.0, document) as usize),
            ),
            final(self).history@ == match document.path_view() {
                Some(p) => crate::history::recorded(old(self).history@, (p, document.title_view())),
                None => old(self).history@,
            },
            shows_path(final(self).status, document.path_view()),
            final(self).refreshed_after(*old(self)),
    {
        self.history.record_document(&document);
        let status = match document.path() {
            Some(p) => {
                let mut q = String::new();
                push_str(&mut q, p.as_str());
                Status::Loaded(q)
            },
            None => Status::Empty,
        };
        self.documents.open_or_activate(document);
        self.status = status;
        self.after_active_change();
    }

    /// A file could not be opened: the status says why, and nothing else
    /// changes.
    pub fn open_failed(&mut self, error: &DocumentError)
        ensures
            final(self).status matches Status::Error(m) && m@ == crate::document::document_error_text(*error),
            final(self).documents@ == old(self).documents@,
            final(self).split@ == old(self).split@,
            final(self).edit == old(self).edit,
            final(self).deck == old(self).deck,
            final(self).search_view() == old(self).search_view(),
            final(self).active_toc_block == old(self).active_toc_block,
    {
        self.status = Status::Error(error.message());
    }

    /// Shows tab `index`, if it exists.
    pub fn select_tab(&mut self, index: usize)
        ensures
            final(self).documents@.0 == old(self).documents@.0,
            final(self).documents@.1 == if index < old(self).documents@.0.len() {
                Some(index)
            } else {
                old(self).documents@.1
            },
            shows_path(final(self).status, active_path_of(final(self).documents@)),
            final(self).history@ == old(self).history@,
            final(self).refreshed_after(*old(self)),
    {
        self.documents.select(index);
        self.status = self.active_status();
        self.after_active_change();
    }

    /// Closes tab `index`, if it exists.
    pub fn close_tab(&mut self, index: usize)
        ensures
            index < old(self).documents@.0.len() ==> final(self).documents@ == (
                old(self).documents@.0.remove(index as int),
                crate::open_documents::active_after_close(
                    old(self).documents@.1,
                    index,
                    (old(self).documents@.0.len() - 1) as nat,
                ),
            ),
            index >= old(self).documents@.0.len() ==> final(self).documents@ == old(self).documents@,
            shows_path(final(self).status, active_path_of(final(self).documents@)),
            final(self).history@ == old(self).history@,
            final(self).refreshed_after(*old(self)),
    {
        self.documents.close(index);
        self.status = self.active_status();
        self.after_active_change();
    }
}

impl ReaderWindow {
    /// Shows tab `index` beside the active one, when the split is on and
    /// `index` is another open tab.
    pub fn select_split_tab(&mut self, index: usize)
        ensures
            final(self).split@.1 == old(self).split@.1,
            final(self).split@.0 == if old(self).split@.0 is Some && old(self).documents@.1 != Some(index) && index
                < old(self).documents@.0.len() {
                Some(index)
            } else {
                old(self).split@.0
            },
            final(self).documents@ == old(self).documents@,
            final(self).status == old(self).status,
    {
        let active = self.documents.active_index();
        let len = self.documents.len();
        self.split.select_secondary(index, active, len);
    }

    /// Turns the split on, beside the first other tab, or off.
    pub fn toggle_split(&mut self)
        ensures
            final(self).split@.1 == old(self).split@.1,
            old(self).split@.0 is Some ==> final(self).split@.0 is None,
            old(self).split@.0 is None ==> final(self).split@.0 == first_secondary_of(
                old(self).documents@.1,
                old(self).documents@.0.len() as usize,
            ),
            final(self).documents@ == old(self).documents@,
            final(self).status == old(self).status,
    {
        let active = self.documents.active_index();
        let len = self.documents.len();
        self.split.toggle(active, len);
    }

    /// Resizes the split while it is on; says whether it did, so that the
    /// new width can be saved.
    pub fn resize_split(&mut self, direction: SplitResize) -> (r: bool)
        ensures
            r == old(self).split@.0 is Some,
            final(self).split@.0 == old(self).split@.0,
            final(self).split@.1 == if r {
                resized_width_of(old(self).split@.1, direction)
            } else {
                old(self).split@.1
            },
            final(self).documents@ == old(self).documents@,
    {
        self.split.resize(direction)
    }

    /// Turns zen mode on or off.
    pub fn toggle_zen(&mut self)
        ensures
            final(self).zen@ == !old(self).zen@,
            final(self).documents@ == old(self).documents@,
            final(self).split@ == old(self).split@,
    {
        self.zen.toggle();
    }

    /// Opens an edit session on the active document, or closes the open one
    /// (showing the active document again); with nothing open, says so.
    pub fn toggle_edit(&mut self)
        ensures
            old(self).edit is Some ==> final(self).edit is None && shows_path(
                final(self).status,
                active_path_of(final(self).documents@),
            ),
            old(self).edit is None ==> match old(self).documents@.1 {
                None => final(self).edit is None && (final(self).status matches Status::Error(m) && m@
                    == "open a document before editing"@),
                Some(i) => (final(self).edit matches Some(e) && e@.path == old(self).documents@.0[i as int].path_view()
                    && e@.buffer == old(self).documents@.0[i as int].source_view() && e@.original_source
                    == old(self).documents@.0[i as int].source_view()) && final(self).deck is None
                    && final(self).status == old(self).status,
            },
            final(self).documents@ == old(self).documents@,
    {
        if self.edit.is_some() {
            self.edit = None;
            self.status = self.active_status();
            return;
        }
        let session = match self.documents.active() {
            Some(d) => EditSession::from_document(d),
            None => {
                let mut m = String::new();
                push_str(&mut m, "open a document before editing");
                self.status = Status::Error(m);
                return;
            },
        };
        self.end_presentation();
        self.edit = Some(session);
    }

    fn show_slide(&mut self)
        requires
            old(self).deck is Some,
        ensures
            final(self).deck == old(self).deck,
            final(self).slide_index == old(self).slide_index,
            final(self).documents@ == old(self).documents@,
            final(self).status == old(self).status,
            final(self).edit == old(self).edit,
            final(self).active_toc_block == if old(self).slide_index < old(self).deck.unwrap()@.len() {
                first_toc_block_of(
                    crate::parser::parsed_of(
                        crate::parser::cmark::markdown_events(old(self).deck.unwrap()@[old(self).slide_index as int].1),
                        old(self).deck.unwrap()@[old(self).slide_index as int].1,
                    ),
                )
            } else {
                None
            },
    {
        let mut toc: Option<usize> = None;
        match &self.deck {
            Some(deck) => {
                let slides = deck.slides();
                if self.slide_index < slides.len() {
                    assert(slides.deep_view()[self.slide_index as int] == slides@[self.slide_index as int].deep_view());
                    let slide = Document::from_source(slides[self.slide_index].source());
                    toc = first_toc_block_index(slide.parsed());
                }
            },
            None => {},
        }
        self.active_toc_block = toc;
    }

    /// Starts presenting the active document's slides from the first, or
    /// stops presenting (showing the active document again); with nothing
    /// open or no slides, says so.
    pub fn toggle_presentation(&mut self)
        ensures
            old(self).deck is Some ==> final(self).deck is None && final(self).slide_index == 0 && shows_path(
                final(self).status,
                active_path_of(final(self).documents@),
            ),
            old(self).deck is None ==> match old(self).documents@.1 {
                None => final(self).deck is None && (final(self).status matches Status::Error(m) && m@
                    == "open a document before presenting"@),
                Some(i) => if deck_of(old(self).documents@.0[i as int].source_view()).len() == 0 {
                    final(self).deck is None && (final(self).status matches Status::Error(m) && m@
                        == "presentation has no slides"@)
                } else {
                    (final(self).deck matches Some(d) && d@ == deck_of(old(self).documents@.0[i as int].source_view()))
                        && final(self).slide_index == 0 && final(self).edit is None && final(self).status
                        == old(self).status
                },
            },
            final(self).documents@ == old(self).documents@,
    {
        if self.deck.is_some() {
            self.end_presentation();
            self.status = self.active_status();
            return;
        }
        let deck = match self.documents.active() {
            Some(d) => presentation_deck(d.source()),
            None => {
                let mut m = String::new();
                push_str(&mut m, "open a document before presenting");
                self.status = Status::Error(m);
                return;
            },
        };
        if deck.is_empty() {
            let mut m = String::new();
            push_str(&mut m, "presentation has no slides");
            self.status = Status::Error(m);
            return;
        }
        self.edit = None;
        self.deck = Some(deck);
        self.slide_index = 0;
        self.show_slide();
    }

    /// Shows the next slide, if there is one.
    pub fn next_slide(&mut self)
        ensures
            final(self).deck == old(self).deck,
            final(self).slide_index == match old(self).deck {
                Some(d) => if old(self).slide_index + 1 < d@.len() {
                    (old(self).slide_index + 1) as usize
                } else {
                    old(self).slide_index
                },
                None => old(self).slide_index,
            },
            final(self).documents@ == old(self).documents@,
    {
        let len = match &self.deck {
            Some(d) => d.len(),
            None => return,
        };
        if self.slide_index < len && len - self.slide_index > 1 {
            self.slide_index = self.slide_index + 1;
            self.show_slide();
        }
    }

    /// Shows the previous slide, if there is one.
    pub fn previous_slide(&mut self)
        ensures
            final(self).deck == old(self).deck,
            final(self).slide_index == if old(self).slide_index > 0 && old(self).deck is Some {
                (old(self).slide_index - 1) as usize
            } else {
                old(self).slide_index
            },
            final(self).documents@ == old(self).documents@,
    {
        if self.deck.is_some() && self.slide_index > 0 {
            self.slide_index = self.slide_index - 1;
            self.show_slide();
        }
    }

    /// Shows the first slide.
    pub fn first_slide(&mut self)
        ensures
            final(self).deck == old(self).deck,
            final(self).slide_index == if old(self).deck is Some { 0 } else { old(self).slide_index },
            final(self).documents@ == old(self).documents@,
    {
        if self.deck.is_some() && self.slide_index > 0 {
            self.slide_index = 0;
            self.show_slide();
        }
    }

    /// Shows the last slide.
    pub fn last_slide(&mut self)
        ensures
            final(self).deck == old(self).deck,
            final(self).slide_index == match old(self).deck {
                Some(d) => if d@.len() > 0 { (d@.len() - 1) as usize } else { 0 },
                None => old(self).slide_index,
            },
            final(self).documents@ == old(self).documents@,
    {
        let len = match &self.deck {
            Some(d) => d.len(),
            None => return,
        };
        let last = if len > 0 { len - 1 } else { 0 };
        if self.slide_index != last {
            self.slide_index = last;
            self.show_slide();
        }
    }

    /// Stops presenting, if presenting, and shows the active document again.
    pub fn exit_presentation(&mut self)
        ensures
            old(self).deck is Some ==> final(self).deck is None && final(self).slide_index == 0 && shows_path(
                final(self).status,
                active_path_of(final(self).documents@),
            ),
            old(self).deck is None ==> final(self).status == old(self).status && final(self).deck is None,
            final(self).documents@ == old(self).documents@,
    {
        if self.deck.is_some() {
            self.end_presentation();
            self.status = self.active_status();
        }
    }

    /// A file is dragged over the window.
    pub fn hover(&mut self, path: &str)
        ensures
            final(self).drag_hovered,
            final(self).status matches Status::Hovering(p) && p@ == path@,
            final(self).documents@ == old(self).documents@,
    {
        self.drag_hovered = true;
        let mut p = String::new();
        push_str(&mut p, path);
        self.status = Status::Hovering(p);
    }

    /// Dragged files left the window: a hovering status gives way to the
    /// active document's.
    pub fn hover_left(&mut self)
        ensures
            !final(self).drag_hovered,
            old(self).status is Hovering ==> shows_path(final(self).status, active_path_of(final(self).documents@)),
            !(old(self).status is Hovering) ==> final(self).status == old(self).status,
            final(self).documents@ == old(self).documents@,
    {
        self.drag_hovered = false;
        if let Status::Hovering(_) = self.status {
            self.status = self.active_status();
        }
    }

    /// A TeX compile finished: with the PDF's path, or with why it failed.
    pub fn finish_tex_compile(&mut self, source: String, result: Result<String, String>)
        ensures
            match result {
                Ok(output) => final(self).status == Status::CompiledTex { source, output },
                Err(e) => final(self).status == Status::Error(e),
            },
            final(self).documents@ == old(self).documents@,
    {
        self.status = match result {
            Ok(output) => Status::CompiledTex { source, output },
            Err(e) => Status::Error(e),
        };
    }

    /// A new search query: the matches in the active document, the first one
    /// picked when there are any.
    pub fn update_search_query(&mut self, query: String)
        ensures
            final(self).search_query@ == query@,
            final(self).search_matches.deep_view() == active_search_of(final(self).documents@, query@),
            final(self).search_selected == if final(self).search_matches@.len() > 0 {
                Some(0usize)
            } else {
                None::<usize>
            },
            final(self).documents@ == old(self).documents@,
            final(self).status == old(self).status,
    {
        self.search_query = query;
        self.refresh_search_matches();
        if self.search_matches.len() > 0 {
            self.search_selected = Some(0);
        }
    }

    /// Picks the next search match, wrapping to the first.
    pub fn select_next_search_match(&mut self)
        ensures
            final(self).search_selected == if old(self).search_matches@.len() == 0 {
                old(self).search_selected
            } else {
                next_wrapping_of(old(self).search_selected, old(self).search_matches@.len() as usize)
            },
            final(self).search_matches.deep_view() == old(self).search_matches.deep_view(),
            final(self).documents@ == old(self).documents@,
    {
        if self.search_matches.len() > 0 {
            self.search_selected = select_next_wrapping(self.search_selected, self.search_matches.len());
        }
    }

    /// Picks the previous search match, wrapping to the last.
    pub fn select_previous_search_match(&mut self)
        ensures
            final(self).search_selected == if old(self).search_matches@.len() == 0 {
                old(self).search_selected
            } else {
                previous_wrapping_of(old(self).search_selected, old(self).search_matches@.len() as usize)
            },
            final(self).search_matches.deep_view() == old(self).search_matches.deep_view(),
            final(self).documents@ == old(self).documents@,
    {
        if self.search_matches.len() > 0 {
            self.search_selected = select_previous_wrapping(self.search_selected, self.search_matches.len());
        }
    }

    /// A contents entry was picked: its heading becomes the one the reader is
    /// in.
    pub fn toc_selected(&mut self, block_index: usize)
        ensures
            final(self).active_toc_block == Some(block_index),
            final(self).documents@ == old(self).documents@,
            final(self).status == old(self).status,
    {
        self.active_toc_block = Some(block_index);
    }

    /// A link to a heading of the active document: that heading becomes the
    /// one the reader is in; an unknown anchor, or no document, is reported.
    pub fn open_anchor(&mut self, anchor: &str)
        ensures
            match old(self).documents@.1 {
                Some(i) => match anchor_block_of(toc_of(old(self).documents@.0[i as int].parsed_view()), anchor@) {
                    Some(b) => final(self).active_toc_block == Some(b) && final(self).status == old(self).status,
                    None => final(self).status matches Status::Error(m) && m@ == "heading anchor not found: #"@
                        + anchor@,
                },
                None => final(self).status matches Status::Error(m) && m@ == "heading anchor not found: #"@ + anchor@,
            },
            final(self).documents@ == old(self).documents@,
    {
        let found = match self.documents.active() {
            Some(d) => anchor_block_index(d, anchor),
            None => None,
        };
        match found {
            Some(b) => self.active_toc_block = Some(b),
            None => self.status = Status::Error(missing_anchor_message(anchor)),
        }
    }
}

} // verus!
