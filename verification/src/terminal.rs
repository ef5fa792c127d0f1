use vstd::prelude::*;

use crate::bookmarks::Bookmark;
use crate::document::Document;
use crate::history::FileEntry;
use crate::open_documents::OpenDocuments;
use crate::presentation::PresentationDeck;
use crate::search::{SearchMatch, WorkspaceSearchMatch};
use crate::text::{chars_of, decimal, decimal_chars_wide, push_chars, push_str, trim, trim_chars};
use crate::parser::{TocItem, TocView};
use crate::document::{toggle_task_line_of, toggle_task_line_source};
use crate::reader_nav::{
    active_toc_block_index, active_toc_block_of, block_line_start, block_line_start_of, max_scroll,
    max_scroll_of, task_line_at_of, task_source_line_at_scroll, toc_index_for_block, toc_index_of,
};
use crate::render::BlockLineStart;

verus! {

/// Where the terminal reader's keys go: the document or its table of
/// contents.
#[derive(Debug, Clone, Copy, PartialEq, Eq, Structural)]
pub enum ReaderFocus {
    Reader,
    Toc,
}

/// The table-of-contents entry picked when the contents take the focus with
/// nothing picked yet: the heading the reader is in, else the first.
pub open spec fn focus_selection_of(toc: Seq<TocView>, starts: Seq<BlockLineStart>, scroll: u16) -> Option<usize> {
    match active_toc_block_of(toc, starts, scroll) {
        Some(b) => match toc_index_of(toc, b) {
            Some(i) => Some(i),
            None => Some(0),
        },
        None => Some(0),
    }
}

/// The focus and the picked contents entry after the focus key: the reader
/// keeps it in zen mode and when there are no headings (which also clears
/// the pick); else the focus flips, and the contents, on taking it with
/// nothing picked, pick the heading the reader is in.
pub open spec fn toggled_focus_of(
    focus: ReaderFocus,
    zen: bool,
    toc: Seq<TocView>,
    starts: Seq<BlockLineStart>,
    scroll: u16,
    selected: Option<usize>,
) -> (ReaderFocus, Option<usize>) {
    if zen {
        (ReaderFocus::Reader, selected)
    } else if toc.len() == 0 {
        (ReaderFocus::Reader, None)
    } else {
        let next = match focus {
            ReaderFocus::Reader => ReaderFocus::Toc,
            ReaderFocus::Toc => ReaderFocus::Reader,
        };
        if next == ReaderFocus::Toc && selected is None {
            (next, focus_selection_of(toc, starts, scroll))
        } else {
            (next, selected)
        }
    }
}

/// The focus and the picked contents entry after the focus key.
pub fn toggle_focus(
    focus: ReaderFocus,
    zen: bool,
    toc: &[TocItem],
    starts: &[BlockLineStart],
    scroll: u16,
    selected: Option<usize>,
) -> (r: (ReaderFocus, Option<usize>))
    ensures
        r == toggled_focus_of(focus, zen, toc.deep_view(), starts@, scroll, selected),
{
    if zen {
        return (ReaderFocus::Reader, selected);
    }
    if toc.len() == 0 {
        return (ReaderFocus::Reader, None);
    }
    let next = match focus {
        ReaderFocus::Reader => ReaderFocus::Toc,
        ReaderFocus::Toc => ReaderFocus::Reader,
    };
    if next == ReaderFocus::Toc && selected.is_none() {
        let pick = match active_toc_block_index(toc, starts, scroll) {
            Some(b) => match toc_index_for_block(toc, b) {
                Some(i) => Some(i),
                None => Some(0),
            },
            None => Some(0),
        };
        (next, pick)
    } else {
        (next, selected)
    }
}

/// The contents entry below the picked one, stopping at the last; the first
/// when none is picked; none without entries.
pub open spec fn next_toc_of(selected: Option<usize>, len: usize) -> Option<usize> {
    if len == 0 {
        None
    } else {
        match selected {
            None => Some(0),
            Some(i) => Some(if i + 1 < len { (i + 1) as usize } else { (len - 1) as usize }),
        }
    }
}

/// The contents entry below the picked one.
pub fn select_next_toc(selected: Option<usize>, len: usize) -> (r: Option<usize>)
    ensures
        r == next_toc_of(selected, len),
{
    if len == 0 {
        return None;
    }
    match selected {
        None => Some(0),
        Some(i) => Some(if i < len - 1 { i + 1 } else { len - 1 }),
    }
}

/// The contents entry above the picked one, stopping at the first; the
/// first when none is picked; none without entries.
pub open spec fn previous_toc_of(selected: Option<usize>, len: usize) -> Option<usize> {
    if len == 0 {
        None
    } else {
        match selected {
            None => Some(0),
            Some(i) => Some(if i > 0 { (i - 1) as usize } else { 0 }),
        }
    }
}

/// The contents entry above the picked one.
pub fn select_previous_toc(selected: Option<usize>, len: usize) -> (r: Option<usize>)
    ensures
        r == previous_toc_of(selected, len),
{
    if len == 0 {
        return None;
    }
    match selected {
        None => Some(0),
        Some(i) => Some(i.saturating_sub(1)),
    }
}

/// Where the reader scrolls when the picked contents entry is opened: to the
/// first line of its heading, no further than the last line; nowhere unless
/// the contents have the focus and an entry is picked.
pub open spec fn toc_jump_of(
    focus: ReaderFocus,
    toc: Seq<TocView>,
    selected: Option<usize>,
    starts: Seq<BlockLineStart>,
    line_count: usize,
) -> Option<u16> {
    match selected {
        Some(i) => if focus == ReaderFocus::Toc && i < toc.len() {
            let start = block_line_start_of(starts, toc[i as int].block_index);
            let limit = max_scroll_of(line_count);
            Some(if start < limit { start as u16 } else { limit })
        } else {
            None
        },
        None => None,
    }
}

/// Where the reader scrolls when the picked contents entry is opened.
pub fn jump_to_selected_toc(
    focus: ReaderFocus,
    toc: &[TocItem],
    selected: Option<usize>,
    starts: &[BlockLineStart],
    line_count: usize,
) -> (r: Option<u16>)
    ensures
        r == toc_jump_of(focus, toc.deep_view(), selected, starts@, line_count),
{
    if focus != ReaderFocus::Toc {
        return None;
    }
    match selected {
        Some(i) => {
            if i >= toc.len() {
                return None;
            }
            assert(toc.deep_view()[i as int] == toc@[i as int].deep_view());
            let start = block_line_start(starts, toc[i].block_index);
            let limit = max_scroll(line_count);
            if start < limit as usize {
                Some(start as u16)
            } else {
                Some(limit)
            }
        },
        None => None,
    }
}

/// The tab after the active one, wrapping to the first.
pub open spec fn next_tab_of(active: Option<usize>, len: usize) -> Option<usize> {
    match active {
        Some(a) => Some(if a + 1 < len { (a + 1) as usize } else { 0 }),
        None => None,
    }
}

/// The tab after the active one, wrapping to the first; none without tabs.
pub fn next_tab_index(documents: &OpenDocuments) -> (r: Option<usize>)
    ensures
        r == next_tab_of(documents@.1, documents@.0.len() as usize),
        r matches Some(i) ==> i < documents@.0.len(),
{
    let len = documents.len();
    match documents.active_index() {
        Some(a) => Some(if a + 1 < len { a + 1 } else { 0 }),
        None => None,
    }
}

/// The tab before the active one, wrapping to the last.
pub open spec fn previous_tab_of(active: Option<usize>, len: usize) -> Option<usize> {
    match active {
        Some(a) => Some(if a == 0 { (len - 1) as usize } else { (a - 1) as usize }),
        None => None,
    }
}

/// The tab before the active one, wrapping to the last; none without tabs.
pub fn previous_tab_index(documents: &OpenDocuments) -> (r: Option<usize>)
    ensures
        r == previous_tab_of(documents@.1, documents@.0.len() as usize),
        r matches Some(i) ==> i < documents@.0.len(),
{
    let len = documents.len();
    match documents.active_index() {
        Some(a) => Some(if a == 0 { len - 1 } else { a - 1 }),
        None => None,
    }
}

fn push_count(out: &mut String, n: usize)
    ensures
        final(out)@ == old(out)@ + decimal(n as nat),
{
    let d = decimal_chars_wide(n as u128);
    push_chars(out, d.as_slice());
}

fn push_ordinal(out: &mut String, n: usize)
    ensures
        final(out)@ == old(out)@ + decimal((n + 1) as nat),
{
    let d = decimal_chars_wide(n as u128 + 1);
    push_chars(out, d.as_slice());
}

/// The search line under the header: the picked match's number, how many
/// there are and the query, or that nothing matched.
pub open spec fn search_status_of(query: Seq<char>, selected: Option<usize>, matches: usize) -> Seq<char> {
    match selected {
        Some(i) => "Match "@ + decimal((i + 1) as nat) + seq!['/'] + decimal(matches as nat) + " for '"@ + query
            + "' - n/N moves"@,
        None => "No matches for '"@ + query + seq!['\''],
    }
}

/// The search line under the header.
pub fn search_status(query: &str, selected: Option<usize>, matches: usize) -> (r: String)
    ensures
        r@ == search_status_of(query@, selected, matches),
{
    let mut out = String::new();
    match selected {
        Some(i) => {
            push_str(&mut out, "Match ");
            push_ordinal(&mut out, i);
            out.push('/');
            push_count(&mut out, matches);
            push_str(&mut out, " for '");
            push_str(&mut out, query);
            push_str(&mut out, "' - n/N moves");
        },
        None => {
            push_str(&mut out, "No matches for '");
            push_str(&mut out, query);
            out.push('\'');
        },
    }
    out
}

/// The title of the slide pane: the slide's number and the deck's size.
pub open spec fn presentation_pane_title_of(deck_len: Option<nat>, slide_index: usize) -> Seq<char> {
    match deck_len {
        Some(n) => "Presentation "@ + decimal((slide_index + 1) as nat) + " / "@ + decimal(n),
        None => "Presentation"@,
    }
}

/// The title of the slide pane.
pub fn presentation_pane_title(deck: Option<&PresentationDeck>, slide_index: usize) -> (r: String)
    ensures
        r@ == presentation_pane_title_of(
            (match deck {
                Some(d) => Some(d@.len()),
                None => None,
            }),
            slide_index,
        ),
{
    let mut out = String::new();
    match deck {
        Some(d) => {
            push_str(&mut out, "Presentation ");
            push_ordinal(&mut out, slide_index);
            push_str(&mut out, " / ");
            push_count(&mut out, d.len());
        },
        None => push_str(&mut out, "Presentation"),
    }
    out
}

/// The keys the terminal reader offers, shown when there is nothing else to
/// say.
pub open spec fn key_hints() -> Seq<char> {
    "[e] edit  [o] open  [/] search  [Space] task  [z] zen  [\\] split  [</>] resize  [{/}] side  [[/]] tabs  [x] close  [Tab] toc  [q] quit"@
}

/// What the terminal reader is doing, for its header line.
#[derive(Debug, Clone, Copy, PartialEq, Eq, Structural)]
pub enum HeaderMode {
    /// Reading: the last status message, or the key hints.
    Reading,
    /// Typing a search query.
    Searching,
    /// Typing a path to open.
    OpeningPath,
    /// Editing the source, with or without unsaved changes and the preview.
    Editing { dirty: bool, preview: bool },
    /// Presenting slides.
    Presenting,
}

/// The header's status line: the query or path being typed, the editing or
/// presenting state, else the last status message, else the key hints.
pub open spec fn header_status_of(
    mode: HeaderMode,
    input: Seq<char>,
    deck: Option<Seq<(Seq<char>, Seq<char>)>>,
    slide_index: usize,
    status: Option<Seq<char>>,
) -> Seq<char> {
    match mode {
        HeaderMode::Searching => seq!['/'] + input,
        HeaderMode::OpeningPath => "Open: "@ + input,
        HeaderMode::Editing { dirty, preview } => "Editing ("@ + (if dirty {
            "dirty"@
        } else {
            "clean"@
        }) + ", "@ + (if preview {
            "preview on"@
        } else {
            "preview off"@
        }) + ") - Ctrl+S save, Ctrl+P preview, Esc view"@,
        HeaderMode::Presenting => match deck {
            None => "Presentation Mode"@,
            Some(slides) => "Slide "@ + decimal((slide_index + 1) as nat) + seq!['/'] + decimal(slides.len())
                + " - "@ + (if slide_index < slides.len() {
                slides[slide_index as int].0
            } else {
                "Untitled Slide"@
            }) + " - Space/Right next, Left previous, Esc view"@,
        },
        HeaderMode::Reading => match status {
            Some(m) => m,
            None => key_hints(),
        },
    }
}

/// The header's status line, from what the reader is doing, the text being
/// typed, the deck on show, the slide shown and the last status message.
pub fn header_status(
    mode: HeaderMode,
    input: &str,
    deck: Option<&PresentationDeck>,
    slide_index: usize,
    status: Option<&str>,
) -> (r: String)
    ensures
        r@ == header_status_of(
            mode,
            input@,
            (match deck {
                Some(d) => Some(d@),
                None => None,
            }),
            slide_index,
            (match status {
                Some(m) => Some(m@),
                None => None,
            }),
        ),
{
    let mut out = String::new();
    match mode {
        HeaderMode::Searching => {
            out.push('/');
            push_str(&mut out, input);
        },
        HeaderMode::OpeningPath => {
            push_str(&mut out, "Open: ");
            push_str(&mut out, input);
        },
        HeaderMode::Editing { dirty, preview } => {
            push_str(&mut out, "Editing (");
            push_str(&mut out, if dirty { "dirty" } else { "clean" });
            push_str(&mut out, ", ");
            push_str(&mut out, if preview { "preview on" } else { "preview off" });
            push_str(&mut out, ") - Ctrl+S save, Ctrl+P preview, Esc view");
        },
        HeaderMode::Presenting => match deck {
            None => push_str(&mut out, "Presentation Mode"),
            Some(d) => {
                let slides = d.slides();
                push_str(&mut out, "Slide ");
                push_ordinal(&mut out, slide_index);
                out.push('/');
                push_count(&mut out, slides.len());
                push_str(&mut out, " - ");
                if slide_index < slides.len() {
                    assert(slides.deep_view()[slide_index as int] == slides@[slide_index as int].deep_view());
                    push_str(&mut out, slides[slide_index].title());
                } else {
                    push_str(&mut out, "Untitled Slide");
                }
                push_str(&mut out, " - Space/Right next, Left previous, Esc view");
            },
        },
        HeaderMode::Reading => match status {
            Some(m) => push_str(&mut out, m),
            None => push_str(
                &mut out,
                "[e] edit  [o] open  [/] search  [Space] task  [z] zen  [\\] split  [</>] resize  [{/}] side  [[/]] tabs  [x] close  [Tab] toc  [q] quit",
            ),
        },
    }
    out
}

/// The header's first line: the app's name and the active document's title.
pub fn header_title(document: &Document) -> (r: String)
    ensures
        r@ == " PaperView - "@ + document.title_view() + seq![' '],
{
    let mut out = String::new();
    push_str(&mut out, " PaperView - ");
    push_str(&mut out, document.title());
    out.push(' ');
    out
}

/// A tab's label: its number, from one, and its document's title.
pub open spec fn tab_label_of(index: int, title: Seq<char>) -> Seq<char> {
    seq![' '] + decimal((index + 1) as nat) + seq![':'] + title + seq![' ']
}

/// The label of each open tab, in order, with whether it is the active one.
pub fn tab_labels(documents: &OpenDocuments) -> (r: Vec<(String, bool)>)
    ensures
        r@.len() == documents@.0.len(),
        forall|i: int|
            0 <= i < r@.len() ==> (#[trigger] r@[i]).0@ == tab_label_of(i, documents@.0[i].title_view()) && r@[i].1
                == (documents@.1 == Some(i as usize)),
{
    let tabs = documents.iter();
    let active = documents.active_index();
    let mut out: Vec<(String, bool)> = Vec::new();
    let mut k: usize = 0;
    while k < tabs.len()
        invariant
            k <= tabs@.len(),
            tabs@.len() == documents@.0.len(),
            active == documents@.1,
            forall|i: int| 0 <= i < tabs@.len() ==> (#[trigger] tabs@[i]).0 == i && tabs@[i].1 == &documents@.0[i],
            out@.len() == k,
            forall|i: int|
                0 <= i < k ==> (#[trigger] out@[i]).0@ == tab_label_of(i, documents@.0[i].title_view()) && out@[i].1
                    == (documents@.1 == Some(i as usize)),
        decreases tabs@.len() - k,
    {
        let (index, document) = tabs[k];
        let mut label = String::new();
        label.push(' ');
        push_ordinal(&mut label, index);
        label.push(':');
        push_str(&mut label, document.title());
        label.push(' ');
        let is_active = match active {
            Some(a) => a == index,
            None => false,
        };
        out.push((label, is_active));
        k = k + 1;
    }
    out
}

/// The two lines of a history entry in a list: its title, then its path.
pub fn history_item_text(entry: &FileEntry) -> (r: (String, String))
    ensures
        r.0@ == entry@.1,
        r.1@ == entry@.0,
{
    let mut title = String::new();
    push_str(&mut title, entry.title());
    let mut path = String::new();
    push_str(&mut path, entry.path());
    (title, path)
}

/// The second line of a bookmark in a list: its path, then its heading
/// anchor after ` #`, then its source line after ` line `, where it has them.
pub open spec fn bookmark_meta_of(path: Seq<char>, anchor: Option<Seq<char>>, line: Option<usize>) -> Seq<char> {
    path + (match anchor {
        Some(a) => " #"@ + a,
        None => Seq::empty(),
    }) + (match line {
        Some(n) => " line "@ + decimal(n as nat),
        None => Seq::empty(),
    })
}

/// The two lines of a bookmark in a list: its title, then where it points.
pub fn bookmark_item_text(bookmark: &Bookmark) -> (r: (String, String))
    ensures
        r.0@ == bookmark@.title,
        r.1@ == bookmark_meta_of(bookmark@.path, bookmark@.heading_anchor, bookmark@.source_line),
{
    let mut title = String::new();
    push_str(&mut title, bookmark.title());
    let mut meta = String::new();
    push_str(&mut meta, bookmark.path());
    let ghost after_path = meta@;
    match bookmark.heading_anchor() {
        Some(a) => {
            push_str(&mut meta, " #");
            push_str(&mut meta, a);
        },
        None => {
            assert(meta@ =~= after_path + Seq::<char>::empty());
        },
    }
    let ghost after_anchor = meta@;
    match bookmark.source_line() {
        Some(n) => {
            push_str(&mut meta, " line ");
            push_count(&mut meta, n);
        },
        None => {
            assert(meta@ =~= after_anchor + Seq::<char>::empty());
        },
    }
    (title, meta)
}

/// The two lines of a workspace search match in a list: `path:line:column`,
/// then the matching line trimmed.
pub fn workspace_search_item_text(m: &WorkspaceSearchMatch) -> (r: (String, String))
    ensures
        r.0@ == m.path@ + seq![':'] + decimal(m.line_number as nat) + seq![':'] + decimal(m.column as nat),
        r.1@ == trim(m.line@),
{
    let mut head = String::new();
    push_str(&mut head, m.path.as_str());
    head.push(':');
    push_count(&mut head, m.line_number);
    head.push(':');
    push_count(&mut head, m.column);
    let cs = chars_of(m.line.as_str());
    let t = trim_chars(cs.as_slice());
    let mut line = String::new();
    push_chars(&mut line, t.as_slice());
    (head, line)
}

/// How a rendered line stands to the search: the picked match's line, a
/// line with a match, or neither.
#[derive(Debug, Clone, Copy, PartialEq, Eq, Structural)]
pub enum SearchLineState {
    Plain,
    Matched,
    Selected,
}

/// How line `line_index` stands to the search.
pub open spec fn line_state_of(matches: Seq<(usize, usize, Seq<char>)>, selected: Option<usize>, line_index: usize) -> SearchLineState {
    if selected matches Some(i) && i < matches.len() && matches[i as int].0 == line_index {
        SearchLineState::Selected
    } else if exists|k: int| 0 <= k < matches.len() && #[trigger] matches[k].0 == line_index {
        SearchLineState::Matched
    } else {
        SearchLineState::Plain
    }
}

/// How line `line_index` stands to the search matches and the picked one.
pub fn line_state(matches: &[SearchMatch], selected: Option<usize>, line_index: usize) -> (r: SearchLineState)
    ensures
        r == line_state_of(matches.deep_view(), selected, line_index),
{
    let ghost mv = matches.deep_view();
    if let Some(i) = selected {
        if i < matches.len() {
            assert(mv[i as int] == matches@[i as int].deep_view());
            if matches[i].line_index == line_index {
                return SearchLineState::Selected;
            }
        }
    }
    let mut k: usize = 0;
    while k < matches.len()
        invariant
            k <= matches@.len(),
            mv == matches.deep_view(),
            !(selected matches Some(i) && i < mv.len() && mv[i as int].0 == line_index),
            forall|j: int| 0 <= j < k ==> #[trigger] mv[j].0 != line_index,
        decreases matches@.len() - k,
    {
        assert(mv[k as int] == matches@[k as int].deep_view());
        if matches[k].line_index == line_index {
            assert(mv[k as int].0 == line_index);
            assert(exists|j: int| 0 <= j < mv.len() && #[trigger] mv[j].0 == line_index);
            assert(!(selected matches Some(i) && i < mv.len() && mv[i as int].0 == line_index));
            return SearchLineState::Matched;
        }
        k = k + 1;
    }
    SearchLineState::Plain
}

/// How a rendered line is drawn away from search matches.
#[derive(Debug, Clone, Copy, PartialEq, Eq, Structural)]
pub enum LineKind {
    Heading,
    Quote,
    Body,
}

/// How a rendered line is drawn: a heading when it starts with `#`, a quote
/// when it starts with `> `, else body text.
pub open spec fn line_kind_of(line: Seq<char>) -> LineKind {
    if line.len() > 0 && line[0] == '#' {
        LineKind::Heading
    } else if line.len() >= 2 && line[0] == '>' && line[1] == ' ' {
        LineKind::Quote
    } else {
        LineKind::Body
    }
}

/// How a rendered line is drawn.
pub fn line_kind(line: &str) -> (r: LineKind)
    ensures
        r == line_kind_of(line@),
{
    let cs = chars_of(line);
    if cs.len() > 0 && cs[0] == '#' {
        LineKind::Heading
    } else if cs.len() >= 2 && cs[0] == '>' && cs[1] == ' ' {
        LineKind::Quote
    } else {
        LineKind::Body
    }
}

/// How far a pane of `viewport` lines (at least one) can scroll over
/// `line_count` lines: until the last line is at its bottom, at most the
/// largest 16-bit position.
pub open spec fn pane_max_scroll_of(line_count: usize, viewport: usize) -> u16 {
    let shown = if viewport > 1 { viewport } else { 1 };
    let over = if line_count > shown { line_count - shown } else { 0 };
    (if over < u16::MAX { over } else { u16::MAX as int }) as u16
}

/// How far the edit preview can scroll over its rendered lines.
pub fn edit_preview_max_scroll(line_count: usize, viewport: usize) -> (r: u16)
    ensures
        r == pane_max_scroll_of(line_count, viewport),
{
    let shown = if viewport > 1 { viewport } else { 1 };
    let over = line_count.saturating_sub(shown);
    if over < u16::MAX as usize {
        over as u16
    } else {
        u16::MAX
    }
}

/// The number of lines of an edit buffer: one more than its newlines.
pub open spec fn edit_line_count_of(buffer: Seq<char>) -> nat {
    buffer.filter(|c: char| c == '\n').len() + 1
}

/// How far the editor can scroll over its buffer.
pub fn edit_max_scroll(buffer: &str, viewport: usize) -> (r: u16)
    ensures
        r == pane_max_scroll_of(
            (if edit_line_count_of(buffer@) <= usize::MAX {
                edit_line_count_of(buffer@)
            } else {
                usize::MAX as nat
            }) as usize,
            viewport,
        ),
{
    let cs = chars_of(buffer);
    let mut count: usize = 1;
    let mut i: usize = 0;
    assert(cs@.take(0).filter(|c: char| c == '\n') =~= Seq::<char>::empty());
    while i < cs.len()
        invariant
            i <= cs@.len(),
            cs@ == buffer@,
            count as nat == (if cs@.take(i as int).filter(|c: char| c == '\n').len() + 1 <= usize::MAX {
                cs@.take(i as int).filter(|c: char| c == '\n').len() + 1
            } else {
                usize::MAX as nat
            }),
        decreases cs@.len() - i,
    {
        assert(cs@.take(i + 1).drop_last() =~= cs@.take(i as int));
        reveal(Seq::filter);
        if cs[i] == '\n' {
            count = count.saturating_add(1);
        }
        i = i + 1;
    }
    assert(cs@.take(cs@.len() as int) =~= cs@);
    edit_preview_max_scroll(count, viewport)
}

/// The status after switching to a tab: its number, the number of tabs and
/// its title.
pub fn tab_status(index: usize, len: usize, title: &str) -> (r: String)
    ensures
        r@ == "Tab "@ + decimal((index + 1) as nat) + seq!['/'] + decimal(len as nat) + ": "@ + title@,
{
    let mut out = String::new();
    push_str(&mut out, "Tab ");
    push_ordinal(&mut out, index);
    out.push('/');
    push_count(&mut out, len);
    push_str(&mut out, ": ");
    push_str(&mut out, title);
    out
}

/// The status after showing another document beside the active one.
pub fn side_status(index: usize, len: usize, title: &str) -> (r: String)
    ensures
        r@ == "Side "@ + decimal((index + 1) as nat) + seq!['/'] + decimal(len as nat) + ": "@ + title@,
{
    let mut out = String::new();
    push_str(&mut out, "Side ");
    push_ordinal(&mut out, index);
    out.push('/');
    push_count(&mut out, len);
    push_str(&mut out, ": ");
    push_str(&mut out, title);
    out
}

/// The status after a tab was closed.
pub fn closed_status(title: &str) -> (r: String)
    ensures
        r@ == "Closed "@ + title@,
{
    let mut out = String::new();
    push_str(&mut out, "Closed ");
    push_str(&mut out, title);
    out
}

/// The status after a mode was switched on or off.
pub open spec fn switched_status_of(name: Seq<char>, enabled: bool) -> Seq<char> {
    name + if enabled {
        " enabled"@
    } else {
        " disabled"@
    }
}

/// The status after Split View was switched on or off.
pub fn split_toggle_status(enabled: bool) -> (r: String)
    ensures
        r@ == switched_status_of("Split View"@, enabled),
{
    let mut out = String::new();
    push_str(&mut out, "Split View");
    push_str(&mut out, if enabled { " enabled" } else { " disabled" });
    out
}

/// The status after Zen Mode was switched on or off.
pub fn zen_status(enabled: bool) -> (r: String)
    ensures
        r@ == switched_status_of("Zen Mode"@, enabled),
{
    let mut out = String::new();
    push_str(&mut out, "Zen Mode");
    push_str(&mut out, if enabled { " enabled" } else { " disabled" });
    out
}

/// The status after the split was resized: the two shares of the width.
pub fn split_resize_status(primary: u16, secondary: u16) -> (r: String)
    ensures
        r@ == "Split View "@ + decimal(primary as nat) + seq!['/'] + decimal(secondary as nat),
{
    let mut out = String::new();
    push_str(&mut out, "Split View ");
    push_count(&mut out, primary as usize);
    out.push('/');
    push_count(&mut out, secondary as usize);
    out
}

/// Where the reader scrolls to show search match `index`: its line, taken
/// as a 16-bit position, no further than the last line; nowhere when there
/// is no such match.
pub open spec fn search_match_scroll_of(matches: Seq<(usize, usize, Seq<char>)>, index: usize, line_count: usize) -> Option<u16> {
    if index < matches.len() {
        let line = matches[index as int].0 as u16;
        let limit = max_scroll_of(line_count);
        Some(if line < limit { line } else { limit })
    } else {
        None
    }
}

/// Where the reader scrolls to show search match `index`.
pub fn search_match_scroll(matches: &[SearchMatch], index: usize, line_count: usize) -> (r: Option<u16>)
    ensures
        r == search_match_scroll_of(matches.deep_view(), index, line_count),
{
    if index >= matches.len() {
        return None;
    }
    assert(matches.deep_view()[index as int] == matches@[index as int].deep_view());
    #[verifier::truncate]
    let line = matches[index].line_index as u16;
    let limit = max_scroll(line_count);
    Some(if line < limit { line } else { limit })
}

/// The path to open from what was typed at the open prompt, trimmed; the
/// status when nothing was typed.
pub fn open_path_request(input: &str) -> (r: Result<String, String>)
    ensures
        trim(input@).len() == 0 ==> (r matches Err(m) && m@ == "Open path is empty"@),
        trim(input@).len() > 0 ==> (r matches Ok(p) && p@ == trim(input@)),
{
    let cs = chars_of(input);
    let t = trim_chars(cs.as_slice());
    let mut out = String::new();
    if t.len() == 0 {
        push_str(&mut out, "Open path is empty");
        Err(out)
    } else {
        push_chars(&mut out, t.as_slice());
        Ok(out)
    }
}

/// The status after a file was opened in a tab.
pub fn opened_tab_status(index: usize, len: usize, title: &str) -> (r: String)
    ensures
        r@ == "Opened tab "@ + decimal((index + 1) as nat) + seq!['/'] + decimal(len as nat) + ": "@ + title@,
{
    let mut out = String::new();
    push_str(&mut out, "Opened tab ");
    push_ordinal(&mut out, index);
    out.push('/');
    push_count(&mut out, len);
    push_str(&mut out, ": ");
    push_str(&mut out, title);
    out
}

/// What flipping the task checkbox under the reader line gives: the file to
/// write and its new source, or why nothing can be flipped: the document has
/// no file, the line shows no checkbox, or its source line holds none.
pub open spec fn task_toggle_of(
    path: Option<Seq<char>>,
    source: Seq<char>,
    task_line: Option<usize>,
) -> Result<(Seq<char>, Seq<char>), Seq<char>> {
    match path {
        None => Err("Task toggles require a file-backed document"@),
        Some(p) => match task_line {
            None => Err("No task checkbox at the reader line"@),
            Some(line) => match toggle_task_line_of(source, line as int) {
                None => Err("Task checkbox source line was not found"@),
                Some(updated) => Ok((p, updated)),
            },
        },
    }
}

/// What flipping the task checkbox under the reader line gives, for a
/// document, its rendered lines' block starts and count, and the scroll
/// position.
pub fn task_toggle_at_scroll(
    document: &Document,
    starts: &[BlockLineStart],
    line_count: usize,
    scroll: u16,
) -> (r: Result<(String, String), String>)
    ensures
        match task_toggle_of(
            document.path_view(),
            document.source_view(),
            task_line_at_of(document.parsed_view(), starts@, line_count, scroll),
        ) {
            Ok((p, s)) => r matches Ok((q, t)) && q@ == p && t@ == s,
            Err(m) => r matches Err(e) && e@ == m,
        },
{
    let mut message = String::new();
    let path = match document.path() {
        Some(p) => p,
        None => {
            push_str(&mut message, "Task toggles require a file-backed document");
            return Err(message);
        },
    };
    let parsed = document.parsed();
    let line = match task_source_line_at_scroll(&parsed.blocks, starts, line_count, scroll) {
        Some(l) => l,
        None => {
            push_str(&mut message, "No task checkbox at the reader line");
            return Err(message);
        },
    };
    match toggle_task_line_source(document.source(), line) {
        Some(updated) => {
            let mut p = String::new();
            push_str(&mut p, path.as_str());
            Ok((p, updated))
        },
        None => {
            push_str(&mut message, "Task checkbox source line was not found");
            Err(message)
        },
    }
}

/// Where the reader opens to show source line `line_number` (counted from
/// one): that many lines down, less one, as a 16-bit position, no further
/// than the last rendered line.
pub open spec fn source_line_scroll_of(line_number: usize, line_count: usize) -> u16 {
    let wanted = (if line_number > 0 { line_number - 1 } else { 0 }) as u16;
    let limit = max_scroll_of(line_count);
    if wanted < limit {
        wanted
    } else {
        limit
    }
}

/// Where the reader opens to show source line `line_number`.
pub fn source_line_scroll(line_number: usize, line_count: usize) -> (r: u16)
    ensures
        r == source_line_scroll_of(line_number, line_count),
{
    let before = line_number.saturating_sub(1);
    #[verifier::truncate]
    let wanted = before as u16;
    let limit = max_scroll(line_count);
    if wanted < limit {
        wanted
    } else {
        limit
    }
}

/// The status when the reader opens at a line: `Opened {what} at line {n}`.
pub fn opened_at_line_status(what: &str, line_number: usize) -> (r: String)
    ensures
        r@ == "Opened "@ + what@ + " at line "@ + decimal(line_number as nat),
{
    let mut out = String::new();
    push_str(&mut out, "Opened ");
    push_str(&mut out, what);
    push_str(&mut out, " at line ");
    push_count(&mut out, line_number);
    out
}

/// The status after bookmarks whose files are gone were pruned.
pub fn pruned_bookmarks_status(removed: usize) -> (r: String)
    ensures
        r@ == "Pruned "@ + decimal(removed as nat) + " missing bookmark(s)"@,
{
    let mut out = String::new();
    push_str(&mut out, "Pruned ");
    push_count(&mut out, removed);
    push_str(&mut out, " missing bookmark(s)");
    out
}

/// What a pane of the terminal reader shows.
#[derive(Debug, Clone, Copy, PartialEq, Eq, Structural)]
pub enum PaneKind {
    Editor,
    Preview,
    Slides,
    Reader,
    Side,
}

/// A pane beside the contents: what it shows, its share of the width in
/// percent, and its title.
#[derive(Debug, Clone, PartialEq, Eq)]
pub struct Pane {
    pub kind: PaneKind,
    pub width_percent: u16,
    pub title: String,
}

/// The width, in columns, of the contents panel.
pub const TOC_PANEL_WIDTH: u16 = 32;

/// The terminal reader's panes, left to right, and the contents panel's
/// title when it is shown (at the right, `TOC_PANEL_WIDTH` columns wide).
#[derive(Debug, Clone, PartialEq, Eq)]
pub struct TerminalLayout {
    pub panes: Vec<Pane>,
    pub toc_title: Option<String>,
}

impl TerminalLayout {
    /// The panes as (kind, width, title), and the contents panel's title.
    pub open spec fn layout_view(self) -> (Seq<(PaneKind, u16, Seq<char>)>, Option<Seq<char>>) {
        (
            self.panes@.map_values(|p: Pane| (p.kind, p.width_percent, p.title@)),
            match self.toc_title {
                Some(t) => Some(t@),
                None => None,
            },
        )
    }
}

/// An optional text as a sequence.
pub open spec fn opt_view(s: Option<&str>) -> Option<Seq<char>> {
    match s {
        Some(t) => Some(t@),
        None => None,
    }
}

/// The terminal reader's layout: while editing, the editor, beside the
/// preview half and half when the preview is on; while presenting, the
/// slide under its title; else the reader, beside the side document at the
/// split's widths when the split is on and zen mode is off. The contents
/// panel shows, titled `On this page` (with ` [active]` while it has the
/// focus), except in zen mode, while presenting, and while editing with the
/// split on.
pub open spec fn terminal_layout_of(
    zen: bool,
    presenting: bool,
    editing: bool,
    preview_visible: bool,
    split: Option<(u16, u16)>,
    side_title: Option<Seq<char>>,
    toc_focused: bool,
    slide_title: Seq<char>,
) -> (Seq<(PaneKind, u16, Seq<char>)>, Option<Seq<char>>) {
    let panes = if editing {
        if preview_visible {
            seq![(PaneKind::Editor, 50u16, "Editor"@), (PaneKind::Preview, 50u16, "Preview"@)]
        } else {
            seq![(PaneKind::Editor, 100u16, "Editor"@)]
        }
    } else if presenting {
        seq![(PaneKind::Slides, 100u16, slide_title)]
    } else {
        match split {
            Some((primary, secondary)) => if zen {
                seq![(PaneKind::Reader, 100u16, "Reader"@)]
            } else {
                seq![
                    (PaneKind::Reader, primary, "Reader"@),
                    (PaneKind::Side, secondary, "Side: "@ + match side_title {
                        Some(t) => t,
                        None => "Split"@,
                    }),
                ]
            },
            None => seq![(PaneKind::Reader, 100u16, "Reader"@)],
        }
    };
    let toc_shown = !(zen || presenting) && !(split is Some && editing);
    (
        panes,
        if toc_shown {
            Some(
                if toc_focused {
                    "On this page [active]"@
                } else {
                    "On this page"@
                },
            )
        } else {
            None
        },
    )
}

fn pane(kind: PaneKind, width_percent: u16, title: &str) -> (r: Pane)
    ensures
        r.kind == kind,
        r.width_percent == width_percent,
        r.title@ == title@,
{
    let mut t = String::new();
    push_str(&mut t, title);
    Pane { kind, width_percent, title: t }
}

/// The terminal reader's layout, from zen mode, presenting, editing, the
/// preview, the split's widths while it is on, the side document's title,
/// whether the contents have the focus, and the slide pane's title.
pub fn terminal_layout(
    zen: bool,
    presenting: bool,
    editing: bool,
    preview_visible: bool,
    split: Option<(u16, u16)>,
    side_title: Option<&str>,
    toc_focused: bool,
    slide_title: &str,
) -> (r: TerminalLayout)
    ensures
        r.layout_view() == terminal_layout_of(
            zen,
            presenting,
            editing,
            preview_visible,
            split,
            opt_view(side_title),
            toc_focused,
            slide_title@,
        ),
{
    let mut panes: Vec<Pane> = Vec::new();
    if editing {
        panes.push(pane(PaneKind::Editor, if preview_visible { 50 } else { 100 }, "Editor"));
        if preview_visible {
            panes.push(pane(PaneKind::Preview, 50, "Preview"));
        }
    } else if presenting {
        panes.push(pane(PaneKind::Slides, 100, slide_title));
    } else {
        match split {
            Some((primary, secondary)) => {
                if zen {
                    panes.push(pane(PaneKind::Reader, 100, "Reader"));
                } else {
                    panes.push(pane(PaneKind::Reader, primary, "Reader"));
                    let mut title = String::new();
                    push_str(&mut title, "Side: ");
                    match side_title {
                        Some(t) => push_str(&mut title, t),
                        None => push_str(&mut title, "Split"),
                    }
                    panes.push(Pane { kind: PaneKind::Side, width_percent: secondary, title });
                }
            },
            None => panes.push(pane(PaneKind::Reader, 100, "Reader")),
        }
    }
    let toc_shown = !(zen || presenting) && !(split.is_some() && editing);
    let toc_title = if toc_shown {
        let mut t = String::new();
        push_str(&mut t, if toc_focused { "On this page [active]" } else { "On this page" });
        Some(t)
    } else {
        None
    };
    let r = TerminalLayout { panes, toc_title };
    assert(r.layout_view().0 =~= terminal_layout_of(
        zen,
        presenting,
        editing,
        preview_visible,
        split,
        opt_view(side_title),
        toc_focused,
        slide_title@,
    ).0);
    r
}

} // verus!
