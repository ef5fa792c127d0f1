use vstd::prelude::*;

use crate::document::{file_type_of_path, Document, SupportedFileType};
use crate::presentation::PresentationDeck;
use crate::split_view::SplitViewState;
use crate::text::{chars_of, decimal, decimal_chars_wide, push_chars, push_str, trim, trim_chars};

verus! {

/// The window title: the active document's title before the app's name,
/// or the app's name alone.
pub fn window_title(active: Option<&Document>) -> (r: String)
    ensures
        r@ == match active {
            Some(d) => d.title_view() + " - PaperView"@,
            None => "PaperView"@,
        },
{
    let mut out = String::new();
    match active {
        Some(d) => {
            push_str(&mut out, d.title());
            push_str(&mut out, " - PaperView");
        },
        None => push_str(&mut out, "PaperView"),
    }
    out
}

fn push_count(out: &mut String, n: usize)
    ensures
        final(out)@ == old(out)@ + decimal(n as nat),
{
    let d = decimal_chars_wide(n as u128);
    push_chars(out, d.as_slice());
}

/// Where the search stands: the selected match's number and how many there
/// are, or `0/0` without a query or a selection.
pub open spec fn search_summary_of(query: Seq<char>, selected: Option<usize>, matches: usize) -> Seq<char> {
    if trim(query).len() == 0 {
        "0/0"@
    } else {
        match selected {
            Some(i) => decimal((i + 1) as nat) + seq!['/'] + decimal(matches as nat),
            None => "0/0"@,
        }
    }
}

/// Where the search stands, as `selected/total`.
pub fn search_summary(query: &str, selected: Option<usize>, matches: usize) -> (r: String)
    ensures
        r@ == search_summary_of(query@, selected, matches),
{
    let cs = chars_of(query);
    let mut out = String::new();
    if trim_chars(cs.as_slice()).len() == 0 {
        push_str(&mut out, "0/0");
        return out;
    }
    match selected {
        Some(i) => {
            let d = decimal_chars_wide(i as u128 + 1);
            push_chars(&mut out, d.as_slice());
            out.push('/');
            push_count(&mut out, matches);
        },
        None => push_str(&mut out, "0/0"),
    }
    out
}

/// The line under the workspace search box.
pub open spec fn workspace_search_summary_of(searching: bool, query: Seq<char>, matches: usize, failed: bool) -> Seq<
    char,
> {
    if searching {
        "Searching current workspace"@
    } else if trim(query).len() == 0 {
        "Search files with ripgrep"@
    } else if matches == 0 && !failed {
        "No matches"@
    } else if matches == 1 {
        "1 match"@
    } else {
        decimal(matches as nat) + " matches"@
    }
}

/// The line under the workspace search box: searching, a prompt, or how
/// many matches the last search found.
pub fn workspace_search_summary(searching: bool, query: &str, matches: usize, failed: bool) -> (r: String)
    ensures
        r@ == workspace_search_summary_of(searching, query@, matches, failed),
{
    let mut out = String::new();
    if searching {
        push_str(&mut out, "Searching current workspace");
        return out;
    }
    let cs = chars_of(query);
    if trim_chars(cs.as_slice()).len() == 0 {
        push_str(&mut out, "Search files with ripgrep");
    } else if matches == 0 && !failed {
        push_str(&mut out, "No matches");
    } else if matches == 1 {
        push_str(&mut out, "1 match");
    } else {
        push_count(&mut out, matches);
        push_str(&mut out, " matches");
    }
    out
}

/// The slide after `index`, if the deck has one.
pub fn next_slide(index: usize, len: usize) -> (r: usize)
    ensures
        r == if index + 1 < len {
            index + 1
        } else {
            index as int
        },
{
    if index < len && index + 1 < len {
        index + 1
    } else {
        index
    }
}

/// The slide before `index`, if there is one.
pub fn previous_slide(index: usize) -> (r: usize)
    ensures
        r == if index > 0 {
            index - 1
        } else {
            0
        },
{
    if index > 0 {
        index - 1
    } else {
        0
    }
}

/// The last slide of a deck of `len` slides; the first of an empty one.
pub fn last_slide(len: usize) -> (r: usize)
    ensures
        r == if len > 0 {
            len - 1
        } else {
            0
        },
{
    if len > 0 {
        len - 1
    } else {
        0
    }
}

/// What the reader window is showing or doing.
#[derive(Debug, Clone, PartialEq, Eq)]
pub enum Status {
    Empty,
    Loaded(String),
    CompilingTex(String),
    CompiledTex { source: String, output: String },
    Hovering(String),
    Error(String),
}

/// The name of a status in a report.
pub open spec fn status_label_of(status: Status) -> Seq<char> {
    match status {
        Status::Empty => "empty"@,
        Status::Loaded(_) => "loaded"@,
        Status::CompilingTex(_) => "compiling_tex"@,
        Status::CompiledTex { .. } => "compiled_tex"@,
        Status::Hovering(_) => "hovering"@,
        Status::Error(_) => "error"@,
    }
}

impl Status {
    /// The name of the status in a report.
    pub fn label(&self) -> (r: &'static str)
        ensures
            r@ == status_label_of(*self),
    {
        match self {
            Status::Empty => "empty",
            Status::Loaded(_) => "loaded",
            Status::CompilingTex(_) => "compiling_tex",
            Status::CompiledTex { .. } => "compiled_tex",
            Status::Hovering(_) => "hovering",
            Status::Error(_) => "error",
        }
    }
}

/// What the header says of the window: the slide on show while presenting,
/// else what the window is showing or doing.
pub open spec fn header_subtitle_of(
    deck: Option<Seq<(Seq<char>, Seq<char>)>>,
    slide_index: usize,
    status: Status,
    history_path: Seq<char>,
) -> Seq<char> {
    match deck {
        Some(slides) => {
            let title = if slide_index < slides.len() {
                slides[slide_index as int].0
            } else {
                "Untitled Slide"@
            };
            "Slide "@ + decimal((slide_index + 1) as nat) + seq!['/'] + decimal(slides.len()) + " - "@
                + title
        },
        None => match status {
            Status::Empty => "No document open - "@ + history_path,
            Status::Loaded(p) => p@,
            Status::CompilingTex(p) => "Compiling "@ + p@,
            Status::CompiledTex { source, output } => "Compiled "@ + source@ + " -> "@ + output@,
            Status::Hovering(p) => "Drop to open "@ + p@,
            Status::Error(e) => e@,
        },
    }
}

/// What the header says of the window, given the deck on show (if any), the
/// slide shown, the status and where the history is kept.
pub fn header_subtitle(
    deck: Option<&PresentationDeck>,
    slide_index: usize,
    status: &Status,
    history_path: &str,
) -> (r: String)
    ensures
        r@ == header_subtitle_of(
            (match deck {
                Some(d) => Some(d@),
                None => None,
            }),
            slide_index,
            *status,
            history_path@,
        ),
{
    let mut out = String::new();
    match deck {
        Some(d) => {
            let slides = d.slides();
            push_str(&mut out, "Slide ");
            let shown = decimal_chars_wide(slide_index as u128 + 1);
            push_chars(&mut out, shown.as_slice());
            out.push('/');
            push_count(&mut out, slides.len());
            push_str(&mut out, " - ");
            if slide_index < slides.len() {
                assert(slides.deep_view()[slide_index as int] == slides@[slide_index as int].deep_view());
                push_str(&mut out, slides[slide_index].title());
            } else {
                push_str(&mut out, "Untitled Slide");
            }
        },
        None => match status {
            Status::Empty => {
                push_str(&mut out, "No document open - ");
                push_str(&mut out, history_path);
            },
            Status::Loaded(p) => push_str(&mut out, p.as_str()),
            Status::CompilingTex(p) => {
                push_str(&mut out, "Compiling ");
                push_str(&mut out, p.as_str());
            },
            Status::CompiledTex { source, output } => {
                push_str(&mut out, "Compiled ");
                push_str(&mut out, source.as_str());
                push_str(&mut out, " -> ");
                push_str(&mut out, output.as_str());
            },
            Status::Hovering(p) => {
                push_str(&mut out, "Drop to open ");
                push_str(&mut out, p.as_str());
            },
            Status::Error(e) => push_str(&mut out, e.as_str()),
        },
    }
    out
}

/// The split button's label: the two documents' shares of the width while
/// the view is split.
pub open spec fn split_label_of(secondary: Option<usize>, primary_width: u16) -> Seq<char> {
    if secondary is Some {
        "Split "@ + decimal(primary_width as nat) + seq!['/'] + decimal((100 - primary_width) as nat)
    } else {
        "Split"@
    }
}

/// The split button's label.
pub fn split_label(split: &SplitViewState) -> (r: String)
    ensures
        r@ == split_label_of(split@.0, split@.1),
{
    let mut out = String::new();
    if split.secondary_index().is_some() {
        let (primary, secondary) = split.widths();
        push_str(&mut out, "Split ");
        push_count(&mut out, primary as usize);
        out.push('/');
        push_count(&mut out, secondary as usize);
    } else {
        push_str(&mut out, "Split");
    }
    out
}

/// Which header buttons show as active and which can be pressed.
#[derive(Debug, Clone, Copy, PartialEq, Eq)]
pub struct HeaderControls {
    pub split_active: bool,
    pub split_enabled: bool,
    pub editing: bool,
    pub edit_enabled: bool,
    pub save_enabled: bool,
    pub presenting: bool,
    pub present_enabled: bool,
    pub previous_slide_enabled: bool,
    pub next_slide_enabled: bool,
}

/// The header's buttons, from the number of open documents, whether one is
/// active, whether the view is split, whether an edit is open and has
/// unsaved changes, the number of slides on show while presenting, and the
/// slide shown.
pub fn header_controls(
    open_documents: usize,
    has_active: bool,
    split: bool,
    editing: bool,
    dirty: bool,
    presentation_len: Option<usize>,
    slide_index: usize,
) -> (r: HeaderControls)
    ensures
        r.split_active == split,
        r.split_enabled == (open_documents > 1),
        r.editing == editing,
        r.edit_enabled == has_active,
        r.save_enabled == (editing && dirty),
        r.presenting == (presentation_len is Some),
        r.present_enabled == has_active,
        r.previous_slide_enabled == (presentation_len is Some && slide_index > 0),
        r.next_slide_enabled == (match presentation_len {
            Some(n) => slide_index + 1 < n,
            None => false,
        }),
{
    let next = match presentation_len {
        Some(n) => slide_index < n && n - slide_index > 1,
        None => false,
    };
    HeaderControls {
        split_active: split,
        split_enabled: open_documents > 1,
        editing,
        edit_enabled: has_active,
        save_enabled: editing && dirty,
        presenting: presentation_len.is_some(),
        present_enabled: has_active,
        previous_slide_enabled: presentation_len.is_some() && slide_index > 0,
        next_slide_enabled: next,
    }
}

/// What fills the window below the header.
#[derive(Debug, Clone, Copy, PartialEq, Eq, Structural)]
pub enum ReaderBody {
    Empty,
    Editing,
    Presenting,
    Zen,
    Split,
    Single,
}

/// What fills the window below the header: nothing to show without an
/// active document; else the editor while editing, the slides while
/// presenting, the bare reader in zen mode, and the reader, split or not.
pub open spec fn reader_body_of(has_active: bool, editing: bool, presenting: bool, zen: bool, split: bool) -> ReaderBody {
    if !has_active {
        ReaderBody::Empty
    } else if editing {
        ReaderBody::Editing
    } else if presenting {
        ReaderBody::Presenting
    } else if zen {
        ReaderBody::Zen
    } else if split {
        ReaderBody::Split
    } else {
        ReaderBody::Single
    }
}

/// The window's layout: what fills it below the header, and whether the tab
/// bar shows (not in zen mode nor while presenting).
pub fn window_layout(has_active: bool, editing: bool, presenting: bool, zen: bool, split: bool) -> (r: (ReaderBody, bool))
    ensures
        r.0 == reader_body_of(has_active, editing, presenting, zen, split),
        r.1 == !(zen || presenting),
{
    let body = if !has_active {
        ReaderBody::Empty
    } else if editing {
        ReaderBody::Editing
    } else if presenting {
        ReaderBody::Presenting
    } else if zen {
        ReaderBody::Zen
    } else if split {
        ReaderBody::Split
    } else {
        ReaderBody::Single
    };
    (body, !(zen || presenting))
}

/// The heading and the detail line shown when no document is open.
pub open spec fn empty_state_of(status: Status) -> (Seq<char>, Seq<char>) {
    match status {
        Status::Empty => (
            "Open a Markdown file"@,
            "Launch with paperview-gui <file> to preview the native reader shell."@,
        ),
        Status::Loaded(_) => ("Document loaded"@, ""@),
        Status::CompilingTex(_) => ("Compiling LaTeX"@, "Tectonic is generating a PDF."@),
        Status::CompiledTex { .. } => ("LaTeX compiled"@, "Generated PDF opened externally."@),
        Status::Hovering(_) => ("Drop to open"@, "Release the file to preview it in PaperView."@),
        Status::Error(e) => ("Could not open document"@, e@),
    }
}

/// The heading and the detail line shown when no document is open.
pub fn empty_state_text(status: &Status) -> (r: (String, String))
    ensures
        (r.0@, r.1@) == empty_state_of(*status),
{
    let mut title = String::new();
    let mut detail = String::new();
    match status {
        Status::Empty => {
            push_str(&mut title, "Open a Markdown file");
            push_str(&mut detail, "Launch with paperview-gui <file> to preview the native reader shell.");
        },
        Status::Loaded(_) => push_str(&mut title, "Document loaded"),
        Status::CompilingTex(_) => {
            push_str(&mut title, "Compiling LaTeX");
            push_str(&mut detail, "Tectonic is generating a PDF.");
        },
        Status::CompiledTex { .. } => {
            push_str(&mut title, "LaTeX compiled");
            push_str(&mut detail, "Generated PDF opened externally.");
        },
        Status::Hovering(_) => {
            push_str(&mut title, "Drop to open");
            push_str(&mut detail, "Release the file to preview it in PaperView.");
        },
        Status::Error(e) => {
            push_str(&mut title, "Could not open document");
            push_str(&mut detail, e.as_str());
        },
    }
    proof {
        reveal_strlit("");
    }
    (title, detail)
}

/// What the window does with its command-line arguments.
#[derive(Debug, Clone, PartialEq, Eq)]
pub enum StartupAction {
    /// No argument: start with nothing open.
    Empty,
    /// A `.tex` file: compile it and open the PDF.
    CompileTex(String),
    /// Any other file: open it in the reader.
    OpenDocument(String),
    /// More than one argument: start empty with this error.
    Usage(String),
}

/// What the window does with its command-line arguments.
pub fn startup_action(args: &[String]) -> (r: StartupAction)
    ensures
        args@.len() == 0 ==> r == StartupAction::Empty,
        args@.len() == 1 ==> match r {
            StartupAction::CompileTex(p) => p@ == args@[0]@ && file_type_of_path(args@[0]@)
                == Some(SupportedFileType::Tex),
            StartupAction::OpenDocument(p) => p@ == args@[0]@ && file_type_of_path(args@[0]@)
                != Some(SupportedFileType::Tex),
            _ => false,
        },
        args@.len() > 1 ==> (r matches StartupAction::Usage(m) && m@ == "usage: paperview-gui [file]"@),
{
    if args.len() == 0 {
        StartupAction::Empty
    } else if args.len() == 1 {
        let path = args[0].as_str();
        let mut owned = String::new();
        push_str(&mut owned, path);
        match SupportedFileType::from_path(path) {
            Some(SupportedFileType::Tex) => StartupAction::CompileTex(owned),
            _ => StartupAction::OpenDocument(owned),
        }
    } else {
        let mut m = String::new();
        push_str(&mut m, "usage: paperview-gui [file]");
        StartupAction::Usage(m)
    }
}

/// The status once dragged files leave the window: while it showed them
/// hovering, back to the active document's path, or empty without one; any
/// other status stays.
pub fn hover_left_status(status: Status, active_path: Option<&str>) -> (r: Status)
    ensures
        !(status is Hovering) ==> r == status,
        status is Hovering ==> match active_path {
            Some(p) => r matches Status::Loaded(q) && q@ == p@,
            None => r == Status::Empty,
        },
{
    match status {
        Status::Hovering(_) => match active_path {
            Some(p) => {
                let mut q = String::new();
                push_str(&mut q, p);
                Status::Loaded(q)
            },
            None => Status::Empty,
        },
        other => other,
    }
}

} // verus!
