use vstd::prelude::*;

use crate::document::{document_title_of, Document};
use crate::parser::cmark::markdown_events;
use crate::parser::parsed_of;
use crate::text::{push_str, TextSource};

verus! {

/// An editor buffer over a document: the file it saves to, the source as
/// last saved, and the text being edited.
#[derive(Debug, Clone, PartialEq, Eq)]
pub struct EditSession {
    path: Option<String>,
    original_source: String,
    buffer: String,
}

/// The state of an edit session: its file, its saved source, its buffer.
pub struct EditView {
    pub path: Option<Seq<char>>,
    pub original_source: Seq<char>,
    pub buffer: Seq<char>,
}

impl View for EditSession {
    type V = EditView;

    closed spec fn view(&self) -> EditView {
        EditView {
            path: self.path.deep_view(),
            original_source: self.original_source@,
            buffer: self.buffer@,
        }
    }
}

/// Why a buffer could not be saved.
#[derive(Debug, Clone, PartialEq, Eq)]
pub enum EditSessionError {
    MissingPath,
    WriteFailed { path: String, message: String },
}

impl EditSessionError {
    /// The error as one line of text.
    pub fn message(&self) -> (r: String)
        ensures
            r@ == match self {
                EditSessionError::MissingPath => "cannot save an editor buffer without a path"@,
                EditSessionError::WriteFailed { path, message } => "failed to write "@ + path@ + ": "@
                    + message@,
            },
    {
        let mut out = String::new();
        match self {
            EditSessionError::MissingPath => {
                push_str(&mut out, "cannot save an editor buffer without a path");
            },
            EditSessionError::WriteFailed { path, message } => {
                push_str(&mut out, "failed to write ");
                push_str(&mut out, path.as_str());
                push_str(&mut out, ": ");
                push_str(&mut out, message.as_str());
            },
        }
        out
    }
}

impl EditSession {
    /// A clean session over `document`: the buffer holds its source.
    pub fn from_document(document: &Document) -> (r: EditSession)
        ensures
            r@ == (EditView {
                path: document.path_view(),
                original_source: document.source_view(),
                buffer: document.source_view(),
            }),
    {
        let path = match document.path() {
            Some(p) => Some(p.clone()),
            None => None,
        };
        EditSession {
            path,
            original_source: document.source().to_owned(),
            buffer: document.source().to_owned(),
        }
    }

    /// The file the buffer saves to.
    pub fn path(&self) -> (r: Option<&String>)
        ensures
            r.deep_view() == self@.path,
    {
        self.path.as_ref()
    }

    /// The text being edited.
    pub fn buffer(&self) -> (r: &str)
        ensures
            r@ == self@.buffer,
    {
        self.buffer.as_str()
    }

    /// Replaces the text being edited.
    pub fn replace_buffer<S: TextSource>(&mut self, source: S)
        ensures
            final(self)@ == (EditView { buffer: source.text_of(), ..old(self)@ }),
    {
        self.buffer = source.into_string();
    }

    /// Whether the buffer differs from the source as last saved.
    pub fn is_dirty(&self) -> (r: bool)
        ensures
            r == (self@.buffer != self@.original_source),
    {
        !(self.buffer == self.original_source)
    }

    /// The document the buffer holds now, from the session's file.
    pub fn preview_document(&self) -> (doc: Document)
        ensures
            doc.path_view() == self@.path,
            doc.source_view() == self@.buffer,
            doc.parsed_view() == parsed_of(markdown_events(self@.buffer), self@.buffer),
            doc.title_view() == document_title_of(doc.parsed_view()),
    {
        let document = Document::from_source(self.buffer.clone());
        match &self.path {
            Some(path) => document.with_path(path),
            None => document,
        }
    }

    /// Where the buffer is saved: the session's file, or `MissingPath`.
    pub fn save_target(&self) -> (r: Result<String, EditSessionError>)
        ensures
            match self@.path {
                Some(p) => r matches Ok(s) && s@ == p,
                None => r == Err::<String, EditSessionError>(EditSessionError::MissingPath),
            },
    {
        match &self.path {
            Some(p) => Ok(p.clone()),
            None => Err(EditSessionError::MissingPath),
        }
    }

    /// After the buffer was written to its file: the buffer becomes the saved
    /// source, and the saved document is given back.
    pub fn mark_saved(&mut self) -> (doc: Document)
        ensures
            final(self)@ == (EditView { original_source: old(self)@.buffer, ..old(self)@ }),
            doc.path_view() == old(self)@.path,
            doc.source_view() == old(self)@.buffer,
            doc.parsed_view() == parsed_of(markdown_events(old(self)@.buffer), old(self)@.buffer),
            doc.title_view() == document_title_of(doc.parsed_view()),
    {
        self.original_source = self.buffer.clone();
        self.preview_document()
    }
}

/// A session is clean just after it starts and just after it is saved.
pub proof fn lemma_clean_after_start_and_save(started: EditView, saved_before: EditView, saved_after: EditView)
    requires
        started.buffer == started.original_source,
        saved_after == (EditView { original_source: saved_before.buffer, ..saved_before }),
    ensures
        !(started.buffer != started.original_source),
        !(saved_after.buffer != saved_after.original_source),
{
}


/// A session after it was given each of `buffers` in turn with
/// `replace_buffer`: the saved text stays, and the buffer is the last one
/// given.
pub open spec fn after_replacements(start: EditView, buffers: Seq<Seq<char>>) -> EditView
    decreases buffers.len(),
{
    if buffers.len() == 0 {
        start
    } else {
        EditView { buffer: buffers.last(), ..after_replacements(start, buffers.drop_last()) }
    }
}

/// A session opened on a document and then given any sequence of buffers,
/// with no save between, is dirty exactly when its buffer differs from the
/// document's text.
pub proof fn lemma_dirty_iff_buffer_differs(path: Option<Seq<char>>, source: Seq<char>, buffers: Seq<Seq<char>>)
    ensures
        ({
            let v = after_replacements(EditView { path, original_source: source, buffer: source }, buffers);
            &&& v.original_source == source
            &&& v.buffer == if buffers.len() == 0 {
                source
            } else {
                buffers.last()
            }
            &&& (v.buffer != v.original_source) == (v.buffer != source)
        }),
    decreases buffers.len(),
{
    if buffers.len() > 0 {
        lemma_dirty_iff_buffer_differs(path, source, buffers.drop_last());
    }
}

/// What asking to leave the editor did.
#[derive(Debug, Clone, Copy, PartialEq, Eq, Structural)]
pub enum LeaveOutcome {
    /// There was nothing unsaved, and the editor closed.
    Closed,
    /// The unsaved edits were dropped on the second request, and the editor closed.
    Discarded,
    /// There are unsaved edits: the editor stays open until asked again.
    Warned,
}

impl LeaveOutcome {
    /// Whether the editor closed.
    pub fn left(self) -> (r: bool)
        ensures
            r == (self != LeaveOutcome::Warned),
    {
        match self {
            LeaveOutcome::Warned => false,
            _ => true,
        }
    }

    /// The status line that reports the outcome.
    pub fn message(self) -> (r: &'static str)
        ensures
            r@ == match self {
                LeaveOutcome::Closed => "Editing Mode closed"@,
                LeaveOutcome::Discarded => "Discarded unsaved edits"@,
                LeaveOutcome::Warned => "Unsaved edits. Press Esc again to discard or Ctrl+S to save."@,
            },
    {
        match self {
            LeaveOutcome::Closed => "Editing Mode closed",
            LeaveOutcome::Discarded => "Discarded unsaved edits",
            LeaveOutcome::Warned => "Unsaved edits. Press Esc again to discard or Ctrl+S to save.",
        }
    }
}

/// Makes unsaved edits survive one request to leave: leaving with unsaved
/// edits takes a second request with no edit or save in between.
#[derive(Debug, Clone, Copy, PartialEq, Eq, Structural)]
pub struct DiscardGuard {
    pub pending: bool,
}

/// The outcome of a request to leave, and whether a discard is pending after it.
pub open spec fn leave_of(pending: bool, dirty: bool) -> (LeaveOutcome, bool) {
    if !dirty {
        (LeaveOutcome::Closed, false)
    } else if pending {
        (LeaveOutcome::Discarded, false)
    } else {
        (LeaveOutcome::Warned, true)
    }
}

impl DiscardGuard {
    /// No discard pending.
    pub fn new() -> (r: DiscardGuard)
        ensures
            !r.pending,
    {
        DiscardGuard { pending: false }
    }

    /// An edit or a save: a later request to leave warns again.
    pub fn reset(&mut self)
        ensures
            !final(self).pending,
    {
        self.pending = false;
    }

    /// A request to leave the editor, given whether there are unsaved edits.
    pub fn request_leave(&mut self, dirty: bool) -> (r: LeaveOutcome)
        ensures
            (r, final(self).pending) == leave_of(old(self).pending, dirty),
    {
        if !dirty {
            self.pending = false;
            LeaveOutcome::Closed
        } else if self.pending {
            self.pending = false;
            LeaveOutcome::Discarded
        } else {
            self.pending = true;
            LeaveOutcome::Warned
        }
    }
}

/// Unsaved edits are never dropped by one request: the first request after
/// an edit or save only warns, and the second one, with nothing in between,
/// discards.
pub proof fn lemma_discard_takes_two_requests(pending: bool)
    ensures
        leave_of(false, true).0 == LeaveOutcome::Warned,
        leave_of(leave_of(false, true).1, true).0 == LeaveOutcome::Discarded,
        leave_of(pending, true).0 != LeaveOutcome::Closed,
        leave_of(pending, false).0 == LeaveOutcome::Closed,
{
}

} // verus!
