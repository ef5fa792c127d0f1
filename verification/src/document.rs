use vstd::prelude::*;

use crate::parser::cmark::markdown_events;
use crate::parser::tasks::{lemma_task_marker_update, task_marker_at, task_marker_range};
use crate::parser::{first_h1_title, parse_markdown, parsed_of, BlockView, ParsedDocument};
use crate::paths::{extension, path_extension};
use crate::search::{search_lines, search_of, SearchMatch};
use crate::stats::{document_stats, reading_minutes, word_count_of, DocumentStats};
use crate::text::{
    char_ascii_lower, chars_eq, chars_of, first_of, flatten, lemma_first_of_bound, push_str, seq_ascii_lower,
    split_inclusive,
    split_inclusive_chars, string_of, TextSource,
};

verus! {

/// The title a document shows: its first level-one heading, else "Untitled".
pub open spec fn document_title_of(blocks: Seq<BlockView>) -> Seq<char> {
    match first_h1_title(blocks) {
        Some(title) => title,
        None => "Untitled"@,
    }
}

/// A Markdown document: its source, what it parses to, its title, and the
/// file it came from, if any.
#[derive(Debug, PartialEq, Eq)]
pub struct Document {
    path: Option<String>,
    title: String,
    source: String,
    parsed: ParsedDocument,
}

impl Document {
    /// The parse and the title always follow from the source.
    #[verifier::type_invariant]
    spec fn consistent(self) -> bool {
        &&& self.parsed.deep_view() == parsed_of(markdown_events(self.source@), self.source@)
        &&& self.title@ == document_title_of(self.parsed.deep_view())
    }

    /// The file the document came from.
    pub closed spec fn path_view(self) -> Option<Seq<char>> {
        self.path.deep_view()
    }

    /// The Markdown source.
    pub closed spec fn source_view(self) -> Seq<char> {
        self.source@
    }

    /// The parsed blocks.
    pub closed spec fn parsed_view(self) -> Seq<BlockView> {
        self.parsed.deep_view()
    }

    /// The title.
    pub closed spec fn title_view(self) -> Seq<char> {
        self.title@
    }

    /// The document read from `path`: `contents` is what reading the file gave,
    /// or the reason it failed. The type check comes before the read.
    pub fn open(path: &str, contents: Result<String, String>) -> (r: Result<Document, DocumentError>)
        ensures
            file_type_of_path(path@) is None ==> (r matches Err(DocumentError::UnsupportedFileType { path: p }) && p@ == path@),
            file_type_of_path(path@) == Some(SupportedFileType::Tex) ==> (r matches Err(
                DocumentError::CompiledFileRequiresCompile { path: p, file_type: SupportedFileType::Tex },
            ) && p@ == path@),
            (file_type_of_path(path@) matches Some(t) && t != SupportedFileType::Tex) ==> match contents {
                Err(m) => r matches Err(DocumentError::ReadFailed { path: p, message: e }) && p@ == path@ && e@ == m@,
                Ok(s) => r matches Ok(doc) && doc.path_view() == Some(path@) && doc.source_view() == s@
                    && doc.parsed_view() == parsed_of(markdown_events(s@), s@)
                    && doc.title_view() == document_title_of(doc.parsed_view()),
            },
    {
        match openable_file_type(path) {
            Err(e) => Err(e),
            Ok(_) => match contents {
                Err(m) => Err(DocumentError::ReadFailed { path: path.to_owned(), message: m }),
                Ok(s) => Ok(Document::from_source(s).with_path(path)),
            },
        }
    }

    /// A document with no file behind it, parsed from `source`.
    pub fn from_source<S: TextSource>(source: S) -> (doc: Document)
        ensures
            doc.path_view() is None,
            doc.source_view() == source.text_of(),
            doc.parsed_view() == parsed_of(markdown_events(source.text_of()), source.text_of()),
            doc.title_view() == document_title_of(doc.parsed_view()),
    {
        let source = source.into_string();
        let parsed = parse_markdown(source.as_str());
        let title = match parsed.title() {
            Some(t) => t,
            None => "Untitled".to_owned(),
        };
        Document { path: None, title, source, parsed }
    }

    /// The same document, marked as coming from `path`.
    pub fn with_path<P: TextSource>(self, path: P) -> (doc: Document)
        ensures
            doc.path_view() == Some(path.text_of()),
            doc.source_view() == self.source_view(),
            doc.parsed_view() == self.parsed_view(),
            doc.title_view() == self.title_view(),
    {
        let mut doc = self;
        proof {
            use_type_invariant(&doc);
        }
        doc.path = Some(path.into_string());
        doc
    }

    /// The file the document came from, if any.
    pub fn path(&self) -> (r: Option<&String>)
        ensures
            r.deep_view() == self.path_view(),
    {
        self.path.as_ref()
    }

    /// The title: the first level-one heading, else "Untitled".
    pub fn title(&self) -> (r: &str)
        ensures
            r@ == self.title_view(),
            r@ == document_title_of(self.parsed_view()),
    {
        proof {
            use_type_invariant(self);
        }
        self.title.as_str()
    }

    /// The Markdown source.
    pub fn source(&self) -> (r: &str)
        ensures
            r@ == self.source_view(),
    {
        self.source.as_str()
    }

    /// The parsed document.
    pub fn parsed(&self) -> (r: &ParsedDocument)
        ensures
            r.deep_view() == self.parsed_view(),
            r.deep_view() == parsed_of(markdown_events(self.source_view()), self.source_view()),
    {
        proof {
            use_type_invariant(self);
        }
        &self.parsed
    }

    /// The lines of the source that hold `query`, ignoring case.
    pub fn search(&self, query: &str) -> (r: Vec<SearchMatch>)
        ensures
            r.deep_view() == search_of(self.source_view(), query@),
    {
        search_lines(self.source.as_str(), query)
    }

    /// Word, line, character and heading counts of the document.
    pub fn stats(&self) -> (r: DocumentStats)
        ensures
            r.word_count == word_count_of(self.source_view()),
            r.estimated_reading_minutes == reading_minutes(word_count_of(self.source_view())),
            r.character_count == self.source_view().len(),
            r.line_count == crate::text::lines(self.source_view()).len(),
            r.heading_count == crate::parser::toc_of(self.parsed_view()).len(),
            r.headings.deep_view() == crate::parser::toc_of(self.parsed_view()).map_values(
                |item: crate::parser::TocView| crate::stats::stats_heading_of(item),
            ),
    {
        document_stats(self.source.as_str(), &self.parsed)
    }
}

/// The content of a piece from `split_inclusive('\n')`: without its `\n`.
pub open spec fn piece_content(piece: Seq<char>) -> Seq<char> {
    if piece.len() > 0 && piece.last() == '\n' {
        piece.drop_last()
    } else {
        piece
    }
}

/// The line ending of a piece: its `\n`, or nothing.
pub open spec fn piece_newline(piece: Seq<char>) -> Seq<char> {
    if piece.len() > 0 && piece.last() == '\n' {
        seq!['\n']
    } else {
        Seq::empty()
    }
}

/// A task line with its checkbox flipped: `[ ]` becomes `[x]` and a checked
/// box becomes `[ ]`; nothing for a line without a checkbox.
pub open spec fn toggled_line(content: Seq<char>) -> Option<Seq<char>> {
    match task_marker_at(content) {
        Some((i, checked)) => Some(content.update(i as int, if checked { ' ' } else { 'x' })),
        None => None,
    }
}

/// `source` with the checkbox on line `line_index` flipped; nothing when
/// that line does not exist or holds no task checkbox.
pub open spec fn toggle_task_line_of(source: Seq<char>, line_index: int) -> Option<Seq<char>> {
    let pieces = split_inclusive(source);
    if 0 <= line_index < pieces.len() {
        let piece = pieces[line_index];
        match toggled_line(piece_content(piece)) {
            Some(line) => Some(flatten(pieces.update(line_index, line + piece_newline(piece)))),
            None => None,
        }
    } else {
        None
    }
}

proof fn lemma_flatten_push(pieces: Seq<Seq<char>>, p: Seq<char>)
    ensures
        flatten(pieces.push(p)) == flatten(pieces) + p,
{
    assert(pieces.push(p).drop_last() =~= pieces);
}

/// Flips the task checkbox on line `line_index` of `source`, leaving every
/// other character as it was.
pub fn toggle_task_line_source(source: &str, line_index: usize) -> (r: Option<String>)
    ensures
        r.deep_view() == toggle_task_line_of(source@, line_index as int),
{
    let cs = chars_of(source);
    let pieces = split_inclusive_chars(cs.as_slice());
    let ghost pv = pieces.deep_view();
    if line_index >= pieces.len() {
        return None;
    }
    assert(pieces[line_index as int].deep_view() =~= pieces[line_index as int]@);
    let piece = &pieces[line_index];
    let n = piece.len();
    let has_newline = n > 0 && piece[n - 1] == '\n';
    let content_len = if has_newline {
        n - 1
    } else {
        n
    };
    let content = crate::text::slice_chars(piece.as_slice(), 0, content_len);
    assert(content@ =~= piece_content(piece@));
    let (marker, checked) = match task_marker_range(content.as_slice()) {
        Some(found) => found,
        None => return None,
    };
    let mut line = content.clone();
    line.set(marker, if checked {
        ' '
    } else {
        'x'
    });
    if has_newline {
        line.push('\n');
    }
    let ghost new_line = line@;
    assert(new_line =~= toggled_line(piece_content(piece@)).unwrap() + piece_newline(piece@));
    let ghost updated = pv.update(line_index as int, new_line);
    let mut out: Vec<char> = Vec::new();
    let mut i: usize = 0;
    assert(updated.take(0) =~= Seq::<Seq<char>>::empty());
    while i < pieces.len()
        invariant
            i <= pieces@.len(),
            pv == pieces.deep_view(),
            updated.len() == pv.len(),
            line_index < pieces@.len(),
            updated == pv.update(line_index as int, new_line),
            new_line == line@,
            out@ == flatten(updated.take(i as int)),
        decreases pieces@.len() - i,
    {
        proof {
            lemma_flatten_push(updated.take(i as int), updated[i as int]);
            assert(updated.take(i + 1) =~= updated.take(i as int).push(updated[i as int]));
        }
        if i == line_index {
            crate::text::extend_chars(&mut out, line.as_slice());
        } else {
            assert(pieces[i as int].deep_view() =~= pieces[i as int]@);
            crate::text::extend_chars(&mut out, pieces[i].as_slice());
        }
        i = i + 1;
    }
    assert(updated.take(pieces@.len() as int) =~= updated);
    Some(string_of(out.as_slice()))
}

/// A kind of file the viewer knows.
#[derive(Debug, Clone, Copy, PartialEq, Eq, Structural)]
pub enum SupportedFileType {
    Markdown,
    PlainText,
    Tex,
}

/// The file type for an extension, compared without regard to ASCII case.
pub open spec fn file_type_of_extension(ext: Seq<char>) -> Option<SupportedFileType> {
    let e = seq_ascii_lower(ext);
    if e == seq!['m', 'd'] || e == seq!['m', 'a', 'r', 'k', 'd', 'o', 'w', 'n'] {
        Some(SupportedFileType::Markdown)
    } else if e == seq!['t', 'x', 't'] {
        Some(SupportedFileType::PlainText)
    } else if e == seq!['t', 'e', 'x'] {
        Some(SupportedFileType::Tex)
    } else {
        None
    }
}

/// The file type of a path, by its extension.
pub open spec fn file_type_of_path(path: Seq<char>) -> Option<SupportedFileType> {
    match path_extension(path) {
        Some(ext) => file_type_of_extension(ext),
        None => None,
    }
}

/// The characters of `s`, ASCII letters lowered.
fn ascii_lowercase(s: &[char]) -> (out: Vec<char>)
    ensures
        out@ == seq_ascii_lower(s@),
{
    let mut out: Vec<char> = Vec::new();
    let mut i: usize = 0;
    while i < s.len()
        invariant
            i <= s@.len(),
            out@ == seq_ascii_lower(s@.take(i as int)),
        decreases s@.len() - i,
    {
        out.push(char_ascii_lower(s[i]));
        assert(out@ =~= seq_ascii_lower(s@.take(i + 1)));
        i = i + 1;
    }
    assert(s@.take(s@.len() as int) =~= s@);
    out
}

impl SupportedFileType {
    /// The type of the file at `path`: Markdown for `.md` and `.markdown`,
    /// plain text for `.txt`, TeX for `.tex`, in any ASCII case.
    pub fn from_path(path: &str) -> (r: Option<SupportedFileType>)
        ensures
            r == file_type_of_path(path@),
    {
        let ext = match extension(path) {
            Some(e) => e,
            None => return None,
        };
        let cs = chars_of(ext.as_str());
        let e = ascii_lowercase(cs.as_slice());
        if chars_eq(e.as_slice(), vec!['m', 'd'].as_slice())
            || chars_eq(e.as_slice(), vec!['m', 'a', 'r', 'k', 'd', 'o', 'w', 'n'].as_slice()) {
            Some(SupportedFileType::Markdown)
        } else if chars_eq(e.as_slice(), vec!['t', 'x', 't'].as_slice()) {
            Some(SupportedFileType::PlainText)
        } else if chars_eq(e.as_slice(), vec!['t', 'e', 'x'].as_slice()) {
            Some(SupportedFileType::Tex)
        } else {
            None
        }
    }

    /// Whether the reader shows such a file directly: Markdown and plain text.
    pub fn is_markdown_reader_document(self) -> (r: bool)
        ensures
            r == (self != SupportedFileType::Tex),
    {
        match self {
            SupportedFileType::Markdown | SupportedFileType::PlainText => true,
            SupportedFileType::Tex => false,
        }
    }

    /// The name of the type, as messages show it.
    pub fn extension_label(self) -> (r: &'static str)
        ensures
            r@ == file_type_label(self),
    {
        match self {
            SupportedFileType::Markdown => "Markdown",
            SupportedFileType::PlainText => "plain text",
            SupportedFileType::Tex => ".tex",
        }
    }
}

/// The name of a file type, as messages show it.
pub open spec fn file_type_label(t: SupportedFileType) -> Seq<char> {
    match t {
        SupportedFileType::Markdown => "Markdown"@,
        SupportedFileType::PlainText => "plain text"@,
        SupportedFileType::Tex => ".tex"@,
    }
}

/// Why a document could not be opened.
#[derive(Debug, Clone, PartialEq, Eq)]
pub enum DocumentError {
    UnsupportedFileType { path: String },
    CompiledFileRequiresCompile { path: String, file_type: SupportedFileType },
    ReadFailed { path: String, message: String },
}

/// A document error as one line of text.
pub open spec fn document_error_text(e: DocumentError) -> Seq<char> {
    match e {
        DocumentError::UnsupportedFileType { path } => "unsupported document type: "@ + path@,
        DocumentError::CompiledFileRequiresCompile { path, file_type } => file_type_label(file_type)
            + " files must be compiled before viewing: "@ + path@,
        DocumentError::ReadFailed { path, message } => "failed to read "@ + path@ + ": "@ + message@,
    }
}

impl DocumentError {
    /// The error as one line of text.
    pub fn message(&self) -> (r: String)
        ensures
            r@ == document_error_text(*self),
    {
        let mut out = String::new();
        match self {
            DocumentError::UnsupportedFileType { path } => {
                push_str(&mut out, "unsupported document type: ");
                push_str(&mut out, path.as_str());
            },
            DocumentError::CompiledFileRequiresCompile { path, file_type } => {
                push_str(&mut out, file_type.extension_label());
                push_str(&mut out, " files must be compiled before viewing: ");
                push_str(&mut out, path.as_str());
            },
            DocumentError::ReadFailed { path, message } => {
                push_str(&mut out, "failed to read ");
                push_str(&mut out, path.as_str());
                push_str(&mut out, ": ");
                push_str(&mut out, message.as_str());
            },
        }
        out
    }
}

/// Whether the file at `path` may be read as a document: its type, or why
/// not: an unknown type, or a TeX file that must be compiled first.
pub fn openable_file_type(path: &str) -> (r: Result<SupportedFileType, DocumentError>)
    ensures
        match file_type_of_path(path@) {
            None => r matches Err(DocumentError::UnsupportedFileType { path: p }) && p@ == path@,
            Some(SupportedFileType::Tex) => r matches Err(
                DocumentError::CompiledFileRequiresCompile { path: p, file_type: SupportedFileType::Tex },
            ) && p@ == path@,
            Some(t) => r == Ok::<SupportedFileType, DocumentError>(t),
        },
{
    match SupportedFileType::from_path(path) {
        None => Err(DocumentError::UnsupportedFileType { path: path.to_owned() }),
        Some(t) => {
            if t.is_markdown_reader_document() {
                Ok(t)
            } else {
                Err(DocumentError::CompiledFileRequiresCompile { path: path.to_owned(), file_type: t })
            }
        },
    }
}


proof fn lemma_flatten_concat(a: Seq<Seq<char>>, b: Seq<Seq<char>>)
    ensures
        flatten(a + b) == flatten(a) + flatten(b),
    decreases b.len(),
{
    if b.len() == 0 {
        assert(a + b =~= a);
        assert(flatten(b) =~= Seq::<char>::empty());
        assert(flatten(a) + flatten(b) =~= flatten(a));
    } else {
        assert((a + b).drop_last() =~= a + b.drop_last());
        assert((a + b).last() == b.last());
        lemma_flatten_concat(a, b.drop_last());
        assert(flatten(a + b) =~= flatten(a) + flatten(b));
    }
}

proof fn lemma_flatten_single(x: Seq<char>)
    ensures
        flatten(seq![x]) == x,
{
    let e = seq![x].drop_last();
    assert(e.len() == 0);
    assert(flatten(e) =~= Seq::<char>::empty());
    assert(seq![x].last() == x);
    assert(flatten(seq![x]) =~= flatten(e) + x);
    assert(flatten(seq![x]) =~= x);
}

proof fn lemma_flatten_split_inclusive(s: Seq<char>)
    ensures
        flatten(split_inclusive(s)) == s,
    decreases s.len(),
{
    if s.len() == 0 {
        assert(flatten(split_inclusive(s)) =~= s);
    } else {
        match first_of(s, '\n') {
            Some(i) => {
                lemma_first_of_bound(s, '\n');
                let rest = s.skip(i + 1 as int);
                lemma_flatten_split_inclusive(rest);
                lemma_flatten_concat(seq![s.take(i + 1 as int)], split_inclusive(rest));
                lemma_flatten_single(s.take(i + 1 as int));
                assert(s.take(i + 1 as int) + rest =~= s);
            },
            None => {
                lemma_flatten_single(s);
            },
        }
    }
}

/// Pieces as `split_inclusive` cuts them: none is empty, each holds a
/// newline only as its last character, and all but the last end with one.
pub open spec fn well_split(p: Seq<Seq<char>>) -> bool {
    &&& forall|i: int| 0 <= i < p.len() ==> (#[trigger] p[i]).len() > 0
    &&& forall|i: int, k: int| 0 <= i < p.len() && 0 <= k < p[i].len() - 1 ==> #[trigger] p[i][k] != '\n'
    &&& forall|i: int| 0 <= i < p.len() - 1 ==> (#[trigger] p[i]).last() == '\n'
}

proof fn lemma_first_of_before(s: Seq<char>, c: char)
    ensures
        first_of(s, c) matches Some(i) ==> forall|k: int| 0 <= k < i ==> s[k] != c,
        first_of(s, c) is None ==> forall|k: int| 0 <= k < s.len() ==> s[k] != c,
    decreases s.len(),
{
    if s.len() > 0 && s[0] != c {
        let t = s.drop_first();
        lemma_first_of_before(t, c);
        lemma_first_of_bound(t, c);
        match first_of(t, c) {
            Some(i) => {
                assert forall|k: int| 0 <= k < i + 1 implies s[k] != c by {
                    if k > 0 {
                        assert(s[k] == t[k - 1]);
                    }
                }
            },
            None => {
                assert forall|k: int| 0 <= k < s.len() implies s[k] != c by {
                    if k > 0 {
                        assert(s[k] == t[k - 1]);
                    }
                }
            },
        }
    }
}

proof fn lemma_split_is_well_split(s: Seq<char>)
    ensures
        well_split(split_inclusive(s)),
    decreases s.len(),
{
    if s.len() > 0 {
        lemma_first_of_bound(s, '\n');
        lemma_first_of_before(s, '\n');
        match first_of(s, '\n') {
            Some(i) => {
                let head = s.take(i + 1 as int);
                let rest = split_inclusive(s.skip(i + 1 as int));
                lemma_split_is_well_split(s.skip(i + 1 as int));
                let p = seq![head] + rest;
                assert(p == split_inclusive(s));
                assert forall|a: int| 0 <= a < p.len() implies (#[trigger] p[a]).len() > 0 by {
                    if a > 0 {
                        assert(p[a] == rest[a - 1]);
                    }
                }
                assert forall|a: int, k: int| 0 <= a < p.len() && 0 <= k < p[a].len() - 1 implies #[trigger] p[a][k]
                    != '\n' by {
                    if a > 0 {
                        assert(p[a] == rest[a - 1]);
                    } else {
                        assert(p[a][k] == s[k]);
                    }
                }
                assert forall|a: int| 0 <= a < p.len() - 1 implies (#[trigger] p[a]).last() == '\n' by {
                    if a > 0 {
                        assert(p[a] == rest[a - 1]);
                    }
                }
            },
            None => {
                let p = seq![s];
                assert(p == split_inclusive(s));
                assert forall|a: int, k: int| 0 <= a < p.len() && 0 <= k < p[a].len() - 1 implies #[trigger] p[a][k]
                    != '\n' by {
                    assert(p[a] == s);
                }
            },
        }
    }
}

proof fn lemma_split_flatten(p: Seq<Seq<char>>)
    requires
        well_split(p),
    ensures
        split_inclusive(flatten(p)) == p,
    decreases p.len(),
{
    if p.len() == 0 {
        assert(split_inclusive(flatten(p)) =~= p);
    } else {
        let head = p[0];
        let t = p.drop_first();
        assert(p =~= seq![head] + t);
        lemma_flatten_concat(seq![head], t);
        lemma_flatten_single(head);
        let s = flatten(p);
        assert(s =~= head + flatten(t));
        assert(p[0] == head);
        assert(head.len() > 0);
        assert forall|a: int| 0 <= a < t.len() implies (#[trigger] t[a]).len() > 0 by {
            assert(t[a] == p[a + 1]);
        }
        assert forall|a: int, k: int| 0 <= a < t.len() && 0 <= k < t[a].len() - 1 implies #[trigger] t[a][k] != '\n' by {
            assert(t[a] == p[a + 1]);
            assert(p[a + 1][k] != '\n');
        }
        assert forall|a: int| 0 <= a < t.len() - 1 implies (#[trigger] t[a]).last() == '\n' by {
            assert(t[a] == p[a + 1]);
        }
        assert forall|k: int| 0 <= k < head.len() - 1 implies s[k] != '\n' by {
            assert(p[0][k] != '\n');
        }
        if head.last() == '\n' {
            let i = head.len() - 1;
            crate::text::lemma_first_of(s, '\n', i);
            lemma_split_flatten(t);
            assert(s.take(i + 1) =~= head);
            assert(s.skip(i + 1) =~= flatten(t));
            assert(split_inclusive(s) =~= p);
        } else {
            assert(p.len() == 1);
            assert(t.len() == 0);
            assert(flatten(t) =~= Seq::<char>::empty());
            assert(s =~= head);
            crate::text::lemma_first_of(s, '\n', s.len() as int);
            assert(split_inclusive(s) =~= p);
        }
    }
}

/// Writing `c` at `m` in the content of piece `li` writes it at one place of
/// the whole source: after the pieces before, at the same character.
proof fn lemma_piece_update(source: Seq<char>, li: int, m: int, c: char) -> (j: int)
    requires
        0 <= li < split_inclusive(source).len(),
        0 <= m < piece_content(split_inclusive(source)[li]).len(),
    ensures
        j == flatten(split_inclusive(source).take(li)).len() + m,
        0 <= j < source.len(),
        source[j] == piece_content(split_inclusive(source)[li])[m],
        flatten(
            split_inclusive(source).update(
                li,
                piece_content(split_inclusive(source)[li]).update(m, c) + piece_newline(split_inclusive(source)[li]),
            ),
        ) == source.update(j, c),
{
    let pieces = split_inclusive(source);
    let piece = pieces[li];
    let content = piece_content(piece);
    let nl = piece_newline(piece);
    let line = content.update(m, c);
    assert(piece =~= content + nl);
    assert(line + nl =~= piece.update(m, c));
    let before = pieces.take(li);
    let after = pieces.skip(li + 1);
    assert(pieces =~= before + seq![piece] + after);
    assert(pieces.update(li, line + nl) =~= before + seq![piece.update(m, c)] + after);
    lemma_flatten_concat(before + seq![piece], after);
    lemma_flatten_concat(before, seq![piece]);
    lemma_flatten_concat(before + seq![piece.update(m, c)], after);
    lemma_flatten_concat(before, seq![piece.update(m, c)]);
    lemma_flatten_single(piece);
    lemma_flatten_single(piece.update(m, c));
    lemma_flatten_split_inclusive(source);
    let j = flatten(before).len() + m;
    assert(source =~= flatten(before) + piece + flatten(after));
    assert(source[j] == content[m]);
    assert(flatten(before) + piece.update(m, c) + flatten(after) =~= source.update(j, c));
    j
}

/// Flipping a task checkbox changes one character of the source, the one
/// between the brackets, from a space to `x` or from `x` or `X` to a space,
/// and leaves every other character as it was.
pub proof fn lemma_toggle_changes_one_character(source: Seq<char>, line_index: int)
    requires
        toggle_task_line_of(source, line_index) is Some,
    ensures
        exists|j: int|
            0 <= j < source.len() && (source[j] == ' ' || source[j] == 'x' || source[j] == 'X')
                && toggle_task_line_of(source, line_index) == Some(
                source.update(j, if source[j] == ' ' { 'x' } else { ' ' }),
            ),
{
    let pieces = split_inclusive(source);
    let content = piece_content(pieces[line_index]);
    let (m1, checked) = task_marker_at(content).unwrap();
    let m = m1 - 1;
    assert(content.subrange(m as int, m + 3int)[1] == content[m1 as int]);
    let c = if checked { ' ' } else { 'x' };
    let j = lemma_piece_update(source, line_index, m1 as int, c);
    assert(c == if source[j] == ' ' { 'x' } else { ' ' });
}

/// Flipping the same checkbox twice gives the source back, except that a
/// box checked with an upper-case `X` comes back checked with `x`.
pub proof fn lemma_toggle_twice(source: Seq<char>, line_index: int)
    requires
        toggle_task_line_of(source, line_index) is Some,
    ensures
        exists|j: int|
            0 <= j < source.len() && (source[j] == ' ' || source[j] == 'x' || source[j] == 'X')
                && toggle_task_line_of(toggle_task_line_of(source, line_index).unwrap(), line_index) == Some(
                if source[j] == 'X' {
                    source.update(j, 'x')
                } else {
                    source
                },
            ),
{
    let pieces = split_inclusive(source);
    let piece = pieces[line_index];
    let content = piece_content(piece);
    let nl = piece_newline(piece);
    let (m1, checked) = task_marker_at(content).unwrap();
    let m = m1 - 1;
    assert(content.subrange(m as int, m + 3int)[1] == content[m1 as int]);
    let c1 = if checked { ' ' } else { 'x' };
    let line = content.update(m1 as int, c1);
    let once_pieces = pieces.update(line_index, line + nl);
    let once = flatten(once_pieces);
    assert(toggle_task_line_of(source, line_index) == Some(once));
    // the flipped source splits into the same lines, one of them flipped
    lemma_split_is_well_split(source);
    assert(piece =~= content + nl);
    assert(line + nl =~= piece.update(m1 as int, c1));
    assert forall|a: int, k: int| 0 <= a < once_pieces.len() && 0 <= k < once_pieces[a].len() - 1 implies #[trigger] once_pieces[a][k]
        != '\n' by {
        if a == line_index {
            assert(once_pieces[a][k] == piece.update(m1 as int, c1)[k]);
            assert(pieces[a][k] != '\n');
        } else {
            assert(pieces[a][k] != '\n');
        }
    }
    assert forall|a: int| 0 <= a < once_pieces.len() - 1 implies (#[trigger] once_pieces[a]).last() == '\n' by {
        if a == line_index {
            assert(pieces[a].last() == '\n');
            assert(piece.len() - 1 != m1);
        }
    }
    assert forall|a: int| 0 <= a < once_pieces.len() implies (#[trigger] once_pieces[a]).len() > 0 by {
        assert(pieces[a].len() > 0);
    }
    lemma_split_flatten(once_pieces);
    assert(split_inclusive(once) == once_pieces);
    let new_piece = line + nl;
    assert(once_pieces[line_index] == new_piece);
    if nl.len() > 0 {
        assert(new_piece.drop_last() =~= line);
    } else {
        assert(line.len() == content.len());
        if content.len() > 0 {
            assert(content.last() != '\n');
            assert(line.last() != '\n');
        }
        assert(new_piece =~= line);
    }
    assert(piece_content(new_piece) == line);
    assert(piece_newline(new_piece) == nl);
    lemma_task_marker_update(content, c1);
    assert(task_marker_at(line) == Some((m1, c1 == 'x')));
    let c2 = if c1 == 'x' { ' ' } else { 'x' };
    assert(line.update(m1 as int, c2) =~= content.update(m1 as int, c2));
    assert(once_pieces.update(line_index, line.update(m1 as int, c2) + nl) =~= pieces.update(
        line_index,
        content.update(m1 as int, c2) + nl,
    ));
    let j = lemma_piece_update(source, line_index, m1 as int, c2);
    lemma_flatten_split_inclusive(source);
    if source[j] != 'X' {
        assert(source.update(j, c2) =~= source);
    }
}

} // verus!
