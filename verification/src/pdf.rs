use vstd::prelude::*;

use crate::document::Document;
use crate::export::column_alignment;
use crate::parser::elements::inline::{plain_text, plain_text_of};
use crate::parser::{Block, BlockView, HeadingLevel, InlineSpan, ItemView, ListItem, SpanView, TableAlignment};
use crate::paths::{is_absolute, join, parent, path_is_absolute, path_join, path_parent};
use crate::render::{aligned_cell, column_count, list_marker, push_repeated, repeated, rule_text};
use crate::report::{bytes_text_of, format_bytes, round_half_even, tenths_text};
use crate::text::{
    char_is_ws, chars_eq, chars_of, decimal, decimal_chars, decimal_chars_wide, extend_chars, find, find_chars,
    is_blank, is_ws, lines, lines_chars, push_chars, push_str, slice_chars, starts_with,
    starts_with_chars, string_of, trim, trim_chars,
};

verus! {

/// A line of the PDF: its text, font size, left indent and space after it,
/// in points, and its outline level when it is a heading.
pub struct PdfLineView {
    pub text: Seq<char>,
    pub size: u16,
    pub indent: u16,
    pub gap_after: u16,
    pub outline_level: Option<u8>,
}

/// A line of the PDF.
#[derive(Debug, Clone, PartialEq, Eq)]
pub struct PdfLine {
    pub text: String,
    pub size: u16,
    pub indent: u16,
    pub gap_after: u16,
    pub outline_level: Option<u8>,
}

impl DeepView for PdfLine {
    type V = PdfLineView;

    open spec fn deep_view(&self) -> PdfLineView {
        PdfLineView {
            text: self.text@,
            size: self.size,
            indent: self.indent,
            gap_after: self.gap_after,
            outline_level: self.outline_level,
        }
    }
}

/// What the file behind a local image is.
#[derive(Debug, Clone, Copy, PartialEq, Eq, Structural)]
pub enum ImageFile {
    File { len: u64 },
    NotFile,
    Missing,
}

/// What was found at the path of a local image.
#[derive(Debug, Clone, PartialEq, Eq)]
pub struct ImageFileInfo {
    pub path: String,
    pub file: ImageFile,
}

impl DeepView for ImageFileInfo {
    type V = (Seq<char>, ImageFile);

    open spec fn deep_view(&self) -> (Seq<char>, ImageFile) {
        (self.path@, self.file)
    }
}

/// The most characters on a body line.
pub const PDF_BODY_WRAP_CHARS: usize = 84;
/// The widest a table column may be, in characters.
pub const PDF_TABLE_MAX_COLUMN_WIDTH: usize = 24;
/// How far tables are indented, in points.
pub const PDF_TABLE_INDENT: u16 = 14;

/// A plain line of text at a size: no indent, three points after it.
pub open spec fn line_of(text: Seq<char>, size: u16) -> PdfLineView {
    PdfLineView { text, size, indent: 0, gap_after: 3, outline_level: None }
}

/// The words over a prefix of `s`, and whether the prefix ends inside one.
pub open spec fn words_state(s: Seq<char>) -> (Seq<Seq<char>>, bool)
    decreases s.len(),
{
    if s.len() == 0 {
        (Seq::empty(), false)
    } else {
        let (ws, in_word) = words_state(s.drop_last());
        let c = s.last();
        if is_ws(c) {
            (ws, false)
        } else if in_word {
            (ws.update(ws.len() - 1, ws.last().push(c)), true)
        } else {
            (ws.push(seq![c]), true)
        }
    }
}

/// `str::split_whitespace`.
pub open spec fn words_of(s: Seq<char>) -> Seq<Seq<char>> {
    words_state(s).0
}

/// Filling lines word by word: the full lines so far, and the line being
/// filled.
pub open spec fn wrap_state(words: Seq<Seq<char>>, max: nat) -> (Seq<Seq<char>>, Seq<char>)
    decreases words.len(),
{
    if words.len() == 0 {
        (Seq::empty(), Seq::empty())
    } else {
        let (done, current) = wrap_state(words.drop_last(), max);
        let w = words.last();
        let next_len = current.len() + (if current.len() > 0 {
            1int
        } else {
            0int
        }) + w.len();
        let (done2, current2) = if next_len > max && current.len() > 0 {
            (done.push(current), Seq::<char>::empty())
        } else {
            (done, current)
        };
        (done2, if current2.len() > 0 {
            current2.push(' ') + w
        } else {
            w
        })
    }
}

/// The words of `text` filled into lines of at most `max` characters; a
/// word longer than that stands alone; an empty text gives one empty line.
pub open spec fn wrap_of(text: Seq<char>, max: nat) -> Seq<Seq<char>> {
    let (done, current) = wrap_state(words_of(text), max);
    done.push(current)
}

/// Wrapped text as lines at a size and indent.
pub open spec fn wrapped_lines_of(text: Seq<char>, size: u16, indent: u16, max: nat) -> Seq<PdfLineView> {
    wrap_of(text, max).map_values(|t: Seq<char>| PdfLineView { indent, ..line_of(t, size) })
}

/// Lines of source text, each wrapped on its own, small and indented.
pub open spec fn preformatted_lines_of(ls: Seq<Seq<char>>) -> Seq<PdfLineView>
    decreases ls.len(),
{
    if ls.len() == 0 {
        Seq::empty()
    } else {
        preformatted_lines_of(ls.drop_last()) + wrapped_lines_of(ls.last(), 10, 14, 80)
    }
}

fn word_list(s: &[char]) -> (r: Vec<Vec<char>>)
    ensures
        r.deep_view() == words_of(s@),
{
    let mut ws: Vec<Vec<char>> = Vec::new();
    let mut in_word = false;
    let mut i: usize = 0;
    assert(s@.take(0) =~= Seq::<char>::empty());
    assert(ws.deep_view() =~= Seq::<Seq<char>>::empty());
    while i < s.len()
        invariant
            i <= s@.len(),
            ws.deep_view() =~= words_state(s@.take(i as int)).0,
            in_word == words_state(s@.take(i as int)).1,
            in_word ==> ws@.len() > 0,
        decreases s@.len() - i,
    {
        assert(s@.take(i + 1).drop_last() =~= s@.take(i as int));
        let c = s[i];
        let ghost before = ws.deep_view();
        if char_is_ws(c) {
            in_word = false;
        } else if in_word {
            let last = ws.len() - 1;
            let mut w = ws.remove(last);
            assert(ws.deep_view() =~= before.drop_last());
            assert(w@ == before.last());
            w.push(c);
            assert(w.deep_view() =~= w@);
            ws.push(w);
            assert(ws.deep_view() =~= before.drop_last().push(before.last().push(c)));
            assert(ws.deep_view() =~= before.update(before.len() - 1, before.last().push(c)));
        } else {
            let mut w: Vec<char> = Vec::new();
            w.push(c);
            assert(w.deep_view() =~= seq![c]);
            ws.push(w);
            assert(ws.deep_view() =~= before.push(seq![c]));
            in_word = true;
        }
        i = i + 1;
    }
    assert(s@.take(s@.len() as int) =~= s@);
    ws
}

/// The words of `text` filled into lines of at most `max` characters.
pub fn wrap_text(text: &[char], max: usize) -> (r: Vec<Vec<char>>)
    ensures
        r.deep_view() == wrap_of(text@, max as nat),
        r@.len() >= 1,
{
    let words = word_list(text);
    let ghost wv = words.deep_view();
    let mut done: Vec<Vec<char>> = Vec::new();
    let mut current: Vec<char> = Vec::new();
    let mut i: usize = 0;
    assert(wv.take(0) =~= Seq::<Seq<char>>::empty());
    assert(done.deep_view() =~= Seq::<Seq<char>>::empty());
    while i < words.len()
        invariant
            i <= words@.len(),
            wv == words.deep_view(),
            done.deep_view() =~= wrap_state(wv.take(i as int), max as nat).0,
            current@ =~= wrap_state(wv.take(i as int), max as nat).1,
        decreases words@.len() - i,
    {
        assert(wv.take(i + 1).drop_last() =~= wv.take(i as int));
        assert(wv.take(i + 1).last() == words[i as int]@);
        let w = &words[i];
        let sep: u128 = if current.len() > 0 {
            1
        } else {
            0
        };
        if current.len() > 0 && (current.len() as u128) + sep + (w.len() as u128) > max as u128 {
            let ghost before = done.deep_view();
            let full = current;
            assert(full.deep_view() =~= full@);
            done.push(full);
            assert(done.deep_view() =~= before.push(full@));
            current = Vec::new();
        }
        if current.len() > 0 {
            current.push(' ');
        }
        extend_chars(&mut current, w.as_slice());
        i = i + 1;
    }
    assert(wv.take(words@.len() as int) =~= wv);
    let ghost before = done.deep_view();
    assert(current.deep_view() =~= current@);
    done.push(current);
    assert(done.deep_view() =~= before.push(current@));
    done
}


fn push_wrapped(out: &mut Vec<PdfLine>, text: &[char], size: u16, indent: u16, max: usize)
    ensures
        final(out).deep_view() == old(out).deep_view() + wrapped_lines_of(text@, size, indent, max as nat),
{
    let parts = wrap_text(text, max);
    let ghost pv = parts.deep_view();
    let ghost start = out.deep_view();
    let mut i: usize = 0;
    while i < parts.len()
        invariant
            i <= parts@.len(),
            pv == parts.deep_view(),
            pv == wrap_of(text@, max as nat),
            out.deep_view() =~= start + pv.take(i as int).map_values(
                |t: Seq<char>| PdfLineView { indent, ..line_of(t, size) },
            ),
        decreases parts@.len() - i,
    {
        assert(pv[i as int] == parts[i as int]@);
        let line = PdfLine {
            text: string_of(parts[i].as_slice()),
            size,
            indent,
            gap_after: 3,
            outline_level: None,
        };
        let ghost before = out.deep_view();
        out.push(line);
        assert(out.deep_view() =~= before.push(line.deep_view()));
        assert(pv.take(i + 1) =~= pv.take(i as int).push(pv[i as int]));
        i = i + 1;
    }
    assert(pv.take(parts@.len() as int) =~= pv);
}

fn push_preformatted(out: &mut Vec<PdfLine>, text: &str)
    ensures
        final(out).deep_view() == old(out).deep_view() + preformatted_lines_of(lines(text@)),
{
    let cs = chars_of(text);
    let ls = lines_chars(cs.as_slice());
    let ghost lv = ls.deep_view();
    let ghost start = out.deep_view();
    let mut i: usize = 0;
    assert(lv.take(0) =~= Seq::<Seq<char>>::empty());
    while i < ls.len()
        invariant
            i <= ls@.len(),
            lv == ls.deep_view(),
            lv == lines(text@),
            out.deep_view() =~= start + preformatted_lines_of(lv.take(i as int)),
        decreases ls@.len() - i,
    {
        assert(lv.take(i + 1).drop_last() =~= lv.take(i as int));
        assert(lv.take(i + 1).last() == ls[i as int]@);
        push_wrapped(out, ls[i].as_slice(), 10, 14, 80);
        i = i + 1;
    }
    assert(lv.take(ls@.len() as int) =~= lv);
}

/// The font size of a heading.
pub open spec fn heading_size(level: HeadingLevel) -> u16 {
    match level {
        HeadingLevel::H1 => 20,
        HeadingLevel::H2 => 17,
        HeadingLevel::H3 => 15,
        _ => 13,
    }
}

/// The space after a heading.
pub open spec fn heading_gap(level: HeadingLevel) -> u16 {
    match level {
        HeadingLevel::H1 => 10,
        HeadingLevel::H2 => 8,
        HeadingLevel::H3 => 7,
        _ => 6,
    }
}

/// A small label line with little space after it.
pub open spec fn label_line(text: Seq<char>) -> PdfLineView {
    PdfLineView { gap_after: 2, ..line_of(text, 10) }
}

fn push_label(out: &mut Vec<PdfLine>, text: String)
    ensures
        final(out).deep_view() == old(out).deep_view().push(label_line(text@)),
{
    let line = PdfLine { text, size: 10, indent: 0, gap_after: 2, outline_level: None };
    let ghost before = out.deep_view();
    out.push(line);
    assert(out.deep_view() =~= before.push(label_line(line.text@)));
}

/// Whether an image lives on the web.
pub open spec fn is_remote_url_of(url: Seq<char>) -> bool {
    starts_with(url, "http://"@) || starts_with(url, "https://"@)
}

/// The local file an image stands for: an absolute path as it is, a relative
/// one beside the document; none for blank, URL or data sources.
pub open spec fn local_image_path_of(url: Seq<char>, document_path: Option<Seq<char>>) -> Option<Seq<char>> {
    if trim(url).len() == 0 || find(url, "://"@) is Some || starts_with(url, "data:"@) {
        None
    } else if path_is_absolute(url) {
        Some(url)
    } else {
        match document_path {
            Some(d) => match path_parent(d) {
                Some(p) => Some(path_join(p, url)),
                None => None,
            },
            None => None,
        }
    }
}

/// What the first entry for `path` says of its file; missing without one.
pub open spec fn file_lookup(files: Seq<(Seq<char>, ImageFile)>, path: Seq<char>) -> ImageFile
    decreases files.len(),
{
    if files.len() == 0 {
        ImageFile::Missing
    } else if files[0].0 == path {
        files[0].1
    } else {
        file_lookup(files.drop_first(), path)
    }
}

/// Where an image stands: on the web, unresolved, or a local file with its
/// size, a path that is no file, or a missing file.
pub open spec fn image_status_of(url: Seq<char>, document_path: Option<Seq<char>>, files: Seq<(Seq<char>, ImageFile)>) -> Seq<char> {
    if is_remote_url_of(url) {
        "remote "@ + url
    } else {
        match local_image_path_of(url, document_path) {
            None => "unresolved "@ + url,
            Some(p) => match file_lookup(files, p) {
                ImageFile::File { len } => "local "@ + p + " ("@ + bytes_text_of(len as nat) + ")"@,
                ImageFile::NotFile => "not a file "@ + p,
                ImageFile::Missing => "missing "@ + p,
            },
        }
    }
}

/// The lines that describe an image: its label and status, then its caption.
pub open spec fn image_lines_of(
    alt: Seq<char>,
    url: Seq<char>,
    title: Seq<char>,
    document_path: Option<Seq<char>>,
    files: Seq<(Seq<char>, ImageFile)>,
) -> Seq<PdfLineView> {
    let label = if trim(alt).len() == 0 {
        "Image"@
    } else {
        trim(alt)
    };
    wrapped_lines_of("[image] "@ + label + ": "@ + image_status_of(url, document_path, files), 11, 0, 84) + if trim(
        title,
    ).len() > 0 {
        wrapped_lines_of("caption: "@ + trim(title), 10, 14, 80)
    } else {
        Seq::empty()
    }
}

pub(crate) fn local_image_path(url: &str, document_path: Option<&String>) -> (r: Option<String>)
    ensures
        match local_image_path_of(url@, document_path.deep_view()) {
            Some(p) => r matches Some(s) && s@ == p,
            None => r is None,
        },
{
    let cs = chars_of(url);
    if is_blank(cs.as_slice()) || find_chars(cs.as_slice(), chars_of("://").as_slice()).is_some()
        || starts_with_chars(cs.as_slice(), chars_of("data:").as_slice()) {
        return None;
    }
    if is_absolute(url) {
        return Some(url.to_owned());
    }
    match document_path {
        Some(d) => match parent(d.as_str()) {
            Some(p) => Some(join(p.as_str(), url)),
            None => None,
        },
        None => None,
    }
}

pub(crate) fn lookup_file(files: &[ImageFileInfo], path: &str) -> (r: ImageFile)
    ensures
        r == file_lookup(files.deep_view(), path@),
{
    let ghost fv = files.deep_view();
    let cs = chars_of(path);
    let mut i: usize = 0;
    assert(fv.skip(0) =~= fv);
    while i < files.len()
        invariant
            i <= files@.len(),
            fv == files.deep_view(),
            cs@ == path@,
            file_lookup(fv, path@) == file_lookup(fv.skip(i as int), path@),
        decreases files@.len() - i,
    {
        assert(fv.skip(i as int)[0] == files[i as int].deep_view());
        assert(fv.skip(i as int).drop_first() =~= fv.skip(i + 1));
        let key = chars_of(files[i].path.as_str());
        if chars_eq(key.as_slice(), cs.as_slice()) {
            return files[i].file;
        }
        i = i + 1;
    }
    assert(fv.skip(files@.len() as int) =~= Seq::<(Seq<char>, ImageFile)>::empty());
    ImageFile::Missing
}

fn image_status(url: &str, document_path: Option<&String>, files: &[ImageFileInfo]) -> (r: String)
    ensures
        r@ == image_status_of(url@, document_path.deep_view(), files.deep_view()),
{
    let cs = chars_of(url);
    let mut out = String::new();
    if starts_with_chars(cs.as_slice(), chars_of("http://").as_slice())
        || starts_with_chars(cs.as_slice(), chars_of("https://").as_slice()) {
        push_str(&mut out, "remote ");
        push_str(&mut out, url);
        return out;
    }
    match local_image_path(url, document_path) {
        None => {
            push_str(&mut out, "unresolved ");
            push_str(&mut out, url);
        },
        Some(p) => match lookup_file(files, p.as_str()) {
            ImageFile::File { len } => {
                push_str(&mut out, "local ");
                push_str(&mut out, p.as_str());
                push_str(&mut out, " (");
                push_str(&mut out, format_bytes(len).as_str());
                push_str(&mut out, ")");
            },
            ImageFile::NotFile => {
                push_str(&mut out, "not a file ");
                push_str(&mut out, p.as_str());
            },
            ImageFile::Missing => {
                push_str(&mut out, "missing ");
                push_str(&mut out, p.as_str());
            },
        },
    }
    out
}

fn push_image_lines(
    out: &mut Vec<PdfLine>,
    alt: &str,
    url: &str,
    title: &str,
    document_path: Option<&String>,
    files: &[ImageFileInfo],
)
    ensures
        final(out).deep_view() == old(out).deep_view() + image_lines_of(
            alt@,
            url@,
            title@,
            document_path.deep_view(),
            files.deep_view(),
        ),
{
    let alt_chars = chars_of(alt);
    let a = trim_chars(alt_chars.as_slice());
    let mut text = String::new();
    push_str(&mut text, "[image] ");
    if a.len() == 0 {
        push_str(&mut text, "Image");
    } else {
        push_chars(&mut text, a.as_slice());
    }
    push_str(&mut text, ": ");
    let status = image_status(url, document_path, files);
    push_str(&mut text, status.as_str());
    let tc = chars_of(text.as_str());
    push_wrapped(out, tc.as_slice(), 11, 0, 84);
    let ghost mid = out.deep_view();
    let title_chars = chars_of(title);
    let t = trim_chars(title_chars.as_slice());
    if t.len() > 0 {
        let mut caption = String::new();
        push_str(&mut caption, "caption: ");
        push_chars(&mut caption, t.as_slice());
        let cc = chars_of(caption.as_str());
        push_wrapped(out, cc.as_slice(), 10, 14, 80);
    }
    assert(out.deep_view() =~= old(out).deep_view() + image_lines_of(
        alt@,
        url@,
        title@,
        document_path.deep_view(),
        files.deep_view(),
    ));
}


/// A cell's width in the PDF: its plain text's length, at most the widest
/// column allowed; nothing for a missing cell.
pub open spec fn pdf_cell_width(row: Seq<Seq<SpanView>>, c: int) -> nat {
    if 0 <= c < row.len() {
        let n = plain_text_of(row[c]).len();
        if n > PDF_TABLE_MAX_COLUMN_WIDTH {
            PDF_TABLE_MAX_COLUMN_WIDTH as nat
        } else {
            n
        }
    } else {
        0
    }
}

/// The widest of a column's cells over the body rows.
pub open spec fn pdf_rows_width(rows: Seq<Seq<Seq<SpanView>>>, c: int) -> nat
    decreases rows.len(),
{
    if rows.len() == 0 {
        0
    } else {
        let rest = pdf_rows_width(rows.drop_last(), c);
        let w = pdf_cell_width(rows.last(), c);
        if w > rest {
            w
        } else {
            rest
        }
    }
}

/// The widths of the PDF table's columns: the widest cell, bounded, and at
/// least three.
pub open spec fn pdf_widths(header: Seq<Seq<SpanView>>, rows: Seq<Seq<Seq<SpanView>>>) -> Seq<nat> {
    Seq::new(
        column_count(header, rows),
        |c: int|
            {
                let h = pdf_cell_width(header, c);
                let r = pdf_rows_width(rows, c);
                let m = if h > r {
                    h
                } else {
                    r
                };
                if m > 3 {
                    m
                } else {
                    3
                }
            },
    )
}

/// A cell's text wrapped to its column; a missing cell is one empty line.
pub open spec fn wrapped_cell(cells: Seq<Seq<SpanView>>, widths: Seq<nat>, c: int) -> Seq<Seq<char>> {
    if c < cells.len() {
        wrap_of(plain_text_of(cells[c]), widths[c])
    } else {
        seq![Seq::<char>::empty()]
    }
}

/// The most wrapped lines among the first `k` cells of a row.
pub open spec fn row_height(cells: Seq<Seq<SpanView>>, widths: Seq<nat>, k: int) -> nat
    decreases k,
{
    if k <= 0 {
        0
    } else {
        let rest = row_height(cells, widths, k - 1);
        let h = wrapped_cell(cells, widths, k - 1).len();
        if h > rest {
            h
        } else {
            rest
        }
    }
}

/// Line `li` of the first `k` cells of a row, padded and joined by bars.
pub open spec fn row_segment(cells: Seq<Seq<SpanView>>, widths: Seq<nat>, alignments: Seq<TableAlignment>, li: int, k: int) -> Seq<char>
    decreases k,
{
    if k <= 0 {
        Seq::empty()
    } else {
        let c = k - 1;
        let wrapped = wrapped_cell(cells, widths, c);
        let value = if li < wrapped.len() {
            wrapped[li]
        } else {
            Seq::empty()
        };
        row_segment(cells, widths, alignments, li, k - 1) + (if c > 0 {
            seq![' ', '|', ' ']
        } else {
            Seq::empty()
        }) + aligned_cell(value, value.len(), widths[c], column_alignment(alignments, c))
    }
}

/// A table row as PDF lines, as many as its tallest cell needs.
pub open spec fn table_row_lines(cells: Seq<Seq<SpanView>>, widths: Seq<nat>, alignments: Seq<TableAlignment>) -> Seq<PdfLineView> {
    Seq::new(
        row_height(cells, widths, widths.len() as int),
        |li: int|
            PdfLineView {
                indent: PDF_TABLE_INDENT,
                ..line_of(seq!['|', ' '] + row_segment(cells, widths, alignments, li, widths.len() as int) + seq![' ', '|'], 10)
            },
    )
}

/// The first `k` column rules, joined by bars.
pub open spec fn separator_segment(widths: Seq<nat>, alignments: Seq<TableAlignment>, k: int) -> Seq<char>
    decreases k,
{
    if k <= 0 {
        Seq::empty()
    } else {
        separator_segment(widths, alignments, k - 1) + (if k - 1 > 0 {
            seq![' ', '|', ' ']
        } else {
            Seq::empty()
        }) + rule_text(widths[k - 1], column_alignment(alignments, k - 1))
    }
}

/// The body rows as PDF lines.
pub open spec fn body_lines(rows: Seq<Seq<Seq<SpanView>>>, widths: Seq<nat>, alignments: Seq<TableAlignment>) -> Seq<PdfLineView>
    decreases rows.len(),
{
    if rows.len() == 0 {
        Seq::empty()
    } else {
        body_lines(rows.drop_last(), widths, alignments) + table_row_lines(rows.last(), widths, alignments)
    }
}

/// A table as PDF lines: the header, its rule, and the rows; nothing for a
/// table without columns.
pub open spec fn table_lines_of(alignments: Seq<TableAlignment>, header: Seq<Seq<SpanView>>, rows: Seq<Seq<Seq<SpanView>>>) -> Seq<PdfLineView> {
    let widths = pdf_widths(header, rows);
    if widths.len() == 0 {
        Seq::empty()
    } else {
        (if header.len() > 0 {
            table_row_lines(header, widths, alignments) + seq![
                PdfLineView {
                    indent: PDF_TABLE_INDENT,
                    gap_after: 2,
                    ..line_of(seq!['|', ' '] + separator_segment(widths, alignments, widths.len() as int) + seq![' ', '|'], 10)
                },
            ]
        } else {
            Seq::empty()
        }) + body_lines(rows, widths, alignments)
    }
}

fn pdf_width_at(row: &[Vec<InlineSpan>], c: usize) -> (w: usize)
    ensures
        w == pdf_cell_width(row.deep_view(), c as int),
{
    if c < row.len() {
        assert(row.deep_view()[c as int] == row[c as int].deep_view());
        let t = plain_text(row[c].as_slice());
        let n = chars_of(t.as_str()).len();
        if n > PDF_TABLE_MAX_COLUMN_WIDTH {
            PDF_TABLE_MAX_COLUMN_WIDTH
        } else {
            n
        }
    } else {
        0
    }
}

fn table_widths(header: &[Vec<InlineSpan>], rows: &[Vec<Vec<InlineSpan>>]) -> (widths: Vec<usize>)
    ensures
        widths@.len() == pdf_widths(header.deep_view(), rows.deep_view()).len(),
        forall|c: int| 0 <= c < widths@.len() ==> #[trigger] widths@[c] == pdf_widths(header.deep_view(), rows.deep_view())[c],
        forall|c: int| 0 <= c < widths@.len() ==> 3 <= #[trigger] widths@[c] <= PDF_TABLE_MAX_COLUMN_WIDTH,
{
    let ghost hv = header.deep_view();
    let ghost rv = rows.deep_view();
    let mut count = header.len();
    let mut r: usize = 0;
    assert(rv.take(0) =~= Seq::<Seq<Seq<SpanView>>>::empty());
    while r < rows.len()
        invariant
            r <= rows@.len(),
            rv == rows.deep_view(),
            hv == header.deep_view(),
            count == column_count(hv, rv.take(r as int)),
        decreases rows@.len() - r,
    {
        assert(rv.take(r + 1).drop_last() =~= rv.take(r as int));
        assert(rv.take(r + 1).last() == rows[r as int].deep_view());
        if rows[r].len() > count {
            count = rows[r].len();
        }
        r = r + 1;
    }
    assert(rv.take(rows@.len() as int) =~= rv);
    let ghost target = pdf_widths(hv, rv);
    let mut widths: Vec<usize> = Vec::new();
    let mut c: usize = 0;
    while c < count
        invariant
            c <= count,
            count == column_count(hv, rv),
            target == pdf_widths(hv, rv),
            rv == rows.deep_view(),
            hv == header.deep_view(),
            widths@.len() == c,
            forall|k: int| 0 <= k < c ==> #[trigger] widths@[k] == target[k],
            forall|k: int| 0 <= k < c ==> 3 <= #[trigger] widths@[k] <= PDF_TABLE_MAX_COLUMN_WIDTH,
        decreases count - c,
    {
        let h = pdf_width_at(header, c);
        let mut best: usize = 0;
        let mut k: usize = 0;
        assert(rv.take(0) =~= Seq::<Seq<Seq<SpanView>>>::empty());
        while k < rows.len()
            invariant
                k <= rows@.len(),
                rv == rows.deep_view(),
                best == pdf_rows_width(rv.take(k as int), c as int),
                best <= PDF_TABLE_MAX_COLUMN_WIDTH,
            decreases rows@.len() - k,
        {
            assert(rv.take(k + 1).drop_last() =~= rv.take(k as int));
            assert(rv.take(k + 1).last() == rows[k as int].deep_view());
            let w = pdf_width_at(rows[k].as_slice(), c);
            if w > best {
                best = w;
            }
            k = k + 1;
        }
        assert(rv.take(rows@.len() as int) =~= rv);
        let m = if h > best {
            h
        } else {
            best
        };
        let width = if m > 3 {
            m
        } else {
            3
        };
        widths.push(width);
        c = c + 1;
    }
    widths
}

fn push_aligned(out: &mut String, value: &[char], width: usize, a: TableAlignment)
    ensures
        final(out)@ == old(out)@ + aligned_cell(value@, value@.len(), width as nat, a),
{
    let n = value.len();
    let padding: usize = if width > n {
        width - n
    } else {
        0
    };
    match a {
        TableAlignment::Right => {
            push_repeated(out, ' ', padding);
            push_chars(out, value);
        },
        TableAlignment::Center => {
            push_repeated(out, ' ', padding / 2);
            push_chars(out, value);
            push_repeated(out, ' ', padding - padding / 2);
        },
        _ => {
            push_chars(out, value);
            push_repeated(out, ' ', padding);
        },
    }
    assert(out@ =~= old(out)@ + aligned_cell(value@, value@.len(), width as nat, a));
}

fn push_table_row(
    out: &mut Vec<PdfLine>,
    cells: &[Vec<InlineSpan>],
    widths: &Vec<usize>,
    alignments: &[TableAlignment],
)
    requires
        forall|c: int| 0 <= c < widths@.len() ==> 3 <= #[trigger] widths@[c] <= PDF_TABLE_MAX_COLUMN_WIDTH,
    ensures
        final(out).deep_view() == old(out).deep_view() + table_row_lines(
            cells.deep_view(),
            widths@.map_values(|w: usize| w as nat),
            alignments@,
        ),
{
    let ghost cv = cells.deep_view();
    let ghost wv = widths@.map_values(|w: usize| w as nat);
    let mut wrapped: Vec<Vec<Vec<char>>> = Vec::new();
    let mut height: usize = 0;
    let mut c: usize = 0;
    while c < widths.len()
        invariant
            c <= widths@.len(),
            cv == cells.deep_view(),
            wv == widths@.map_values(|w: usize| w as nat),
            wrapped@.len() == c,
            forall|k: int| 0 <= k < c ==> (#[trigger] wrapped@[k]).deep_view() == wrapped_cell(cv, wv, k),
            height == row_height(cv, wv, c as int),
            height <= usize::MAX,
        decreases widths@.len() - c,
    {
        let cell_lines = if c < cells.len() {
            assert(cv[c as int] == cells[c as int].deep_view());
            let t = plain_text(cells[c].as_slice());
            let tc = chars_of(t.as_str());
            wrap_text(tc.as_slice(), widths[c])
        } else {
            let mut one: Vec<Vec<char>> = Vec::new();
            let e: Vec<char> = Vec::new();
            assert(e.deep_view() =~= Seq::<char>::empty());
            one.push(e);
            assert(one.deep_view() =~= seq![Seq::<char>::empty()]);
            one
        };
        if cell_lines.len() > height {
            height = cell_lines.len();
        }
        wrapped.push(cell_lines);
        c = c + 1;
    }
    let ghost start = out.deep_view();
    let mut li: usize = 0;
    while li < height
        invariant
            li <= height,
            height == row_height(cv, wv, widths@.len() as int),
            cv == cells.deep_view(),
            wv == widths@.map_values(|w: usize| w as nat),
            wrapped@.len() == widths@.len(),
            forall|k: int| 0 <= k < widths@.len() ==> (#[trigger] wrapped@[k]).deep_view() == wrapped_cell(cv, wv, k),
            out.deep_view() =~= start + table_row_lines(cv, wv, alignments@).take(li as int),
        decreases height - li,
    {
        let mut text = String::new();
        text.push('|');
        text.push(' ');
        let ghost seg_start = text@;
        let mut k: usize = 0;
        while k < widths.len()
            invariant
                k <= widths@.len(),
                wv == widths@.map_values(|w: usize| w as nat),
                wrapped@.len() == widths@.len(),
                forall|j: int| 0 <= j < widths@.len() ==> (#[trigger] wrapped@[j]).deep_view() == wrapped_cell(cv, wv, j),
                text@ == seg_start + row_segment(cv, wv, alignments@, li as int, k as int),
            decreases widths@.len() - k,
        {
            let ghost before = text@;
            if k > 0 {
                text.push(' ');
                text.push('|');
                text.push(' ');
            }
            let a = if k < alignments.len() {
                alignments[k]
            } else {
                TableAlignment::Unaligned
            };
            let empty: Vec<char> = Vec::new();
            let cell = &wrapped[k];
            assert(cell.deep_view() == wrapped_cell(cv, wv, k as int));
            let value: &[char] = if li < cell.len() {
                assert(cell.deep_view()[li as int] == cell[li as int]@);
                cell[li].as_slice()
            } else {
                empty.as_slice()
            };
            push_aligned(&mut text, value, widths[k], a);
            assert(text@ =~= seg_start + row_segment(cv, wv, alignments@, li as int, k + 1));
            k = k + 1;
        }
        text.push(' ');
        text.push('|');
        assert(text@ =~= seq!['|', ' '] + row_segment(cv, wv, alignments@, li as int, widths@.len() as int) + seq![' ', '|']);
        let line = PdfLine { text, size: 10, indent: PDF_TABLE_INDENT, gap_after: 3, outline_level: None };
        assert(table_row_lines(cv, wv, alignments@)[li as int] == line.deep_view());
        let ghost before = out.deep_view();
        out.push(line);
        assert(out.deep_view() =~= before.push(line.deep_view()));
        assert(table_row_lines(cv, wv, alignments@).take(li + 1) =~= table_row_lines(cv, wv, alignments@).take(
            li as int,
        ).push(line.deep_view()));
        li = li + 1;
    }
    assert(table_row_lines(cv, wv, alignments@).take(height as int) =~= table_row_lines(cv, wv, alignments@));
}

fn push_table_lines(
    out: &mut Vec<PdfLine>,
    alignments: &[TableAlignment],
    header: &[Vec<InlineSpan>],
    rows: &[Vec<Vec<InlineSpan>>],
)
    ensures
        final(out).deep_view() == old(out).deep_view() + table_lines_of(alignments@, header.deep_view(), rows.deep_view()),
{
    let widths = table_widths(header, rows);
    let ghost hv = header.deep_view();
    let ghost rv = rows.deep_view();
    let ghost wv = widths@.map_values(|w: usize| w as nat);
    assert(wv =~= pdf_widths(hv, rv));
    if widths.len() == 0 {
        assert(out.deep_view() =~= old(out).deep_view() + table_lines_of(alignments@, hv, rv));
        return;
    }
    if header.len() > 0 {
        push_table_row(out, header, &widths, alignments);
        let ghost after_row = out.deep_view();
        let mut text = String::new();
        text.push('|');
        text.push(' ');
        let ghost seg_start = text@;
        let mut k: usize = 0;
        while k < widths.len()
            invariant
                k <= widths@.len(),
                wv == widths@.map_values(|w: usize| w as nat),
                forall|c: int| 0 <= c < widths@.len() ==> 3 <= #[trigger] widths@[c] <= PDF_TABLE_MAX_COLUMN_WIDTH,
                text@ == seg_start + separator_segment(wv, alignments@, k as int),
            decreases widths@.len() - k,
        {
            if k > 0 {
                text.push(' ');
                text.push('|');
                text.push(' ');
            }
            let a = if k < alignments.len() {
                alignments[k]
            } else {
                TableAlignment::Unaligned
            };
            let w = widths[k];
            let ghost before_rule = text@;
            match a {
                TableAlignment::Left => {
                    text.push(':');
                    push_repeated(&mut text, '-', w - 1);
                },
                TableAlignment::Center => {
                    text.push(':');
                    push_repeated(&mut text, '-', w - 2);
                    text.push(':');
                },
                TableAlignment::Right => {
                    push_repeated(&mut text, '-', w - 1);
                    text.push(':');
                },
                TableAlignment::Unaligned => {
                    push_repeated(&mut text, '-', w);
                },
            }
            assert(text@ =~= before_rule + rule_text(w as nat, a));
            assert(text@ =~= seg_start + separator_segment(wv, alignments@, k + 1));
            k = k + 1;
        }
        text.push(' ');
        text.push('|');
        assert(text@ =~= seq!['|', ' '] + separator_segment(wv, alignments@, widths@.len() as int) + seq![' ', '|']);
        let line = PdfLine { text, size: 10, indent: PDF_TABLE_INDENT, gap_after: 2, outline_level: None };
        let ghost before = out.deep_view();
        out.push(line);
        assert(out.deep_view() =~= before.push(line.deep_view()));
        assert(out.deep_view() =~= old(out).deep_view() + (table_row_lines(hv, wv, alignments@) + seq![line.deep_view()]));
    }
    let ghost after_header = out.deep_view();
    let mut r: usize = 0;
    assert(rv.take(0) =~= Seq::<Seq<Seq<SpanView>>>::empty());
    while r < rows.len()
        invariant
            r <= rows@.len(),
            rv == rows.deep_view(),
            wv == widths@.map_values(|w: usize| w as nat),
            forall|c: int| 0 <= c < widths@.len() ==> 3 <= #[trigger] widths@[c] <= PDF_TABLE_MAX_COLUMN_WIDTH,
            out.deep_view() =~= after_header + body_lines(rv.take(r as int), wv, alignments@),
        decreases rows@.len() - r,
    {
        assert(rv.take(r + 1).drop_last() =~= rv.take(r as int));
        assert(rv.take(r + 1).last() == rows[r as int].deep_view());
        push_table_row(out, rows[r].as_slice(), &widths, alignments);
        r = r + 1;
    }
    assert(rv.take(rows@.len() as int) =~= rv);
    assert(out.deep_view() =~= old(out).deep_view() + table_lines_of(alignments@, hv, rv));
}


/// The items of a list as PDF lines, each with its marker.
pub open spec fn list_lines_of(ordered: bool, items: Seq<ItemView>) -> Seq<PdfLineView>
    decreases items.len(),
{
    if items.len() == 0 {
        Seq::empty()
    } else {
        list_lines_of(ordered, items.drop_last()) + wrapped_lines_of(
            list_marker(ordered, items.last().checked, (items.len() - 1) as nat) + seq![' '] + plain_text_of(
                items.last().content,
            ),
            12,
            14,
            80,
        )
    }
}

/// The lines a block adds to the PDF.
pub open spec fn block_lines_of(
    block: BlockView,
    document_path: Option<Seq<char>>,
    files: Seq<(Seq<char>, ImageFile)>,
) -> Seq<PdfLineView> {
    match block {
        BlockView::Heading { level, spans } => seq![
            PdfLineView {
                text: plain_text_of(spans),
                size: heading_size(level),
                indent: 0,
                gap_after: heading_gap(level),
                outline_level: Some(level.depth()),
            },
        ],
        BlockView::Paragraph(spans) => wrapped_lines_of(plain_text_of(spans), 12, 0, 84),
        BlockView::BlockQuote(spans) => wrapped_lines_of(plain_text_of(spans), 12, 18, 80),
        BlockView::CodeBlock { language, code } => (match language {
            Some(l) => if trim(l).len() > 0 {
                seq![label_line("code: "@ + l)]
            } else {
                Seq::empty()
            },
            None => Seq::empty(),
        }) + preformatted_lines_of(lines(code)),
        BlockView::Diagram { language, source } => seq![label_line("diagram: "@ + language)] + preformatted_lines_of(
            lines(source),
        ),
        BlockView::Image { alt, url, title } => image_lines_of(alt, url, title, document_path, files),
        BlockView::Table { alignments, header, rows } => table_lines_of(alignments, header, rows),
        BlockView::List { ordered, items } => list_lines_of(ordered, items),
        BlockView::Math { display, source } => seq![label_line(if display {
            "display math"@
        } else {
            "inline math"@
        })] + preformatted_lines_of(lines(source)),
        BlockView::Rule => seq![line_of("------------------------------"@, 10)],
    }
}

/// The lines with at least eight points after the last one.
pub open spec fn with_gap_floor(ls: Seq<PdfLineView>) -> Seq<PdfLineView> {
    if ls.len() == 0 {
        ls
    } else {
        let last = ls.last();
        ls.update(ls.len() - 1, PdfLineView {
            gap_after: if last.gap_after > 8 {
                last.gap_after
            } else {
                8
            },
            ..last
        })
    }
}

/// The PDF lines of the first blocks, after the title line.
pub open spec fn blocks_lines_of(
    title: Seq<char>,
    blocks: Seq<BlockView>,
    document_path: Option<Seq<char>>,
    files: Seq<(Seq<char>, ImageFile)>,
) -> Seq<PdfLineView>
    decreases blocks.len(),
{
    if blocks.len() == 0 {
        seq![PdfLineView { text: title, size: 24, indent: 0, gap_after: 10, outline_level: None }]
    } else {
        with_gap_floor(
            blocks_lines_of(title, blocks.drop_last(), document_path, files) + block_lines_of(
                blocks.last(),
                document_path,
                files,
            ),
        )
    }
}

fn push_list_lines(out: &mut Vec<PdfLine>, ordered: bool, items: &[ListItem])
    ensures
        final(out).deep_view() == old(out).deep_view() + list_lines_of(ordered, items.deep_view()),
{
    let ghost iv = items.deep_view();
    let ghost start = out.deep_view();
    let mut i: usize = 0;
    assert(iv.take(0) =~= Seq::<ItemView>::empty());
    while i < items.len()
        invariant
            i <= items@.len(),
            iv == items.deep_view(),
            out.deep_view() =~= start + list_lines_of(ordered, iv.take(i as int)),
        decreases items@.len() - i,
    {
        assert(iv.take(i + 1).drop_last() =~= iv.take(i as int));
        assert(iv.take(i + 1).last() == items[i as int].deep_view());
        let mut text = String::new();
        crate::render::push_list_marker(&mut text, ordered, items[i].checked, i);
        text.push(' ');
        push_str(&mut text, plain_text(items[i].content.as_slice()).as_str());
        assert(text@ =~= list_marker(ordered, iv[i as int].checked, i as nat) + seq![' '] + plain_text_of(iv[i as int].content));
        let tc = chars_of(text.as_str());
        push_wrapped(out, tc.as_slice(), 12, 14, 80);
        i = i + 1;
    }
    assert(iv.take(items@.len() as int) =~= iv);
}

fn push_block_lines(out: &mut Vec<PdfLine>, block: &Block, document_path: Option<&String>, files: &[ImageFileInfo])
    ensures
        final(out).deep_view() == old(out).deep_view() + block_lines_of(
            block.deep_view(),
            document_path.deep_view(),
            files.deep_view(),
        ),
{
    match block {
        Block::Heading { level, spans } => {
            let size: u16 = match level {
                HeadingLevel::H1 => 20,
                HeadingLevel::H2 => 17,
                HeadingLevel::H3 => 15,
                _ => 13,
            };
            let gap: u16 = match level {
                HeadingLevel::H1 => 10,
                HeadingLevel::H2 => 8,
                HeadingLevel::H3 => 7,
                _ => 6,
            };
            let line = PdfLine {
                text: plain_text(spans.as_slice()),
                size,
                indent: 0,
                gap_after: gap,
                outline_level: Some(level.as_depth()),
            };
            let ghost before = out.deep_view();
            out.push(line);
            assert(out.deep_view() =~= before.push(line.deep_view()));
        },
        Block::Paragraph(spans) => {
            let t = plain_text(spans.as_slice());
            push_wrapped(out, chars_of(t.as_str()).as_slice(), 12, 0, 84);
        },
        Block::BlockQuote(spans) => {
            let t = plain_text(spans.as_slice());
            push_wrapped(out, chars_of(t.as_str()).as_slice(), 12, 18, 80);
        },
        Block::CodeBlock { language, code } => {
            let ghost before = out.deep_view();
            match language {
                Some(l) => {
                    if !is_blank(chars_of(l.as_str()).as_slice()) {
                        let mut text = String::new();
                        push_str(&mut text, "code: ");
                        push_str(&mut text, l.as_str());
                        push_label(out, text);
                    }
                },
                None => {},
            }
            let ghost mid = out.deep_view();
            push_preformatted(out, code.as_str());
            assert(out.deep_view() =~= before + ((match language.deep_view() {
                Some(l) => if trim(l).len() > 0 {
                    seq![label_line("code: "@ + l)]
                } else {
                    Seq::empty()
                },
                None => Seq::empty(),
            }) + preformatted_lines_of(lines(code@))));
        },
        Block::Diagram { language, source } => {
            let mut text = String::new();
            push_str(&mut text, "diagram: ");
            push_str(&mut text, language.as_str());
            push_label(out, text);
            push_preformatted(out, source.as_str());
        },
        Block::Image { alt, url, title } => push_image_lines(out, alt.as_str(), url.as_str(), title.as_str(), document_path, files),
        Block::Table { alignments, header, rows } => push_table_lines(out, alignments.as_slice(), header.as_slice(), rows.as_slice()),
        Block::List { ordered, items } => push_list_lines(out, *ordered, items.as_slice()),
        Block::Math { display, source } => {
            let text = if *display {
                "display math".to_owned()
            } else {
                "inline math".to_owned()
            };
            push_label(out, text);
            push_preformatted(out, source.as_str());
        },
        Block::Rule => {
            let line = PdfLine {
                text: "------------------------------".to_owned(),
                size: 10,
                indent: 0,
                gap_after: 3,
                outline_level: None,
            };
            let ghost before = out.deep_view();
            out.push(line);
            assert(out.deep_view() =~= before.push(line.deep_view()));
        },
    }
}

/// The lines of the PDF of a document: its title, then each block's lines,
/// with room after every block.
#[verifier::spinoff_prover]
#[verifier::rlimit(60)]
pub fn pdf_lines(document: &Document, files: &[ImageFileInfo]) -> (r: Vec<PdfLine>)
    ensures
        r.deep_view() == blocks_lines_of(
            document.title_view(),
            document.parsed_view(),
            document.path_view(),
            files.deep_view(),
        ),
        r@.len() > 0,
{
    let mut out: Vec<PdfLine> = Vec::new();
    out.push(PdfLine { text: document.title().to_owned(), size: 24, indent: 0, gap_after: 10, outline_level: None });
    let parsed = document.parsed();
    let ghost bv = parsed.deep_view();
    let ghost title = document.title_view();
    let ghost dp = document.path_view();
    let ghost fv = files.deep_view();
    let path = document.path();
    let mut i: usize = 0;
    assert(bv.take(0) =~= Seq::<BlockView>::empty());
    assert(out.deep_view() =~= blocks_lines_of(title, bv.take(0), dp, fv));
    while i < parsed.blocks.len()
        invariant
            i <= parsed.blocks@.len(),
            bv == parsed.deep_view(),
            path.deep_view() == dp,
            fv == files.deep_view(),
            out.deep_view() == blocks_lines_of(title, bv.take(i as int), dp, fv),
            out@.len() > 0,
        decreases parsed.blocks@.len() - i,
    {
        assert(bv.take(i + 1).drop_last() =~= bv.take(i as int));
        assert(bv.take(i + 1).last() == parsed.blocks[i as int].deep_view());
        let ghost len_before = out@.len();
        push_block_lines(&mut out, &parsed.blocks[i], path, files);
        assert(out.deep_view().len() == out@.len());
        let last = out.len() - 1;
        let ghost before = out.deep_view();
        let mut line = out.remove(last);
        if line.gap_after < 8 {
            line.gap_after = 8;
        }
        out.push(line);
        assert(out.deep_view() =~= with_gap_floor(before));
        i = i + 1;
    }
    assert(bv.take(parsed.blocks@.len() as int) =~= bv);
    out
}


/// The length in bytes of a text, as `str::len` gives it.
pub open spec fn byte_len(s: Seq<char>) -> nat {
    (vstd::utf8::encode_utf8(s).len() as usize) as nat
}

/// The top of the text area, in quarter points.
pub open spec fn top_q() -> int {
    2960
}

/// The height of the text area, in quarter points.
pub open spec fn available_q() -> int {
    2744
}

/// How far a line moves the pen down, in quarter points: its size and a
/// quarter for leading, then the space after it.
pub open spec fn advance_q(l: PdfLineView) -> int {
    5 * l.size + 4 * l.gap_after
}

/// Page breaking over the first `k` lines: the finished pages as ranges of
/// lines, where the open page starts, and how much of it is used.
pub open spec fn paginate_state(ls: Seq<PdfLineView>, k: int) -> (Seq<(int, int)>, int, int)
    decreases k,
{
    if k <= 0 {
        (Seq::empty(), 0, 0)
    } else {
        let (pages, start, used) = paginate_state(ls, k - 1);
        let i = k - 1;
        let adv = advance_q(ls[i]);
        if i > start && used + adv > available_q() {
            (pages.push((start, i)), i, adv)
        } else {
            (pages, start, used + adv)
        }
    }
}

/// The pages of the PDF, as ranges of lines.
pub open spec fn page_ranges(ls: Seq<PdfLineView>) -> Seq<(int, int)> {
    let (pages, start, _) = paginate_state(ls, ls.len() as int);
    pages.push((start, ls.len() as int))
}

/// The space the lines from `start` to `j` take, in quarter points.
pub open spec fn advance_sum(ls: Seq<PdfLineView>, start: int, j: int) -> int
    decreases j - start,
{
    if j <= start {
        0
    } else {
        advance_sum(ls, start, j - 1) + advance_q(ls[j - 1])
    }
}

/// A coordinate in quarter points, written with one decimal as the point
/// value would be, halves rounded to even.
pub open spec fn coord_text(q: int) -> Seq<char> {
    if q < 0 {
        seq!['-'] + tenths_text(round_half_even((-q * 10) as nat, 4))
    } else {
        tenths_text(round_half_even((q * 10) as nat, 4))
    }
}

/// Text as a PDF string body: parentheses and backslashes escaped, and any
/// character that is not printable ASCII replaced by `?`.
pub open spec fn escape_pdf_char(c: char) -> Seq<char> {
    if c == '(' {
        seq!['\\', '(']
    } else if c == ')' {
        seq!['\\', ')']
    } else if c == '\\' {
        seq!['\\', '\\']
    } else if ' ' <= c && c <= '~' {
        seq![c]
    } else {
        seq!['?']
    }
}

/// `escape_pdf_char` over a text.
pub open spec fn escape_pdf_of(s: Seq<char>) -> Seq<char>
    decreases s.len(),
{
    if s.len() == 0 {
        Seq::empty()
    } else {
        escape_pdf_of(s.drop_last()) + escape_pdf_char(s.last())
    }
}

/// The drawing command of one line at height `y`.
pub open spec fn line_command(l: PdfLineView, y: int) -> Seq<char> {
    "BT /F1 "@ + decimal(l.size as nat) + " Tf 1 0 0 1 "@ + coord_text(4 * (54 + l.indent)) + seq![' '] + coord_text(y)
        + " Tm ("@ + escape_pdf_of(l.text) + ") Tj ET\n"@
}

/// The drawing commands of the lines of a page from `start` to `end`.
pub open spec fn page_stream(ls: Seq<PdfLineView>, start: int, end: int) -> Seq<char>
    decreases end - start,
{
    if end <= start {
        Seq::empty()
    } else {
        page_stream(ls, start, end - 1) + line_command(ls[end - 1], top_q() - advance_sum(ls, start, end - 1))
    }
}

/// A heading entry of the outline: its text, level, page object and height.
pub struct OutlineView {
    pub title: Seq<char>,
    pub level: u8,
    pub page_id: int,
    pub y: int,
}

/// The outline entries among the lines of a page from `start` to `end`.
pub open spec fn page_outlines(ls: Seq<PdfLineView>, start: int, end: int, page_id: int) -> Seq<OutlineView>
    decreases end - start,
{
    if end <= start {
        Seq::empty()
    } else {
        let l = ls[end - 1];
        page_outlines(ls, start, end - 1, page_id) + match l.outline_level {
            Some(level) => seq![OutlineView { title: l.text, level, page_id, y: top_q() - advance_sum(ls, start, end - 1) }],
            None => Seq::empty(),
        }
    }
}

/// The outline entries of the first `k` pages.
pub open spec fn outlines_of(ls: Seq<PdfLineView>, pages: Seq<(int, int)>, k: int) -> Seq<OutlineView>
    decreases k,
{
    if k <= 0 {
        Seq::empty()
    } else {
        outlines_of(ls, pages, k - 1) + page_outlines(ls, pages[k - 1].0, pages[k - 1].1, 4 + 2 * (k - 1))
    }
}

/// The page object of page `i`.
pub open spec fn page_object(i: int) -> Seq<char> {
    "<< /Type /Page /Parent 2 0 R /MediaBox [0 0 612 792] /Resources << /Font << /F1 3 0 R >> >> /Contents "@
        + decimal((5 + 2 * i) as nat) + " 0 R >>"@
}

/// The content stream object of a page.
pub open spec fn content_object(stream: Seq<char>) -> Seq<char> {
    "<< /Length "@ + decimal(byte_len(stream)) + " >>\nstream\n"@ + stream + "endstream"@
}

/// The objects of the pages: each page and its content, in order.
pub open spec fn page_objects(ls: Seq<PdfLineView>, pages: Seq<(int, int)>, k: int) -> Seq<Seq<char>>
    decreases k,
{
    if k <= 0 {
        Seq::empty()
    } else {
        page_objects(ls, pages, k - 1) + seq![
            page_object(k - 1),
            content_object(page_stream(ls, pages[k - 1].0, pages[k - 1].1)),
        ]
    }
}

/// The references to the first `k` pages, separated by spaces.
pub open spec fn kids_text(k: int) -> Seq<char>
    decreases k,
{
    if k <= 0 {
        Seq::empty()
    } else if k == 1 {
        decimal(4) + " 0 R"@
    } else {
        kids_text(k - 1) + seq![' '] + decimal((4 + 2 * (k - 1)) as nat) + " 0 R"@
    }
}

/// The outline item `k` of `n`, under the outline root `root`.
pub open spec fn outline_item(o: OutlineView, k: int, n: int, root: int) -> Seq<char> {
    let id = root + 1 + k;
    "<< /Title ("@ + escape_pdf_of(repeated(' ', (2 * (if o.level > 0 {
        o.level - 1
    } else {
        0
    })) as nat) + o.title) + ") /Parent "@ + decimal(root as nat) + " 0 R "@ + (if k > 0 {
        "/Prev "@ + decimal((id - 1) as nat) + " 0 R "@
    } else {
        Seq::empty()
    }) + (if k + 1 < n {
        "/Next "@ + decimal((id + 1) as nat) + " 0 R "@
    } else {
        Seq::empty()
    }) + " /Dest ["@ + decimal(o.page_id as nat) + " 0 R /XYZ 54.0 "@ + coord_text(o.y) + " null] >>"@
}

/// The outline items, in order.
pub open spec fn outline_items(os: Seq<OutlineView>, k: int, root: int) -> Seq<Seq<char>>
    decreases k,
{
    if k <= 0 {
        Seq::empty()
    } else {
        outline_items(os, k - 1, root).push(outline_item(os[k - 1], k - 1, os.len() as int, root))
    }
}

/// All objects of the PDF, in order.
pub open spec fn pdf_objects(ls: Seq<PdfLineView>) -> Seq<Seq<char>> {
    let pages = page_ranges(ls);
    let p = pages.len() as int;
    let os = outlines_of(ls, pages, p);
    let root = 3 + 2 * p + 1;
    let catalog = if os.len() == 0 {
        "<< /Type /Catalog /Pages 2 0 R >>"@
    } else {
        "<< /Type /Catalog /Pages 2 0 R /Outlines "@ + decimal(root as nat) + " 0 R /PageMode /UseOutlines >>"@
    };
    let pages_object = "<< /Type /Pages /Kids ["@ + kids_text(p) + "] /Count "@ + decimal(p as nat) + " >>"@;
    seq![catalog, pages_object, "<< /Type /Font /Subtype /Type1 /BaseFont /Helvetica >>"@] + page_objects(ls, pages, p)
        + if os.len() == 0 {
        Seq::empty()
    } else {
        seq![
            "<< /Type /Outlines /First "@ + decimal((root + 1) as nat) + " 0 R /Last "@ + decimal(
                (root + os.len()) as nat,
            ) + " 0 R /Count "@ + decimal(os.len()) + " >>"@,
        ] + outline_items(os, os.len() as int, root)
    }
}

/// The objects written out, numbered from one.
pub open spec fn objects_text(objects: Seq<Seq<char>>) -> Seq<char>
    decreases objects.len(),
{
    if objects.len() == 0 {
        Seq::empty()
    } else {
        objects_text(objects.drop_last()) + decimal(objects.len()) + " 0 obj\n"@ + objects.last() + "\nendobj\n"@
    }
}

/// The bytes that open the file: the version line and a binary comment.
pub open spec fn pdf_header() -> Seq<u8> {
    seq![0x25u8, 0x50, 0x44, 0x46, 0x2d, 0x31, 0x2e, 0x34, 0x0a, 0x25, 0xe2, 0xe3, 0xcf, 0xd3, 0x0a]
}

/// A number written with at least ten digits.
pub open spec fn padded10(n: nat) -> Seq<char> {
    let d = decimal(n);
    if d.len() < 10 {
        repeated('0', (10 - d.len()) as nat) + d
    } else {
        d
    }
}

/// The cross-reference entries of the first `k` objects.
pub open spec fn xref_entries(objects: Seq<Seq<char>>, k: int) -> Seq<char>
    decreases k,
{
    if k <= 0 {
        Seq::empty()
    } else {
        xref_entries(objects, k - 1) + padded10(15 + byte_len(objects_text(objects.take(k - 1)))) + " 00000 n \n"@
    }
}

/// The cross-reference table and trailer.
pub open spec fn xref_text(objects: Seq<Seq<char>>) -> Seq<char> {
    let n = objects.len();
    "xref\n0 "@ + decimal(n + 1) + seq!['\n'] + "0000000000 65535 f \n"@ + xref_entries(objects, n as int)
        + "trailer\n<< /Size "@ + decimal(n + 1) + " /Root 1 0 R >>\nstartxref\n"@ + decimal(
        15 + byte_len(objects_text(objects)),
    ) + "\n%%EOF\n"@
}

/// The PDF file for a sequence of lines.
pub open spec fn pdf_bytes_of(ls: Seq<PdfLineView>) -> Seq<u8> {
    let objects = pdf_objects(ls);
    pdf_header() + vstd::utf8::encode_utf8(objects_text(objects) + xref_text(objects))
}


fn push_escaped_pdf(out: &mut String, s: &str)
    ensures
        final(out)@ == old(out)@ + escape_pdf_of(s@),
{
    let cs = chars_of(s);
    let mut i: usize = 0;
    while i < cs.len()
        invariant
            i <= cs@.len(),
            cs@ == s@,
            out@ == old(out)@ + escape_pdf_of(cs@.take(i as int)),
        decreases cs@.len() - i,
    {
        let c = cs[i];
        if c == '(' {
            out.push('\\');
            out.push('(');
        } else if c == ')' {
            out.push('\\');
            out.push(')');
        } else if c == '\\' {
            out.push('\\');
            out.push('\\');
        } else if ' ' <= c && c <= '~' {
            out.push(c);
        } else {
            out.push('?');
        }
        assert(cs@.take(i + 1).drop_last() =~= cs@.take(i as int));
        assert(out@ =~= old(out)@ + escape_pdf_of(cs@.take(i + 1)));
        i = i + 1;
    }
    assert(cs@.take(cs@.len() as int) =~= cs@);
}

/// The largest advance a line can have, in quarter points.
pub open spec fn max_advance_q() -> int {
    589815
}

proof fn lemma_advance_sum_bounds(ls: Seq<PdfLineView>, start: int, j: int)
    requires
        start <= j,
    ensures
        0 <= advance_sum(ls, start, j) <= (j - start) * max_advance_q(),
    decreases j - start,
{
    if j > start {
        lemma_advance_sum_bounds(ls, start, j - 1);
        assert(advance_q(ls[j - 1]) <= max_advance_q());
    }
}

fn push_coord(out: &mut String, q: i128)
    requires
        -0x1000_0000_0000_0000_0000_0000_0000 <= q <= 0x1000_0000_0000_0000_0000_0000_0000,
    ensures
        final(out)@ == old(out)@ + coord_text(q as int),
{
    let m: u128 = if q < 0 {
        out.push('-');
        (-q) as u128
    } else {
        q as u128
    };
    let num = m * 10;
    let whole = num / 4;
    let rem = num % 4;
    let t: u128 = if rem > 2 {
        whole + 1
    } else if rem == 2 {
        whole + whole % 2
    } else {
        whole
    };
    assert(t == round_half_even(num as nat, 4));
    let digits = decimal_chars_wide(t / 10);
    push_chars(out, digits.as_slice());
    out.push('.');
    out.push(((t % 10) as u8 + 48) as char);
    assert(out@ =~= old(out)@ + coord_text(q as int));
}

fn push_decimal(out: &mut String, n: u128)
    ensures
        final(out)@ == old(out)@ + decimal(n as nat),
{
    let d = decimal_chars_wide(n);
    push_chars(out, d.as_slice());
}

fn advance(line: &PdfLine) -> (r: u64)
    ensures
        r == advance_q(line.deep_view()),
        r <= max_advance_q(),
{
    5 * (line.size as u64) + 4 * (line.gap_after as u64)
}

/// The page ranges of the lines.
fn paginate(lines: &Vec<PdfLine>) -> (r: Vec<(usize, usize)>)
    ensures
        r@.len() == page_ranges(lines.deep_view()).len(),
        forall|k: int| 0 <= k < r@.len() ==> (#[trigger] r@[k]).0 as int == page_ranges(lines.deep_view())[k].0
            && r@[k].1 as int == page_ranges(lines.deep_view())[k].1,
        forall|k: int| 0 <= k < r@.len() ==> (#[trigger] r@[k]).0 <= r@[k].1 <= lines@.len(),
{
    let ghost lv = lines.deep_view();
    let mut pages: Vec<(usize, usize)> = Vec::new();
    let mut start: usize = 0;
    let mut used: u64 = 0;
    let mut i: usize = 0;
    while i < lines.len()
        invariant
            i <= lines@.len(),
            lv == lines.deep_view(),
            start <= i,
            used <= 2744 + max_advance_q(),
            start == i ==> used == 0,
            paginate_state(lv, i as int).0.len() == pages@.len(),
            forall|k: int| 0 <= k < pages@.len() ==> (#[trigger] pages@[k]).0 as int == paginate_state(lv, i as int).0[k].0
                && pages@[k].1 as int == paginate_state(lv, i as int).0[k].1,
            forall|k: int| 0 <= k < pages@.len() ==> (#[trigger] pages@[k]).0 <= pages@[k].1 <= start,
            paginate_state(lv, i as int).1 == start as int,
            paginate_state(lv, i as int).2 == used as int,
        decreases lines@.len() - i,
    {
        assert(lv[i as int] == lines[i as int].deep_view());
        let adv = advance(&lines[i]);
        if i > start && used + adv > 2744 {
            pages.push((start, i));
            start = i;
            used = adv;
        } else {
            assert(used + adv <= 2744 + max_advance_q());
            used = used + adv;
        }
        i = i + 1;
    }
    pages.push((start, lines.len()));
    pages
}

/// A height small enough to be written out.
spec fn coord_ok(y: i128) -> bool {
    -0x1_0000_0000_0000_0000_0000_0000 <= y <= 0x1_0000_0000_0000_0000_0000_0000
}

/// An outline entry found while laying out the pages.
struct Outline {
    title: String,
    level: u8,
    page_id: u128,
    y: i128,
}

spec fn outline_view(o: Outline) -> OutlineView {
    OutlineView { title: o.title@, level: o.level, page_id: o.page_id as int, y: o.y as int }
}

spec fn outlines_view(os: Seq<Outline>) -> Seq<OutlineView> {
    os.map_values(|o: Outline| outline_view(o))
}

/// The drawing commands of a page, and its outline entries.
fn page_content(lines: &Vec<PdfLine>, start: usize, end: usize, page_id: u128, outlines: &mut Vec<Outline>) -> (r: String)
    requires
        start <= end <= lines@.len(),
        forall|i: int| 0 <= i < old(outlines)@.len() ==> coord_ok(#[trigger] old(outlines)@[i].y),
    ensures
        forall|i: int| 0 <= i < final(outlines)@.len() ==> coord_ok(#[trigger] final(outlines)@[i].y),
        r@ == page_stream(lines.deep_view(), start as int, end as int),
        outlines_view(final(outlines)@) == outlines_view(old(outlines)@) + page_outlines(
            lines.deep_view(),
            start as int,
            end as int,
            page_id as int,
        ),
{
    let ghost lv = lines.deep_view();
    let mut out = String::new();
    let mut y: i128 = 2960;
    let mut j = start;
    while j < end
        invariant
            start <= j <= end <= lines@.len(),
            lv == lines.deep_view(),
            y == top_q() - advance_sum(lv, start as int, j as int),
            out@ == page_stream(lv, start as int, j as int),
            outlines_view(outlines@) == outlines_view(old(outlines)@) + page_outlines(lv, start as int, j as int, page_id as int),
            forall|i: int| 0 <= i < outlines@.len() ==> coord_ok(#[trigger] outlines@[i].y),
        decreases end - j,
    {
        proof {
            lemma_advance_sum_bounds(lv, start as int, j as int);
            assert((j - start) * max_advance_q() <= 0x1000_0000_0000_0000_0000_0000) by (nonlinear_arith)
                requires
                    j - start <= usize::MAX,
            ;
        }
        let line = &lines[j];
        assert(lv[j as int] == line.deep_view());
        let ghost before = out@;
        push_str(&mut out, "BT /F1 ");
        push_decimal(&mut out, line.size as u128);
        push_str(&mut out, " Tf 1 0 0 1 ");
        push_coord(&mut out, 4 * (54 + line.indent as i128));
        out.push(' ');
        push_coord(&mut out, y);
        push_str(&mut out, " Tm (");
        push_escaped_pdf(&mut out, line.text.as_str());
        push_str(&mut out, ") Tj ET\n");
        assert(out@ =~= before + line_command(lv[j as int], y as int));
        let ghost outlines_before = outlines_view(outlines@);
        match line.outline_level {
            Some(level) => {
                let o = Outline { title: line.text.clone(), level, page_id, y };
                outlines.push(o);
                assert(outlines_view(outlines@) =~= outlines_before.push(outline_view(o)));
            },
            None => {},
        }
        assert(outlines_view(outlines@) =~= outlines_view(old(outlines)@) + page_outlines(lv, start as int, j + 1, page_id as int));
        let adv = advance(line);
        y = y - adv as i128;
        j = j + 1;
    }
    out
}


fn page_object_text(k: u128) -> (r: String)
    requires
        k < 0x1_0000_0000_0000_0000_0000,
    ensures
        r@ == page_object(k as int),
{
    let mut out = String::new();
    push_str(
        &mut out,
        "<< /Type /Page /Parent 2 0 R /MediaBox [0 0 612 792] /Resources << /Font << /F1 3 0 R >> >> /Contents ",
    );
    push_decimal(&mut out, 5 + 2 * k);
    push_str(&mut out, " 0 R >>");
    out
}

fn content_object_text(stream: &String) -> (r: String)
    ensures
        r@ == content_object(stream@),
{
    let mut out = String::new();
    push_str(&mut out, "<< /Length ");
    push_decimal(&mut out, stream.as_str().len() as u128);
    push_str(&mut out, " >>\nstream\n");
    push_str(&mut out, stream.as_str());
    push_str(&mut out, "endstream");
    out
}

fn kids(p: usize) -> (r: String)
    ensures
        r@ == kids_text(p as int),
{
    let mut out = String::new();
    let mut k: usize = 0;
    while k < p
        invariant
            k <= p,
            out@ == kids_text(k as int),
        decreases p - k,
    {
        if k > 0 {
            out.push(' ');
        }
        push_decimal(&mut out, 4 + 2 * (k as u128));
        push_str(&mut out, " 0 R");
        k = k + 1;
    }
    out
}

/// The page objects with their contents, and the outline entries of the
/// headings on them.
fn page_parts(lines: &Vec<PdfLine>, pages: &Vec<(usize, usize)>) -> (r: (Vec<String>, Vec<Outline>))
    requires
        pages@.len() == page_ranges(lines.deep_view()).len(),
        forall|k: int| 0 <= k < pages@.len() ==> (#[trigger] pages@[k]).0 as int == page_ranges(lines.deep_view())[k].0
            && pages@[k].1 as int == page_ranges(lines.deep_view())[k].1,
        forall|k: int| 0 <= k < pages@.len() ==> (#[trigger] pages@[k]).0 <= pages@[k].1 <= lines@.len(),
    ensures
        r.0.deep_view() == page_objects(lines.deep_view(), page_ranges(lines.deep_view()), pages@.len() as int),
        outlines_view(r.1@) == outlines_of(lines.deep_view(), page_ranges(lines.deep_view()), pages@.len() as int),
        forall|i: int| 0 <= i < r.1@.len() ==> coord_ok(#[trigger] r.1@[i].y),
{
    let ghost lv = lines.deep_view();
    let ghost pv = page_ranges(lv);
    let mut objects: Vec<String> = Vec::new();
    let mut outlines: Vec<Outline> = Vec::new();
    let mut k: usize = 0;
    while k < pages.len()
        invariant
            k <= pages@.len(),
            lv == lines.deep_view(),
            pv == page_ranges(lv),
            pages@.len() == pv.len(),
            forall|i: int| 0 <= i < pages@.len() ==> (#[trigger] pages@[i]).0 as int == pv[i].0 && pages@[i].1 as int == pv[i].1,
            forall|i: int| 0 <= i < pages@.len() ==> (#[trigger] pages@[i]).0 <= pages@[i].1 <= lines@.len(),
            objects.deep_view() == page_objects(lv, pv, k as int),
            outlines_view(outlines@) == outlines_of(lv, pv, k as int),
            forall|i: int| 0 <= i < outlines@.len() ==> coord_ok(#[trigger] outlines@[i].y),
        decreases pages@.len() - k,
    {
        let (start, end) = pages[k];
        let ghost before = objects.deep_view();
        let page = page_object_text(k as u128);
        objects.push(page);
        let stream = page_content(lines, start, end, 4 + 2 * (k as u128), &mut outlines);
        let content = content_object_text(&stream);
        objects.push(content);
        assert(objects.deep_view() =~= before + seq![
            page_object(k as int),
            content_object(page_stream(lv, pv[k as int].0, pv[k as int].1)),
        ]);
        k = k + 1;
    }
    (objects, outlines)
}

#[verifier::spinoff_prover]
#[verifier::rlimit(40)]
fn outline_item_text(o: &Outline, k: usize, n: usize, root: u128) -> (r: String)
    requires
        coord_ok(o.y),
        k < n,
        root < 0x1_0000_0000_0000_0000_0000,
    ensures
        r@ == outline_item(outline_view(*o), k as int, n as int, root as int),
{
    let id: u128 = root + 1 + k as u128;
    let pad: usize = if o.level > 0 {
        2 * (o.level as usize - 1)
    } else {
        0
    };
    let mut title = String::new();
    push_repeated(&mut title, ' ', pad);
    push_str(&mut title, o.title.as_str());
    let mut out = String::new();
    push_str(&mut out, "<< /Title (");
    push_escaped_pdf(&mut out, title.as_str());
    push_str(&mut out, ") /Parent ");
    push_decimal(&mut out, root);
    push_str(&mut out, " 0 R ");
    if k > 0 {
        push_str(&mut out, "/Prev ");
        push_decimal(&mut out, id - 1);
        push_str(&mut out, " 0 R ");
    }
    if k + 1 < n {
        push_str(&mut out, "/Next ");
        push_decimal(&mut out, id + 1);
        push_str(&mut out, " 0 R ");
    }
    push_str(&mut out, " /Dest [");
    push_decimal(&mut out, o.page_id);
    push_str(&mut out, " 0 R /XYZ 54.0 ");
    push_coord(&mut out, o.y);
    push_str(&mut out, " null] >>");
    out
}

/// The objects of the PDF, in order.
fn pdf_object_list(lines: &Vec<PdfLine>) -> (objects: Vec<String>)
    ensures
        objects.deep_view() == pdf_objects(lines.deep_view()),
{
    let ghost lv = lines.deep_view();
    let ghost pv = page_ranges(lv);
    let pages = paginate(lines);
    let (mut page_objs, outlines) = page_parts(lines, &pages);
    let ghost os = outlines_view(outlines@);
    let p = pages.len();
    let n = outlines.len();
    let root: u128 = 3 + 2 * (p as u128) + 1;
    let mut objects: Vec<String> = Vec::new();
    let mut catalog = String::new();
    if n == 0 {
        push_str(&mut catalog, "<< /Type /Catalog /Pages 2 0 R >>");
    } else {
        push_str(&mut catalog, "<< /Type /Catalog /Pages 2 0 R /Outlines ");
        push_decimal(&mut catalog, root);
        push_str(&mut catalog, " 0 R /PageMode /UseOutlines >>");
    }
    objects.push(catalog);
    let mut pages_object = String::new();
    push_str(&mut pages_object, "<< /Type /Pages /Kids [");
    let kid_refs = kids(p);
    push_str(&mut pages_object, kid_refs.as_str());
    push_str(&mut pages_object, "] /Count ");
    push_decimal(&mut pages_object, p as u128);
    push_str(&mut pages_object, " >>");
    objects.push(pages_object);
    let mut font = String::new();
    push_str(&mut font, "<< /Type /Font /Subtype /Type1 /BaseFont /Helvetica >>");
    objects.push(font);
    let ghost head = objects.deep_view();
    objects.append(&mut page_objs);
    assert(objects.deep_view() =~= head + page_objects(lv, pv, p as int));
    if n > 0 {
        let ghost before = objects.deep_view();
        let mut root_object = String::new();
        push_str(&mut root_object, "<< /Type /Outlines /First ");
        push_decimal(&mut root_object, root + 1);
        push_str(&mut root_object, " 0 R /Last ");
        push_decimal(&mut root_object, root + n as u128);
        push_str(&mut root_object, " 0 R /Count ");
        push_decimal(&mut root_object, n as u128);
        push_str(&mut root_object, " >>");
        let ghost root_text = root_object@;
        objects.push(root_object);
        let mut k: usize = 0;
        while k < n
            invariant
                k <= n,
                n == outlines@.len(),
                os == outlines_view(outlines@),
                root < 0x1_0000_0000_0000_0000_0000,
                forall|i: int| 0 <= i < outlines@.len() ==> coord_ok(#[trigger] outlines@[i].y),
                objects.deep_view() == before + seq![root_text] + outline_items(os, k as int, root as int),
                objects.deep_view().len() == before.len() + 1 + k,
            decreases n - k,
        {
            let item = outline_item_text(&outlines[k], k, n, root);
            assert(os[k as int] == outline_view(outlines@[k as int]));
            let ghost prev = objects.deep_view();
            objects.push(item);
            assert(objects.deep_view() =~= prev.push(item@));
            k = k + 1;
        }
        assert(objects.deep_view() =~= before + seq![root_text] + outline_items(os, os.len() as int, root as int));
    }
    proof {
        assert(os.len() == n);
        assert(pv.len() == p);
        let spec_objects = pdf_objects(lv);
        if n == 0 {
            assert(objects.deep_view() =~= spec_objects);
        } else {
            assert(objects.deep_view() =~= spec_objects);
        }
    }
    objects
}


fn push_padded10(out: &mut String, n: u128)
    ensures
        final(out)@ == old(out)@ + padded10(n as nat),
{
    let d = decimal_chars_wide(n);
    if d.len() < 10 {
        push_repeated(out, '0', 10 - d.len());
    }
    push_chars(out, d.as_slice());
}

/// The PDF file that shows the lines page by page, with an outline of the
/// headings when there are any.
fn write_pdf(lines: &Vec<PdfLine>) -> (r: Vec<u8>)
    ensures
        r@ == pdf_bytes_of(lines.deep_view()),
{
    let objects = pdf_object_list(lines);
    let ghost ov = objects.deep_view();
    let mut body = String::new();
    let mut k: usize = 0;
    while k < objects.len()
        invariant
            k <= objects@.len(),
            ov == objects.deep_view(),
            body@ == objects_text(ov.take(k as int)),
        decreases objects@.len() - k,
    {
        push_decimal(&mut body, k as u128 + 1);
        push_str(&mut body, " 0 obj\n");
        push_str(&mut body, objects[k].as_str());
        push_str(&mut body, "\nendobj\n");
        assert(ov.take(k + 1).drop_last() =~= ov.take(k as int));
        k = k + 1;
    }
    assert(ov.take(ov.len() as int) =~= ov);
    let n = objects.len();
    let mut xref = String::new();
    push_str(&mut xref, "xref\n0 ");
    push_decimal(&mut xref, n as u128 + 1);
    xref.push('\n');
    push_str(&mut xref, "0000000000 65535 f \n");
    let mut text = String::new();
    let mut j: usize = 0;
    while j < n
        invariant
            j <= n,
            n == ov.len(),
            ov == objects.deep_view(),
            xref@ == "xref\n0 "@ + decimal((n + 1) as nat) + seq!['\n'] + "0000000000 65535 f \n"@ + xref_entries(ov, j as int),
            text@ == objects_text(ov.take(j as int)),
        decreases n - j,
    {
        push_padded10(&mut xref, 15 + text.as_str().len() as u128);
        push_str(&mut xref, " 00000 n \n");
        push_decimal(&mut text, j as u128 + 1);
        push_str(&mut text, " 0 obj\n");
        push_str(&mut text, objects[j].as_str());
        push_str(&mut text, "\nendobj\n");
        assert(ov.take(j + 1).drop_last() =~= ov.take(j as int));
        j = j + 1;
    }
    push_str(&mut xref, "trailer\n<< /Size ");
    push_decimal(&mut xref, n as u128 + 1);
    push_str(&mut xref, " /Root 1 0 R >>\nstartxref\n");
    push_decimal(&mut xref, 15 + body.as_str().len() as u128);
    push_str(&mut xref, "\n%%EOF\n");
    let ghost xref_spec = xref_text(ov);
    assert(xref@ =~= xref_spec);
    push_str(&mut body, xref.as_str());
    let mut pdf: Vec<u8> = vec![0x25u8, 0x50, 0x44, 0x46, 0x2d, 0x31, 0x2e, 0x34, 0x0a, 0x25, 0xe2, 0xe3, 0xcf, 0xd3, 0x0a];
    let mut rest = vstd::slice::slice_to_vec(body.as_str().as_bytes());
    pdf.append(&mut rest);
    assert(pdf@ =~= pdf_bytes_of(lines.deep_view()));
    pdf
}


/// The PDF file of a document.
pub open spec fn pdf_document_bytes(
    title: Seq<char>,
    blocks: Seq<BlockView>,
    document_path: Option<Seq<char>>,
    files: Seq<(Seq<char>, ImageFile)>,
) -> Seq<u8> {
    pdf_bytes_of(blocks_lines_of(title, blocks, document_path, files))
}

/// Exports a document as a PDF file: its title and blocks as lines of text,
/// laid out on letter pages, with an outline of its headings. What is known of
/// the local image files comes in `files`.
pub fn export_pdf(document: &Document, files: &[ImageFileInfo]) -> (r: Vec<u8>)
    ensures
        r@ == pdf_document_bytes(document.title_view(), document.parsed_view(), document.path_view(), files.deep_view()),
{
    let lines = pdf_lines(document, files);
    write_pdf(&lines)
}

/// The local files that the images of a document stand for, in order.
pub open spec fn image_paths_of(blocks: Seq<BlockView>, document_path: Option<Seq<char>>) -> Seq<Seq<char>>
    decreases blocks.len(),
{
    if blocks.len() == 0 {
        Seq::empty()
    } else {
        image_paths_of(blocks.drop_last(), document_path) + match blocks.last() {
            BlockView::Image { url, .. } => match local_image_path_of(url, document_path) {
                Some(p) => seq![p],
                None => Seq::empty(),
            },
            _ => Seq::empty(),
        }
    }
}

/// The local files whose size the PDF of a document reports.
pub fn pdf_image_paths(document: &Document) -> (r: Vec<String>)
    ensures
        r.deep_view() == image_paths_of(document.parsed_view(), document.path_view()),
{
    let parsed = document.parsed();
    let ghost bv = parsed.deep_view();
    let ghost dp = document.path_view();
    let mut out: Vec<String> = Vec::new();
    let mut i: usize = 0;
    while i < parsed.blocks.len()
        invariant
            i <= parsed.blocks@.len(),
            bv == parsed.deep_view(),
            bv == document.parsed_view(),
            dp == document.path_view(),
            bv.len() == parsed.blocks@.len(),
            out.deep_view() == image_paths_of(bv.take(i as int), dp),
        decreases parsed.blocks@.len() - i,
    {
        assert(bv.take(i + 1).drop_last() =~= bv.take(i as int));
        assert(bv[i as int] == parsed.blocks@[i as int].deep_view());
        match &parsed.blocks[i] {
            Block::Image { url, .. } => {
                match local_image_path(url.as_str(), document.path()) {
                    Some(p) => {
                        let ghost before = out.deep_view();
                        out.push(p);
                        assert(out.deep_view() =~= before.push(p@));
                    },
                    None => {},
                }
            },
            _ => {},
        }
        assert(out.deep_view() =~= image_paths_of(bv.take(i + 1), dp));
        i = i + 1;
    }
    assert(bv.take(bv.len() as int) =~= bv);
    out
}


proof fn lemma_objects_text_prefix(objects: Seq<Seq<char>>, j: int)
    requires
        0 <= j <= objects.len(),
    ensures
        objects_text(objects) =~= objects_text(objects.take(j)) + objects_text(objects).skip(
            objects_text(objects.take(j)).len() as int,
        ),
        objects_text(objects.take(j)).len() <= objects_text(objects).len(),
    decreases objects.len() - j,
{
    if j == objects.len() {
        assert(objects.take(j) =~= objects);
    } else {
        lemma_objects_text_prefix(objects, j + 1);
        let a = objects_text(objects.take(j));
        let b = objects_text(objects.take(j + 1));
        assert(objects.take(j + 1).drop_last() =~= objects.take(j));
        assert(b == a + decimal((j + 1) as nat) + " 0 obj\n"@ + objects[j] + "\nendobj\n"@);
        let t = objects_text(objects);
        assert(t.take(b.len() as int) =~= b);
        assert(t.take(a.len() as int) =~= a);
    }
}

proof fn lemma_encoded_prefix(pre: Seq<char>, mid: Seq<char>, rest: Seq<char>)
    requires
        vstd::utf8::encode_utf8(pre + mid + rest).len() <= usize::MAX,
    ensures
        ({
            let all = pdf_header() + vstd::utf8::encode_utf8(pre + mid + rest);
            let off = 15 + byte_len(pre);
            let e = vstd::utf8::encode_utf8(mid);
            all.subrange(off as int, (off + e.len()) as int) == e
        }),
{
    crate::text::lemma_encode_utf8_concat(pre + mid, rest);
    crate::text::lemma_encode_utf8_concat(pre, mid);
    let epre = vstd::utf8::encode_utf8(pre);
    let e = vstd::utf8::encode_utf8(mid);
    let all = pdf_header() + vstd::utf8::encode_utf8(pre + mid + rest);
    assert(all =~= pdf_header() + epre + e + vstd::utf8::encode_utf8(rest));
    assert(byte_len(pre) == epre.len());
    assert(all.subrange(15 + epre.len() as int, (15 + epre.len() + e.len()) as int) =~= e);
}

proof fn lemma_object_heads(objects: Seq<Seq<char>>, tail: Seq<char>, k: int)
    requires
        0 <= k < objects.len(),
        vstd::utf8::encode_utf8(objects_text(objects) + tail).len() <= usize::MAX,
    ensures
        ({
            let all = pdf_header() + vstd::utf8::encode_utf8(objects_text(objects) + tail);
            let off = 15 + byte_len(objects_text(objects.take(k)));
            let e = vstd::utf8::encode_utf8(decimal((k + 1) as nat) + " 0 obj\n"@);
            all.subrange(off as int, (off + e.len()) as int) == e
        }),
{
    let t = objects_text(objects);
    let tk = objects_text(objects.take(k));
    let p = decimal((k + 1) as nat) + " 0 obj\n"@;
    lemma_objects_text_prefix(objects, k);
    lemma_objects_text_prefix(objects, k + 1);
    assert(objects.take(k + 1).drop_last() =~= objects.take(k));
    let tk1 = objects_text(objects.take(k + 1));
    assert(tk1 == tk + p + objects[k] + "\nendobj\n"@);
    let rest = t.skip(tk.len() as int);
    assert(t.take(tk1.len() as int) =~= tk1);
    assert(rest.take(p.len() as int) =~= p);
    let after = rest.skip(p.len() as int) + tail;
    assert(t + tail =~= tk + p + after);
    lemma_encoded_prefix(tk, p, after);
}

proof fn lemma_xref_mark(objects: Seq<Seq<char>>)
    requires
        vstd::utf8::encode_utf8(objects_text(objects) + xref_text(objects)).len() <= usize::MAX,
    ensures
        ({
            let all = pdf_header() + vstd::utf8::encode_utf8(objects_text(objects) + xref_text(objects));
            let start = 15 + byte_len(objects_text(objects));
            let e = vstd::utf8::encode_utf8("xref\n"@);
            all.subrange(start as int, (start + e.len()) as int) == e
        }),
{
    let t = objects_text(objects);
    let x = xref_text(objects);
    let m = "xref\n"@;
    reveal_strlit("xref\n");
    reveal_strlit("xref\n0 ");
    assert(x.take(5) =~= m);
    assert(t + x =~= t + m + x.skip(5));
    lemma_encoded_prefix(t, m, x.skip(5));
}

/// The cross-reference table tells where each object starts: the bytes at
/// the offset it records for object `k` open that object, and the offset
/// after `startxref` is where the table itself starts. Offsets are `usize`
/// values, so this holds of files whose length fits in one.
pub proof fn lemma_pdf_offsets_point_at_objects(ls: Seq<PdfLineView>, k: int)
    requires
        0 <= k < pdf_objects(ls).len(),
        pdf_bytes_of(ls).len() <= usize::MAX,
    ensures
        ({
            let objects = pdf_objects(ls);
            let off = 15 + byte_len(objects_text(objects.take(k)));
            let head = vstd::utf8::encode_utf8(decimal((k + 1) as nat) + " 0 obj\n"@);
            pdf_bytes_of(ls).subrange(off as int, (off + head.len()) as int) == head
        }),
        ({
            let objects = pdf_objects(ls);
            let start = 15 + byte_len(objects_text(objects));
            let mark = vstd::utf8::encode_utf8("xref\n"@);
            pdf_bytes_of(ls).subrange(start as int, (start + mark.len()) as int) == mark
        }),
{
    let objects = pdf_objects(ls);
    lemma_object_heads(objects, xref_text(objects), k);
    lemma_xref_mark(objects);
}

} // verus!
