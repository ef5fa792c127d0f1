use vstd::prelude::*;

use crate::document::Document;
use crate::parser::elements::diagram::{
    flowchart_of, flowchart_preview, EdgeView, FlowchartDirection, FlowchartEdge,
};
use crate::parser::{
    BlockView, Block, HeadingLevel, InlineSpan, ItemView, ListItem, SpanView, TableAlignment,
    TocView, toc_of,
};
use crate::pdf::{export_pdf, pdf_document_bytes, ImageFileInfo};
use crate::text::{
    char_ascii_lower, chars_eq, chars_of, digit_char, is_blank, push_str, seq_ascii_lower, trim,
    trim_chars,
};

verus! {

/// The style sheet of exported HTML pages.
pub const CSS: &'static str = r#"    :root {
      color-scheme: light;
      --shell-bg: #111318;
      --paper-bg: #fdf8ef;
      --reader-text: #1f2328;
      --muted-text: #525862;
      --accent: #58a6ff;
      --border: #d0d7de;
      --panel-bg: #f6f8fa;
      --math-accent: #d29922;
      font-family: Inter, ui-sans-serif, system-ui, -apple-system, BlinkMacSystemFont, "Segoe UI", sans-serif;
      background: var(--shell-bg);
      color: var(--reader-text);
    }
    body {
      margin: 0;
      background: var(--shell-bg);
    }
    .paper {
      box-sizing: border-box;
      max-width: 900px;
      min-height: 100vh;
      margin: 0 auto;
      padding: 56px;
      background: var(--paper-bg);
      box-shadow: 0 0 0 1px rgba(208, 215, 222, 0.35), 0 24px 80px rgba(0, 0, 0, 0.32);
    }
    h1, h2, h3, h4, h5, h6 {
      line-height: 1.2;
      margin: 1.25em 0 0.55em;
      letter-spacing: 0;
    }
    h1 {
      margin-top: 0;
      padding-bottom: 0.35em;
      border-bottom: 1px solid var(--border);
    }
    p, blockquote, li {
      line-height: 1.65;
    }
    a {
      color: #0969da;
      text-decoration-thickness: 0.08em;
      text-underline-offset: 0.18em;
    }
    .callout {
      margin: 1em 0;
      padding: 0.65em 1em;
      border-left: 4px solid var(--accent);
      color: var(--muted-text);
      background: var(--panel-bg);
    }
    .source-panel {
      overflow: auto;
      padding: 1em;
      border: 1px solid var(--border);
      border-radius: 6px;
      background: var(--panel-bg);
    }
    .diagram-panel {
      border-left: 4px solid var(--accent);
    }
    .flowchart-preview {
      margin: 1em 0 0.6em;
      padding: 1em;
      border: 1px solid var(--border);
      border-left: 4px solid var(--accent);
      border-radius: 6px;
      background: var(--panel-bg);
    }
    .flowchart-title {
      margin: 0 0 0.75em;
      color: var(--muted-text);
      font-size: 0.9em;
    }
    .flowchart-edge {
      display: flex;
      flex-wrap: wrap;
      align-items: center;
      gap: 0.5em;
      margin-top: 0.5em;
    }
    .flowchart-node {
      padding: 0.35em 0.6em;
      border: 1px solid var(--border);
      border-radius: 4px;
      background: var(--paper-bg);
    }
    .flowchart-arrow {
      color: var(--accent);
      font-weight: 700;
    }
    .flowchart-label {
      color: var(--muted-text);
      font-size: 0.9em;
    }
    code {
      font-family: "JetBrains Mono", ui-monospace, SFMono-Regular, Menlo, Consolas, monospace;
      font-size: 0.92em;
    }
    :not(pre) > code {
      padding: 0.1em 0.3em;
      border-radius: 4px;
      background: var(--panel-bg);
    }
    .data-table {
      width: 100%;
      border-collapse: collapse;
      margin: 1em 0;
    }
    th, td {
      padding: 0.55em 0.7em;
      border: 1px solid var(--border);
      text-align: left;
      vertical-align: top;
    }
    th {
      background: var(--panel-bg);
    }
    .align-center {
      text-align: center;
    }
    .align-right {
      text-align: right;
    }
    .media-block {
      margin: 1.25em 0;
    }
    img {
      max-width: 100%;
      border-radius: 6px;
    }
    figcaption {
      margin-top: 0.4em;
      color: var(--muted-text);
      font-size: 0.9em;
    }
    .task-list {
      list-style: none;
      padding-left: 0;
    }
    .task-item input {
      margin-right: 0.45em;
      accent-color: var(--accent);
    }
    .math {
      border-left: 4px solid var(--math-accent);
    }
    @media (max-width: 720px) {
      .paper {
        padding: 28px;
      }
    }
"#;

/// An export target.
#[derive(Debug, Clone, Copy, PartialEq, Eq, Structural)]
pub enum ExportFormat {
    Html,
    Pdf,
}

impl ExportFormat {
    /// The file extension of the format.
    pub fn extension(self) -> (r: &'static str)
        ensures
            r@ == format_extension(self),
    {
        match self {
            ExportFormat::Html => "html",
            ExportFormat::Pdf => "pdf",
        }
    }

    /// The format a name stands for: `html` or `pdf`, in any ASCII case,
    /// with surrounding whitespace ignored.
    pub fn parse(value: &str) -> (r: Result<ExportFormat, ExportFormatParseError>)
        ensures
            match format_of_name(value@) {
                Some(f) => r == Ok::<ExportFormat, ExportFormatParseError>(f),
                None => r matches Err(e) && e.format@ == value@,
            },
    {
        let cs = chars_of(value);
        let t = trim_chars(cs.as_slice());
        let mut lower: Vec<char> = Vec::new();
        let mut i: usize = 0;
        while i < t.len()
            invariant
                i <= t@.len(),
                lower@ == seq_ascii_lower(t@.take(i as int)),
            decreases t@.len() - i,
        {
            lower.push(char_ascii_lower(t[i]));
            assert(lower@ =~= seq_ascii_lower(t@.take(i + 1)));
            i = i + 1;
        }
        assert(t@.take(t@.len() as int) =~= t@);
        if chars_eq(lower.as_slice(), &['h', 't', 'm', 'l']) {
            Ok(ExportFormat::Html)
        } else if chars_eq(lower.as_slice(), &['p', 'd', 'f']) {
            Ok(ExportFormat::Pdf)
        } else {
            Err(ExportFormatParseError { format: value.to_owned() })
        }
    }
}

impl std::str::FromStr for ExportFormat {
    type Err = ExportFormatParseError;

    fn from_str(value: &str) -> Result<ExportFormat, ExportFormatParseError> {
        ExportFormat::parse(value)
    }
}

/// The extension of an export format.
pub open spec fn format_extension(f: ExportFormat) -> Seq<char> {
    match f {
        ExportFormat::Html => "html"@,
        ExportFormat::Pdf => "pdf"@,
    }
}

/// The format a name stands for, if any.
pub open spec fn format_of_name(name: Seq<char>) -> Option<ExportFormat> {
    let n = seq_ascii_lower(trim(name));
    if n == seq!['h', 't', 'm', 'l'] {
        Some(ExportFormat::Html)
    } else if n == seq!['p', 'd', 'f'] {
        Some(ExportFormat::Pdf)
    } else {
        None
    }
}

/// A name that is no export format.
#[derive(Debug, Clone, PartialEq, Eq)]
pub struct ExportFormatParseError {
    pub format: String,
}

impl ExportFormatParseError {
    /// The error as one line of text.
    pub fn message(&self) -> (r: String)
        ensures
            r@ == "unsupported export format: "@ + self.format@ + " (supported: html, pdf)"@,
    {
        let mut out = String::new();
        push_str(&mut out, "unsupported export format: ");
        push_str(&mut out, self.format.as_str());
        push_str(&mut out, " (supported: html, pdf)");
        out
    }
}

/// Why an export failed.
#[derive(Debug, Clone, PartialEq, Eq)]
pub enum ExportError {
    PdfUnavailable,
}

impl ExportError {
    /// The error as one line of text.
    pub fn message(&self) -> (r: String)
        ensures
            r@ == "PDF export is not available yet"@,
    {
        let mut out = String::new();
        push_str(&mut out, "PDF export is not available yet");
        out
    }
}

/// An exported file: its extension and its bytes.
#[derive(Debug, Clone, PartialEq, Eq)]
pub struct ExportArtifact {
    extension: &'static str,
    contents: Vec<u8>,
}

impl View for ExportArtifact {
    type V = (Seq<char>, Seq<u8>);

    closed spec fn view(&self) -> (Seq<char>, Seq<u8>) {
        (self.extension@, self.contents@)
    }
}

impl ExportArtifact {
    /// The file extension.
    pub fn extension(&self) -> (r: &'static str)
        ensures
            r@ == self@.0,
    {
        self.extension
    }

    /// The file's bytes.
    pub fn contents(&self) -> (r: &[u8])
        ensures
            r@ == self@.1,
    {
        self.contents.as_slice()
    }
}

/// Text with `&`, `<` and `>` escaped, and in attributes `"` too.
pub open spec fn escape_char(c: char, attr: bool) -> Seq<char> {
    if c == '&' {
        "&amp;"@
    } else if c == '<' {
        "&lt;"@
    } else if c == '>' {
        "&gt;"@
    } else if attr && c == '"' {
        "&quot;"@
    } else {
        seq![c]
    }
}

/// `s` escaped for HTML text, or for an attribute value.
pub open spec fn escaped(s: Seq<char>, attr: bool) -> Seq<char>
    decreases s.len(),
{
    if s.len() == 0 {
        Seq::empty()
    } else {
        escaped(s.drop_last(), attr) + escape_char(s.last(), attr)
    }
}

/// Appends `s`, escaped.
pub fn push_escaped(out: &mut String, s: &str, attr: bool)
    ensures
        final(out)@ == old(out)@ + escaped(s@, attr),
{
    let cs = chars_of(s);
    let mut i: usize = 0;
    while i < cs.len()
        invariant
            i <= cs@.len(),
            cs@ == s@,
            out@ == old(out)@ + escaped(cs@.take(i as int), attr),
        decreases cs@.len() - i,
    {
        let c = cs[i];
        let ghost before = out@;
        if c == '&' {
            push_str(out, "&amp;");
        } else if c == '<' {
            push_str(out, "&lt;");
        } else if c == '>' {
            push_str(out, "&gt;");
        } else if attr && c == '"' {
            push_str(out, "&quot;");
        } else {
            out.push(c);
        }
        assert(cs@.take(i + 1).drop_last() =~= cs@.take(i as int));
        assert(out@ =~= old(out)@ + escaped(cs@.take(i + 1), attr));
        i = i + 1;
    }
    assert(cs@.take(cs@.len() as int) =~= cs@);
}

/// Appends `s` when `b` holds.
pub open spec fn when(b: bool, s: Seq<char>) -> Seq<char> {
    if b {
        s
    } else {
        Seq::empty()
    }
}

/// The opening of an inline span: its link, then its style tags.
pub open spec fn span_open_html(span: SpanView) -> Seq<char> {
    link_open_html(span) + when(span.strong, "<strong>"@) + when(span.emphasis, "<em>"@) + when(span.code, "<code>"@)
        + when(span.math, "<code class=\"math inline\">"@)
}

/// The closing of an inline span, in the reverse order of its opening.
pub open spec fn span_close_html(span: SpanView) -> Seq<char> {
    when(span.math, "</code>"@) + when(span.code, "</code>"@) + when(span.emphasis, "</em>"@) + when(
        span.strong,
        "</strong>"@,
    ) + when(span.link is Some, "</a>"@)
}

/// One inline span as HTML: its text inside its link and style tags.
pub open spec fn span_html(span: SpanView) -> Seq<char> {
    span_open_html(span) + escaped(span.text, false) + span_close_html(span)
}

/// Appends `s` when `b` holds.
fn push_when(out: &mut String, b: bool, s: &str)
    ensures
        final(out)@ == old(out)@ + when(b, s@),
{
    if b {
        push_str(out, s);
    } else {
        assert(out@ =~= old(out)@ + when(b, s@));
    }
}

/// The link that opens a span, if it has one.
pub open spec fn link_open_html(span: SpanView) -> Seq<char> {
    match span.link {
        Some(l) => "<a href=\""@ + escaped(l, true) + "\">"@,
        None => Seq::empty(),
    }
}

fn push_link_open(out: &mut String, span: &InlineSpan)
    ensures
        final(out)@ == old(out)@ + link_open_html(span.deep_view()),
{
    match &span.link {
        Some(l) => {
            push_str(out, "<a href=\"");
            push_escaped(out, l.as_str(), true);
            push_str(out, "\">");
            assert(out@ =~= old(out)@ + link_open_html(span.deep_view()));
        },
        None => {
            assert(out@ =~= old(out)@ + link_open_html(span.deep_view()));
        },
    }
}

fn push_span_open(out: &mut String, span: &InlineSpan)
    ensures
        final(out)@ == old(out)@ + span_open_html(span.deep_view()),
{
    let ghost v = span.deep_view();
    push_link_open(out, span);
    let ghost p1 = link_open_html(v);
    let ghost p2 = p1 + when(v.strong, "<strong>"@);
    let ghost p3 = p2 + when(v.emphasis, "<em>"@);
    let ghost p4 = p3 + when(v.code, "<code>"@);
    let ghost p5 = p4 + when(v.math, "<code class=\"math inline\">"@);
    push_when(out, span.strong, "<strong>");
    assert(out@ =~= old(out)@ + p2);
    push_when(out, span.emphasis, "<em>");
    assert(out@ =~= old(out)@ + p3);
    push_when(out, span.code, "<code>");
    assert(out@ =~= old(out)@ + p4);
    push_when(out, span.math, "<code class=\"math inline\">");
    assert(out@ =~= old(out)@ + p5);
}

fn push_span_close(out: &mut String, span: &InlineSpan)
    ensures
        final(out)@ == old(out)@ + span_close_html(span.deep_view()),
{
    push_when(out, span.math, "</code>");
    push_when(out, span.code, "</code>");
    push_when(out, span.emphasis, "</em>");
    push_when(out, span.strong, "</strong>");
    push_when(out, span.link.is_some(), "</a>");
    assert(out@ =~= old(out)@ + span_close_html(span.deep_view()));
}

fn push_span(out: &mut String, span: &InlineSpan)
    ensures
        final(out)@ == old(out)@ + span_html(span.deep_view()),
{
    push_span_open(out, span);
    push_escaped(out, span.text.as_str(), false);
    push_span_close(out, span);
    assert(out@ =~= old(out)@ + span_html(span.deep_view()));
}

/// Inline spans as HTML, one after another.
pub open spec fn spans_html(spans: Seq<SpanView>) -> Seq<char>
    decreases spans.len(),
{
    if spans.len() == 0 {
        Seq::empty()
    } else {
        spans_html(spans.drop_last()) + span_html(spans.last())
    }
}

fn push_spans(out: &mut String, spans: &[InlineSpan])
    ensures
        final(out)@ == old(out)@ + spans_html(spans.deep_view()),
{
    let ghost sv = spans.deep_view();
    let mut i: usize = 0;
    assert(sv.take(0) =~= Seq::<SpanView>::empty());
    while i < spans.len()
        invariant
            i <= spans@.len(),
            sv == spans.deep_view(),
            out@ == old(out)@ + spans_html(sv.take(i as int)),
        decreases spans@.len() - i,
    {
        assert(sv.take(i + 1).drop_last() =~= sv.take(i as int));
        assert(sv.take(i + 1).last() == spans[i as int].deep_view());
        push_span(out, &spans[i]);
        assert(out@ =~= old(out)@ + spans_html(sv.take(i + 1)));
        i = i + 1;
    }
    assert(sv.take(spans@.len() as int) =~= sv);
}

/// A heading as HTML, with its anchor when it has one.
pub open spec fn heading_html(level: HeadingLevel, spans: Seq<SpanView>, slug: Option<Seq<char>>) -> Seq<char> {
    let d = seq![digit_char(level.depth() as nat)];
    "<h"@ + d + (match slug {
        Some(s) => " id=\""@ + escaped(s, true) + seq!['"'],
        None => Seq::empty(),
    }) + seq!['>'] + spans_html(spans) + "</h"@ + d + ">\n"@
}

fn push_heading(out: &mut String, level: HeadingLevel, spans: &[InlineSpan], slug: Option<&str>)
    ensures
        final(out)@ == old(out)@ + heading_html(level, spans.deep_view(), match slug {
            Some(s) => Some(s@),
            None => None,
        }),
{
    let depth = level.as_depth();
    let d = ((depth + 48) as char);
    push_str(out, "<h");
    out.push(d);
    match slug {
        Some(s) => {
            push_str(out, " id=\"");
            push_escaped(out, s, true);
            out.push('"');
        },
        None => {},
    }
    out.push('>');
    push_spans(out, spans);
    push_str(out, "</h");
    out.push(d);
    push_str(out, ">\n");
    assert(d == digit_char(level.depth() as nat));
    assert(out@ =~= old(out)@ + heading_html(level, spans.deep_view(), match slug {
        Some(s) => Some(s@),
        None => None,
    }));
}

/// A block of source text as HTML, marked with its language when it names one.
pub open spec fn code_block_html(language: Option<Seq<char>>, code: Seq<char>, class: Seq<char>) -> Seq<char> {
    "<pre class=\""@ + class + "\"><code"@ + (match language {
        Some(l) => if trim(l).len() > 0 {
            " class=\"language-"@ + escaped(l, true) + seq!['"']
        } else {
            Seq::empty()
        },
        None => Seq::empty(),
    }) + seq!['>'] + escaped(code, false) + "</code></pre>\n"@
}

fn push_code_block(out: &mut String, language: Option<&str>, code: &str, class: &str)
    ensures
        final(out)@ == old(out)@ + code_block_html(match language {
            Some(l) => Some(l@),
            None => None,
        }, code@, class@),
{
    push_str(out, "<pre class=\"");
    push_str(out, class);
    push_str(out, "\"><code");
    match language {
        Some(l) => {
            let cs = chars_of(l);
            if !is_blank(cs.as_slice()) {
                push_str(out, " class=\"language-");
                push_escaped(out, l, true);
                out.push('"');
            }
        },
        None => {},
    }
    out.push('>');
    push_escaped(out, code, false);
    push_str(out, "</code></pre>\n");
    assert(out@ =~= old(out)@ + code_block_html(match language {
        Some(l) => Some(l@),
        None => None,
    }, code@, class@));
}

/// How a flowchart direction reads.
pub open spec fn direction_label(d: FlowchartDirection) -> Seq<char> {
    match d {
        FlowchartDirection::TopDown => "top down"@,
        FlowchartDirection::BottomTop => "bottom to top"@,
        FlowchartDirection::LeftRight => "left to right"@,
        FlowchartDirection::RightLeft => "right to left"@,
    }
}

/// One flowchart edge as HTML.
pub open spec fn edge_html(e: EdgeView) -> Seq<char> {
    "<div class=\"flowchart-edge\"><span class=\"flowchart-node\">"@ + escaped(e.0, false)
        + "</span><span class=\"flowchart-arrow\">-&gt;</span>"@ + (match e.2 {
        Some(l) => "<span class=\"flowchart-label\">"@ + escaped(l, false) + "</span>"@,
        None => Seq::empty(),
    }) + "<span class=\"flowchart-node\">"@ + escaped(e.1, false) + "</span></div>\n"@
}

/// Flowchart edges as HTML, one after another.
pub open spec fn edges_html(es: Seq<EdgeView>) -> Seq<char>
    decreases es.len(),
{
    if es.len() == 0 {
        Seq::empty()
    } else {
        edges_html(es.drop_last()) + edge_html(es.last())
    }
}

/// A flowchart preview as HTML.
pub open spec fn flowchart_html(d: FlowchartDirection, es: Seq<EdgeView>) -> Seq<char> {
    "<section class=\"flowchart-preview\"><p class=\"flowchart-title\">flowchart preview - "@
        + direction_label(d) + "</p>\n"@ + edges_html(es) + "</section>\n"@
}

fn push_edge(out: &mut String, e: &FlowchartEdge)
    ensures
        final(out)@ == old(out)@ + edge_html(e.deep_view()),
{
    push_str(out, "<div class=\"flowchart-edge\"><span class=\"flowchart-node\">");
    push_escaped(out, e.from.as_str(), false);
    push_str(out, "</span><span class=\"flowchart-arrow\">-&gt;</span>");
    match &e.label {
        Some(l) => {
            push_str(out, "<span class=\"flowchart-label\">");
            push_escaped(out, l.as_str(), false);
            push_str(out, "</span>");
        },
        None => {},
    }
    push_str(out, "<span class=\"flowchart-node\">");
    push_escaped(out, e.to.as_str(), false);
    push_str(out, "</span></div>\n");
    assert(out@ =~= old(out)@ + edge_html(e.deep_view()));
}

fn push_flowchart(out: &mut String, direction: FlowchartDirection, edges: &[FlowchartEdge])
    ensures
        final(out)@ == old(out)@ + flowchart_html(direction, edges.deep_view()),
{
    push_str(out, "<section class=\"flowchart-preview\"><p class=\"flowchart-title\">flowchart preview - ");
    match direction {
        FlowchartDirection::TopDown => push_str(out, "top down"),
        FlowchartDirection::BottomTop => push_str(out, "bottom to top"),
        FlowchartDirection::LeftRight => push_str(out, "left to right"),
        FlowchartDirection::RightLeft => push_str(out, "right to left"),
    }
    push_str(out, "</p>\n");
    let ghost before_edges = out@;
    let ghost ev = edges.deep_view();
    let mut i: usize = 0;
    assert(ev.take(0) =~= Seq::<EdgeView>::empty());
    while i < edges.len()
        invariant
            i <= edges@.len(),
            ev == edges.deep_view(),
            out@ == before_edges + edges_html(ev.take(i as int)),
        decreases edges@.len() - i,
    {
        assert(ev.take(i + 1).drop_last() =~= ev.take(i as int));
        assert(ev.take(i + 1).last() == edges[i as int].deep_view());
        push_edge(out, &edges[i]);
        assert(out@ =~= before_edges + edges_html(ev.take(i + 1)));
        i = i + 1;
    }
    assert(ev.take(edges@.len() as int) =~= ev);
    push_str(out, "</section>\n");
    assert(out@ =~= old(out)@ + flowchart_html(direction, ev));
}

/// The class of an aligned table cell.
pub open spec fn alignment_class(a: TableAlignment) -> Option<Seq<char>> {
    match a {
        TableAlignment::Unaligned => None,
        TableAlignment::Left => Some("align-left"@),
        TableAlignment::Center => Some("align-center"@),
        TableAlignment::Right => Some("align-right"@),
    }
}

/// Every alignment but none gives its column a class, and no two
/// alignments share one, so an export keeps every column's alignment.
pub proof fn lemma_alignment_classes_distinct(a: TableAlignment, b: TableAlignment)
    ensures
        (alignment_class(a) is None) == (a == TableAlignment::Unaligned),
        alignment_class(a) == alignment_class(b) ==> a == b,
{
    reveal_strlit("align-left");
    reveal_strlit("align-center");
    reveal_strlit("align-right");
    assert("align-left"@.len() == 10);
    assert("align-center"@.len() == 12);
    assert("align-right"@.len() == 11);
}

/// The alignment of column `i`; none past the alignments given.
pub open spec fn column_alignment(alignments: Seq<TableAlignment>, i: int) -> TableAlignment {
    if 0 <= i < alignments.len() {
        alignments[i]
    } else {
        TableAlignment::Unaligned
    }
}

/// One table cell as HTML.
pub open spec fn cell_html(tag: Seq<char>, cell: Seq<SpanView>, a: TableAlignment) -> Seq<char> {
    seq!['<'] + tag + (match alignment_class(a) {
        Some(c) => " class=\""@ + c + seq!['"'],
        None => Seq::empty(),
    }) + seq!['>'] + spans_html(cell) + "</"@ + tag + seq!['>']
}

/// The cells of a row as HTML, each aligned by its column.
pub open spec fn cells_html(tag: Seq<char>, cells: Seq<Seq<SpanView>>, alignments: Seq<TableAlignment>) -> Seq<char>
    decreases cells.len(),
{
    if cells.len() == 0 {
        Seq::empty()
    } else {
        cells_html(tag, cells.drop_last(), alignments) + cell_html(
            tag,
            cells.last(),
            column_alignment(alignments, cells.len() - 1),
        )
    }
}

/// The body rows of a table as HTML.
pub open spec fn rows_html(rows: Seq<Seq<Seq<SpanView>>>, alignments: Seq<TableAlignment>) -> Seq<char>
    decreases rows.len(),
{
    if rows.len() == 0 {
        Seq::empty()
    } else {
        rows_html(rows.drop_last(), alignments) + "<tr>"@ + cells_html("td"@, rows.last(), alignments)
            + "</tr>\n"@
    }
}

/// A table as HTML: its header row and its body rows, each part only when
/// it has rows.
pub open spec fn table_html(
    alignments: Seq<TableAlignment>,
    header: Seq<Seq<SpanView>>,
    rows: Seq<Seq<Seq<SpanView>>>,
) -> Seq<char> {
    "<table class=\"data-table\">\n"@ + when(
        header.len() > 0,
        "<thead><tr>"@ + cells_html("th"@, header, alignments) + "</tr></thead>\n"@,
    ) + when(rows.len() > 0, "<tbody>\n"@ + rows_html(rows, alignments) + "</tbody>\n"@)
        + "</table>\n"@
}

fn push_alignment_class(out: &mut String, a: TableAlignment)
    ensures
        final(out)@ == old(out)@ + match alignment_class(a) {
            Some(c) => " class=\""@ + c + seq!['"'],
            None => Seq::empty(),
        },
{
    match a {
        TableAlignment::Unaligned => {},
        TableAlignment::Left => {
            push_str(out, " class=\"");
            push_str(out, "align-left");
            out.push('"');
        },
        TableAlignment::Center => {
            push_str(out, " class=\"");
            push_str(out, "align-center");
            out.push('"');
        },
        TableAlignment::Right => {
            push_str(out, " class=\"");
            push_str(out, "align-right");
            out.push('"');
        },
    }
    assert(out@ =~= old(out)@ + match alignment_class(a) {
        Some(c) => " class=\""@ + c + seq!['"'],
        None => Seq::empty(),
    });
}

fn push_cell(out: &mut String, tag: &str, cell: &[InlineSpan], a: TableAlignment)
    ensures
        final(out)@ == old(out)@ + cell_html(tag@, cell.deep_view(), a),
{
    out.push('<');
    push_str(out, tag);
    push_alignment_class(out, a);
    out.push('>');
    push_spans(out, cell);
    push_str(out, "</");
    push_str(out, tag);
    out.push('>');
    assert(out@ =~= old(out)@ + cell_html(tag@, cell.deep_view(), a));
}

fn push_cells(out: &mut String, tag: &str, cells: &[Vec<InlineSpan>], alignments: &[TableAlignment])
    ensures
        final(out)@ == old(out)@ + cells_html(tag@, cells.deep_view(), alignments@),
{
    let ghost cv = cells.deep_view();
    let mut i: usize = 0;
    assert(cv.take(0) =~= Seq::<Seq<SpanView>>::empty());
    while i < cells.len()
        invariant
            i <= cells@.len(),
            cv == cells.deep_view(),
            out@ == old(out)@ + cells_html(tag@, cv.take(i as int), alignments@),
        decreases cells@.len() - i,
    {
        assert(cv.take(i + 1).drop_last() =~= cv.take(i as int));
        assert(cv.take(i + 1).last() == cells[i as int].deep_view());
        let a = if i < alignments.len() {
            alignments[i]
        } else {
            TableAlignment::Unaligned
        };
        let ghost before = out@;
        push_cell(out, tag, cells[i].as_slice(), a);
        assert(out@ =~= old(out)@ + cells_html(tag@, cv.take(i + 1), alignments@));
        i = i + 1;
    }
    assert(cv.take(cells@.len() as int) =~= cv);
}

fn push_table(out: &mut String, alignments: &[TableAlignment], header: &[Vec<InlineSpan>], rows: &[Vec<Vec<InlineSpan>>])
    ensures
        final(out)@ == old(out)@ + table_html(alignments@, header.deep_view(), rows.deep_view()),
{
    push_str(out, "<table class=\"data-table\">\n");
    let ghost after_open = out@;
    if header.len() > 0 {
        push_str(out, "<thead><tr>");
        push_cells(out, "th", header, alignments);
        push_str(out, "</tr></thead>\n");
    }
    let ghost after_header = out@;
    if rows.len() > 0 {
        push_str(out, "<tbody>\n");
        let ghost before_rows = out@;
        let ghost rv = rows.deep_view();
        let mut i: usize = 0;
        assert(rv.take(0) =~= Seq::<Seq<Seq<SpanView>>>::empty());
        while i < rows.len()
            invariant
                i <= rows@.len(),
                rv == rows.deep_view(),
                out@ == before_rows + rows_html(rv.take(i as int), alignments@),
            decreases rows@.len() - i,
        {
            assert(rv.take(i + 1).drop_last() =~= rv.take(i as int));
            assert(rv.take(i + 1).last() == rows[i as int].deep_view());
            push_str(out, "<tr>");
            push_cells(out, "td", rows[i].as_slice(), alignments);
            push_str(out, "</tr>\n");
            assert(out@ =~= before_rows + rows_html(rv.take(i + 1), alignments@));
            i = i + 1;
        }
        assert(rv.take(rows@.len() as int) =~= rv);
        push_str(out, "</tbody>\n");
    }
    push_str(out, "</table>\n");
    assert(out@ =~= old(out)@ + table_html(alignments@, header.deep_view(), rows.deep_view()));
}

/// Whether any item is a task.
pub open spec fn any_task(items: Seq<ItemView>) -> bool {
    exists|i: int| 0 <= i < items.len() && (#[trigger] items[i]).checked is Some
}

/// One list item as HTML, with a disabled checkbox for a task.
pub open spec fn item_html(item: ItemView) -> Seq<char> {
    "<li"@ + when(item.checked is Some, " class=\"task-item\""@) + seq!['>'] + (match item.checked {
        Some(c) => "<input type=\"checkbox\" disabled"@ + when(c, " checked"@) + "> "@,
        None => Seq::empty(),
    }) + spans_html(item.content) + "</li>\n"@
}

/// List items as HTML, one after another.
pub open spec fn items_html(items: Seq<ItemView>) -> Seq<char>
    decreases items.len(),
{
    if items.len() == 0 {
        Seq::empty()
    } else {
        items_html(items.drop_last()) + item_html(items.last())
    }
}

/// A list as HTML: ordered or not, marked as a task list when it holds a task.
pub open spec fn list_html(ordered: bool, items: Seq<ItemView>) -> Seq<char> {
    let tag = if ordered {
        "ol"@
    } else {
        "ul"@
    };
    seq!['<'] + tag + when(any_task(items), " class=\"task-list\""@) + ">\n"@ + items_html(items) + "</"@
        + tag + ">\n"@
}

fn push_list(out: &mut String, ordered: bool, items: &[ListItem])
    ensures
        final(out)@ == old(out)@ + list_html(ordered, items.deep_view()),
{
    let ghost iv = items.deep_view();
    let mut has_task = false;
    let mut k: usize = 0;
    while k < items.len()
        invariant
            k <= items@.len(),
            iv == items.deep_view(),
            has_task == exists|j: int| 0 <= j < k && (#[trigger] iv[j]).checked is Some,
        decreases items@.len() - k,
    {
        assert(iv[k as int] == items[k as int].deep_view());
        if items[k].checked.is_some() {
            has_task = true;
        }
        k = k + 1;
    }
    let tag = if ordered {
        "ol"
    } else {
        "ul"
    };
    out.push('<');
    push_str(out, tag);
    if has_task {
        push_str(out, " class=\"task-list\"");
    }
    push_str(out, ">\n");
    let ghost before_items = out@;
    let mut i: usize = 0;
    assert(iv.take(0) =~= Seq::<ItemView>::empty());
    while i < items.len()
        invariant
            i <= items@.len(),
            iv == items.deep_view(),
            out@ == before_items + items_html(iv.take(i as int)),
        decreases items@.len() - i,
    {
        assert(iv.take(i + 1).drop_last() =~= iv.take(i as int));
        assert(iv.take(i + 1).last() == items[i as int].deep_view());
        let item = &items[i];
        let ghost before = out@;
        push_str(out, "<li");
        if item.checked.is_some() {
            push_str(out, " class=\"task-item\"");
        }
        out.push('>');
        match item.checked {
            Some(c) => {
                push_str(out, "<input type=\"checkbox\" disabled");
                if c {
                    push_str(out, " checked");
                }
                push_str(out, "> ");
            },
            None => {},
        }
        push_spans(out, item.content.as_slice());
        push_str(out, "</li>\n");
        assert(out@ =~= before + item_html(item.deep_view()));
        assert(out@ =~= before_items + items_html(iv.take(i + 1)));
        i = i + 1;
    }
    assert(iv.take(items@.len() as int) =~= iv);
    push_str(out, "</");
    push_str(out, tag);
    push_str(out, ">\n");
    assert(out@ =~= old(out)@ + list_html(ordered, iv));
}

/// An image as HTML: a figure, captioned by its alt text when it has one.
pub open spec fn image_html(alt: Seq<char>, url: Seq<char>, title: Seq<char>) -> Seq<char> {
    "<figure class=\"media-block\"><img src=\""@ + escaped(url, true) + "\" alt=\""@ + escaped(alt, true)
        + when(title.len() > 0, "\" title=\""@ + escaped(title, true)) + "\">"@ + when(
        alt.len() > 0,
        "<figcaption>"@ + escaped(alt, false) + "</figcaption>"@,
    ) + "</figure>\n"@
}

/// A math block as HTML.
pub open spec fn math_html(display: bool, source: Seq<char>) -> Seq<char> {
    "<pre class=\""@ + (if display {
        "math display"@
    } else {
        "math inline"@
    }) + "\"><code>"@ + escaped(source, false) + "</code></pre>\n"@
}

/// A block as HTML; a heading takes the anchor given.
pub open spec fn block_html(block: BlockView, slug: Option<Seq<char>>) -> Seq<char> {
    match block {
        BlockView::Heading { level, spans } => heading_html(level, spans, slug),
        BlockView::Paragraph(spans) => "<p>"@ + spans_html(spans) + "</p>\n"@,
        BlockView::BlockQuote(spans) => "<blockquote class=\"callout\">"@ + spans_html(spans) + "</blockquote>\n"@,
        BlockView::CodeBlock { language, code } => code_block_html(language, code, "source-panel code-panel"@),
        BlockView::Diagram { language, source } => (match flowchart_of(source) {
            Some((d, es)) => flowchart_html(d, es),
            None => Seq::empty(),
        }) + code_block_html(Some(language), source, "source-panel diagram-panel"@),
        BlockView::Image { alt, url, title } => image_html(alt, url, title),
        BlockView::Table { alignments, header, rows } => table_html(alignments, header, rows),
        BlockView::List { ordered, items } => list_html(ordered, items),
        BlockView::Math { display, source } => math_html(display, source),
        BlockView::Rule => "<hr>\n"@,
    }
}

/// Blocks as HTML, each heading taking the next anchor.
pub open spec fn blocks_html(blocks: Seq<BlockView>, slugs: Seq<Seq<char>>) -> Seq<char>
    decreases blocks.len(),
{
    if blocks.len() == 0 {
        Seq::empty()
    } else {
        match blocks[0] {
            BlockView::Heading { .. } => block_html(
                blocks[0],
                if slugs.len() > 0 {
                    Some(slugs[0])
                } else {
                    None
                },
            ) + blocks_html(blocks.drop_first(), if slugs.len() > 0 {
                slugs.drop_first()
            } else {
                slugs
            }),
            _ => block_html(blocks[0], None) + blocks_html(blocks.drop_first(), slugs),
        }
    }
}

/// The anchors of the headings, in order.
pub open spec fn heading_slugs(blocks: Seq<BlockView>) -> Seq<Seq<char>> {
    toc_of(blocks).map_values(|t: TocView| t.slug)
}

/// A whole document as a standalone HTML page: its title, the style sheet,
/// and its blocks inside the paper.
pub open spec fn html_of(title: Seq<char>, blocks: Seq<BlockView>) -> Seq<char> {
    "<!doctype html>\n<html>\n<head>\n"@ + "  <meta charset=\"utf-8\">\n"@
        + "  <meta name=\"viewport\" content=\"width=device-width, initial-scale=1\">\n"@ + "  <title>"@
        + escaped(title, false) + "</title>\n"@ + "  <style>\n"@ + CSS@
        + "  </style>\n</head>\n<body>\n<main class=\"paper\">\n"@ + blocks_html(blocks, heading_slugs(blocks))
        + "</main>\n</body>\n</html>\n"@
}

fn push_paragraph(out: &mut String, spans: &[InlineSpan], quote: bool)
    ensures
        final(out)@ == old(out)@ + if quote {
            "<blockquote class=\"callout\">"@ + spans_html(spans.deep_view()) + "</blockquote>\n"@
        } else {
            "<p>"@ + spans_html(spans.deep_view()) + "</p>\n"@
        },
{
    if quote {
        push_str(out, "<blockquote class=\"callout\">");
        push_spans(out, spans);
        push_str(out, "</blockquote>\n");
    } else {
        push_str(out, "<p>");
        push_spans(out, spans);
        push_str(out, "</p>\n");
    }
    assert(out@ =~= old(out)@ + if quote {
        "<blockquote class=\"callout\">"@ + spans_html(spans.deep_view()) + "</blockquote>\n"@
    } else {
        "<p>"@ + spans_html(spans.deep_view()) + "</p>\n"@
    });
}

fn push_image(out: &mut String, alt: &str, url: &str, title: &str)
    ensures
        final(out)@ == old(out)@ + image_html(alt@, url@, title@),
{
    push_str(out, "<figure class=\"media-block\"><img src=\"");
    push_escaped(out, url, true);
    push_str(out, "\" alt=\"");
    push_escaped(out, alt, true);
    let ghost s1 = out@;
    if !title.is_empty() {
        push_str(out, "\" title=\"");
        push_escaped(out, title, true);
    }
    assert(out@ =~= s1 + when(title@.len() > 0, "\" title=\""@ + escaped(title@, true)));
    push_str(out, "\">");
    let ghost s2 = out@;
    if !alt.is_empty() {
        push_str(out, "<figcaption>");
        push_escaped(out, alt, false);
        push_str(out, "</figcaption>");
    }
    assert(out@ =~= s2 + when(alt@.len() > 0, "<figcaption>"@ + escaped(alt@, false) + "</figcaption>"@));
    push_str(out, "</figure>\n");
    assert(out@ =~= old(out)@ + image_html(alt@, url@, title@));
}

fn push_math(out: &mut String, display: bool, source: &str)
    ensures
        final(out)@ == old(out)@ + math_html(display, source@),
{
    push_str(out, "<pre class=\"");
    if display {
        push_str(out, "math display");
    } else {
        push_str(out, "math inline");
    }
    push_str(out, "\"><code>");
    push_escaped(out, source, false);
    push_str(out, "</code></pre>\n");
    assert(out@ =~= old(out)@ + math_html(display, source@));
}

fn push_diagram(out: &mut String, language: &str, source: &str)
    ensures
        final(out)@ == old(out)@ + (match flowchart_of(source@) {
            Some((d, es)) => flowchart_html(d, es),
            None => Seq::empty(),
        }) + code_block_html(Some(language@), source@, "source-panel diagram-panel"@),
{
    match flowchart_preview(source) {
        Some(preview) => push_flowchart(out, preview.direction, preview.edges.as_slice()),
        None => {},
    }
    let ghost mid = out@;
    assert(mid =~= old(out)@ + (match flowchart_of(source@) {
        Some((d, es)) => flowchart_html(d, es),
        None => Seq::empty(),
    }));
    push_code_block(out, Some(language), source, "source-panel diagram-panel");
}

fn push_block(out: &mut String, block: &Block, slug: Option<&str>)
    ensures
        final(out)@ == old(out)@ + block_html(block.deep_view(), match slug {
            Some(s) => Some(s@),
            None => None,
        }),
{
    match block {
        Block::Heading { level, spans } => push_heading(out, *level, spans.as_slice(), slug),
        Block::Paragraph(spans) => push_paragraph(out, spans.as_slice(), false),
        Block::BlockQuote(spans) => push_paragraph(out, spans.as_slice(), true),
        Block::CodeBlock { language, code } => {
            let l = match language {
                Some(l) => Some(l.as_str()),
                None => None,
            };
            push_code_block(out, l, code.as_str(), "source-panel code-panel");
        },
        Block::Diagram { language, source } => push_diagram(out, language.as_str(), source.as_str()),
        Block::Image { alt, url, title } => push_image(out, alt.as_str(), url.as_str(), title.as_str()),
        Block::Table { alignments, header, rows } => push_table(out, alignments.as_slice(), header.as_slice(), rows.as_slice()),
        Block::List { ordered, items } => push_list(out, *ordered, items.as_slice()),
        Block::Math { display, source } => push_math(out, *display, source.as_str()),
        Block::Rule => push_str(out, "<hr>\n"),
    }
}

/// A document as a standalone HTML page.
pub fn export_html(document: &Document) -> (r: String)
    ensures
        r@ == html_of(document.title_view(), document.parsed_view()),
{
    let mut out = String::new();
    push_str(&mut out, "<!doctype html>\n<html>\n<head>\n");
    push_str(&mut out, "  <meta charset=\"utf-8\">\n");
    push_str(&mut out, "  <meta name=\"viewport\" content=\"width=device-width, initial-scale=1\">\n");
    push_str(&mut out, "  <title>");
    push_escaped(&mut out, document.title(), false);
    push_str(&mut out, "</title>\n");
    push_str(&mut out, "  <style>\n");
    push_str(&mut out, CSS);
    push_str(&mut out, "  </style>\n</head>\n<body>\n<main class=\"paper\">\n");
    let ghost head = out@;
    let parsed = document.parsed();
    let toc = parsed.toc();
    let ghost blocks = parsed.deep_view();
    let ghost all_slugs = heading_slugs(blocks);
    assert(toc.deep_view().map_values(|t: TocView| t.slug) =~= all_slugs);
    let mut next_slug: usize = 0;
    let mut i: usize = 0;
    assert(blocks.skip(0) =~= blocks);
    assert(all_slugs.skip(0) =~= all_slugs);
    while i < parsed.blocks.len()
        invariant
            i <= parsed.blocks@.len(),
            blocks == parsed.deep_view(),
            all_slugs == heading_slugs(blocks),
            toc.deep_view().map_values(|t: TocView| t.slug) == all_slugs,
            next_slug <= toc@.len(),
            head + blocks_html(blocks, all_slugs) == out@ + blocks_html(blocks.skip(i as int), all_slugs.skip(next_slug as int)),
        decreases parsed.blocks@.len() - i,
    {
        let ghost rest = blocks.skip(i as int);
        let ghost rest_slugs = all_slugs.skip(next_slug as int);
        assert(rest[0] == parsed.blocks[i as int].deep_view());
        assert(rest.drop_first() =~= blocks.skip(i + 1));
        let ghost before = out@;
        match &parsed.blocks[i] {
            Block::Heading { .. } => {
                if next_slug < toc.len() {
                    assert(toc.deep_view()[next_slug as int].slug == toc[next_slug as int].slug@);
                    assert(rest_slugs[0] == toc[next_slug as int].slug@);
                    assert(rest_slugs.drop_first() =~= all_slugs.skip(next_slug + 1));
                    push_block(&mut out, &parsed.blocks[i], Some(toc[next_slug].slug.as_str()));
                    next_slug = next_slug + 1;
                } else {
                    push_block(&mut out, &parsed.blocks[i], None);
                }
            },
            _ => {
                push_block(&mut out, &parsed.blocks[i], None);
            },
        }
        assert(before + (block_html(rest[0], match rest[0] {
            BlockView::Heading { .. } => if rest_slugs.len() > 0 { Some(rest_slugs[0]) } else { None },
            _ => None,
        })) == out@);
        i = i + 1;
    }
    assert(blocks.skip(parsed.blocks@.len() as int) =~= Seq::<BlockView>::empty());
    push_str(&mut out, "</main>\n</body>\n</html>\n");
    assert(out@ =~= html_of(document.title_view(), blocks));
    out
}

/// The bytes of a document exported in a format: the UTF-8 of its HTML page,
/// or its PDF file.
pub open spec fn export_bytes(
    format: ExportFormat,
    title: Seq<char>,
    blocks: Seq<BlockView>,
    document_path: Option<Seq<char>>,
    files: Seq<(Seq<char>, crate::pdf::ImageFile)>,
) -> Seq<u8> {
    match format {
        ExportFormat::Html => vstd::utf8::encode_utf8(html_of(title, blocks)),
        ExportFormat::Pdf => pdf_document_bytes(title, blocks, document_path, files),
    }
}

/// Exports a document in a format. Every format succeeds; what is known of
/// the local image files, which the PDF reports, comes in `files`.
pub fn export_document(document: &Document, format: ExportFormat, files: &[ImageFileInfo]) -> (r: Result<
    ExportArtifact,
    ExportError,
>)
    ensures
        r matches Ok(a) && a@ == (
            format_extension(format),
            export_bytes(
                format,
                document.title_view(),
                document.parsed_view(),
                document.path_view(),
                files.deep_view(),
            ),
        ),
{
    let contents = match format {
        ExportFormat::Html => {
            let html = export_html(document);
            vstd::slice::slice_to_vec(html.as_str().as_bytes())
        },
        ExportFormat::Pdf => export_pdf(document, files),
    };
    Ok(ExportArtifact { extension: format.extension(), contents })
}

} // verus!
