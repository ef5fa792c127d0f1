use vstd::prelude::*;

use crate::parser::{InlineSpan, SpanView};
use crate::text::{chars_eq, chars_of, extend_chars, push_chars};

verus! {

/// The inline styles that are open at a point of the event stream.
#[derive(Debug, Clone, Default, PartialEq, Eq)]
pub struct InlineState {
    pub strong_depth: usize,
    pub emphasis_depth: usize,
    pub links: Vec<String>,
}

/// The innermost open link target.
pub open spec fn current_link(links: Seq<Seq<char>>) -> Option<Seq<char>> {
    if links.len() > 0 {
        Some(links.last())
    } else {
        None
    }
}

/// The span that text written in `state` becomes.
pub open spec fn styled_span(
    text: Seq<char>,
    strong_depth: nat,
    emphasis_depth: nat,
    links: Seq<Seq<char>>,
    code: bool,
    math: bool,
) -> SpanView {
    SpanView {
        text,
        strong: strong_depth > 0,
        emphasis: emphasis_depth > 0,
        code,
        math,
        link: current_link(links),
    }
}

impl InlineState {
    pub open spec fn link_views(&self) -> Seq<Seq<char>> {
        self.links.deep_view()
    }

    pub open spec fn span_of(&self, text: Seq<char>, code: bool, math: bool) -> SpanView {
        styled_span(
            text,
            self.strong_depth as nat,
            self.emphasis_depth as nat,
            self.link_views(),
            code,
            math,
        )
    }

    pub fn strong(&self) -> (r: bool)
        ensures
            r == (self.strong_depth > 0),
    {
        self.strong_depth > 0
    }

    pub fn emphasis(&self) -> (r: bool)
        ensures
            r == (self.emphasis_depth > 0),
    {
        self.emphasis_depth > 0
    }

    pub fn link(&self) -> (r: Option<String>)
        ensures
            r.deep_view() == current_link(self.link_views()),
    {
        let n = self.links.len();
        if n > 0 {
            Some(self.links[n - 1].clone())
        } else {
            None
        }
    }
}

fn make_span(text: &str, state: &InlineState, code: bool, math: bool) -> (r: InlineSpan)
    ensures
        r.deep_view() == state.span_of(text@, code, math),
{
    let link = state.link();
    InlineSpan {
        text: text.to_owned(),
        strong: state.strong(),
        emphasis: state.emphasis(),
        code,
        math,
        link,
    }
}

/// A plain text span in the current style.
pub fn span(text: &str, state: &InlineState) -> (r: InlineSpan)
    ensures
        r.deep_view() == state.span_of(text@, false, false),
{
    make_span(text, state, false, false)
}

/// An inline code span in the current style.
pub fn code_span(text: &str, state: &InlineState) -> (r: InlineSpan)
    ensures
        r.deep_view() == state.span_of(text@, true, false),
{
    make_span(text, state, true, false)
}

/// An inline math span in the current style.
pub fn math_span(text: &str, state: &InlineState) -> (r: InlineSpan)
    ensures
        r.deep_view() == state.span_of(text@, false, true),
{
    make_span(text, state, false, true)
}

/// Two spans carry the same style.
pub open spec fn same_style(a: SpanView, b: SpanView) -> bool {
    a.strong == b.strong && a.emphasis == b.emphasis && a.code == b.code && a.math == b.math
        && a.link == b.link
}

/// Appending a span merges it into the last span when both share a style.
pub open spec fn pushed_span(spans: Seq<SpanView>, next: SpanView) -> Seq<SpanView> {
    if spans.len() > 0 && same_style(spans.last(), next) {
        spans.update(
            spans.len() - 1,
            SpanView { text: spans.last().text + next.text, ..spans.last() },
        )
    } else {
        spans.push(next)
    }
}

fn option_string_eq(a: &Option<String>, b: &Option<String>) -> (r: bool)
    ensures
        r == (a.deep_view() == b.deep_view()),
{
    match (a, b) {
        (Some(x), Some(y)) => {
            let xs = chars_of(x.as_str());
            let ys = chars_of(y.as_str());
            chars_eq(xs.as_slice(), ys.as_slice())
        },
        (None, None) => true,
        _ => false,
    }
}

pub fn push_span(spans: &mut Vec<InlineSpan>, next: InlineSpan)
    ensures
        final(spans).deep_view() == pushed_span(old(spans).deep_view(), next.deep_view()),
{
    let n = spans.len();
    if n > 0 {
        let same = {
            let previous = &spans[n - 1];
            previous.strong == next.strong && previous.emphasis == next.emphasis && previous.code
                == next.code && previous.math == next.math && option_string_eq(
                &previous.link,
                &next.link,
            )
        };
        if same {
            let ghost before = spans.deep_view();
            let mut previous = spans.pop().unwrap();
            previous.text.append(next.text.as_str());
            spans.push(previous);
            assert(spans.deep_view() =~= pushed_span(before, next.deep_view()));
            return ;
        }
    }
    let ghost before = spans.deep_view();
    spans.push(next);
    assert(spans.deep_view() =~= pushed_span(before, next.deep_view()));
}

/// The text of `spans` without styling.
pub open spec fn plain_text_of(spans: Seq<SpanView>) -> Seq<char>
    decreases spans.len(),
{
    if spans.len() == 0 {
        Seq::empty()
    } else {
        plain_text_of(spans.drop_last()) + spans.last().text
    }
}

pub fn plain_text(spans: &[InlineSpan]) -> (r: String)
    ensures
        r@ == plain_text_of(spans.deep_view()),
{
    let ghost views = spans.deep_view();
    let mut out = String::new();
    let mut i: usize = 0;
    while i < spans.len()
        invariant
            i <= spans@.len(),
            views == spans.deep_view(),
            out@ == plain_text_of(views.take(i as int)),
        decreases spans@.len() - i,
    {
        assert(views.take(i + 1).drop_last() =~= views.take(i as int));
        out.append(spans[i].text.as_str());
        i = i + 1;
    }
    assert(views.take(spans@.len() as int) =~= views);
    out
}

pub open spec fn md_code(t: Seq<char>, code: bool) -> Seq<char> {
    if code {
        seq!['`'] + t + seq!['`']
    } else {
        t
    }
}

pub open spec fn md_math(t: Seq<char>, math: bool) -> Seq<char> {
    if math && !(t.len() > 0 && t[0] == '$') {
        seq!['$'] + t + seq!['$']
    } else {
        t
    }
}

pub open spec fn md_strong(t: Seq<char>, strong: bool) -> Seq<char> {
    if strong {
        seq!['*', '*'] + t + seq!['*', '*']
    } else {
        t
    }
}

pub open spec fn md_emphasis(t: Seq<char>, emphasis: bool) -> Seq<char> {
    if emphasis {
        seq!['*'] + t + seq!['*']
    } else {
        t
    }
}

pub open spec fn md_link(t: Seq<char>, link: Option<Seq<char>>) -> Seq<char> {
    match link {
        Some(l) => seq!['['] + t + seq![']', '('] + l + seq![')'],
        None => t,
    }
}

/// A span written back as Markdown: code in backticks, math in dollars
/// (unless it already starts with one), strong in `**`, emphasis in `*`,
/// and a link around the whole.
pub open spec fn markdown_span_of(span: SpanView) -> Seq<char> {
    md_link(
        md_emphasis(md_strong(md_math(md_code(span.text, span.code), span.math), span.strong), span.emphasis),
        span.link,
    )
}

/// Spans written back as Markdown, one after another.
pub open spec fn markdown_text_of(spans: Seq<SpanView>) -> Seq<char>
    decreases spans.len(),
{
    if spans.len() == 0 {
        Seq::empty()
    } else {
        markdown_text_of(spans.drop_last()) + markdown_span_of(spans.last())
    }
}

fn wrap_char(inner: Vec<char>, open: char, close: char) -> (r: Vec<char>)
    ensures
        r@ == seq![open] + inner@ + seq![close],
{
    let mut out: Vec<char> = Vec::new();
    out.push(open);
    extend_chars(&mut out, inner.as_slice());
    out.push(close);
    out
}

fn wrap_strong(inner: Vec<char>) -> (r: Vec<char>)
    ensures
        r@ == seq!['*', '*'] + inner@ + seq!['*', '*'],
{
    let mut out: Vec<char> = Vec::new();
    out.push('*');
    out.push('*');
    extend_chars(&mut out, inner.as_slice());
    out.push('*');
    out.push('*');
    assert(out@ =~= seq!['*', '*'] + inner@ + seq!['*', '*']);
    out
}

fn wrap_link(inner: Vec<char>, link: &String) -> (r: Vec<char>)
    ensures
        r@ == seq!['['] + inner@ + seq![']', '('] + link@ + seq![')'],
{
    let mut out: Vec<char> = Vec::new();
    out.push('[');
    extend_chars(&mut out, inner.as_slice());
    out.push(']');
    out.push('(');
    let l = chars_of(link.as_str());
    extend_chars(&mut out, l.as_slice());
    out.push(')');
    assert(out@ =~= seq!['['] + inner@ + seq![']', '('] + link@ + seq![')']);
    out
}

fn markdown_span(span: &InlineSpan) -> (r: Vec<char>)
    ensures
        r@ == markdown_span_of(span.deep_view()),
{
    let ghost v = span.deep_view();
    let mut text = chars_of(span.text.as_str());
    if span.code {
        text = wrap_char(text, '`', '`');
    }
    assert(text@ == md_code(v.text, v.code));
    if span.math && !(text.len() > 0 && text[0] == '$') {
        text = wrap_char(text, '$', '$');
    }
    assert(text@ == md_math(md_code(v.text, v.code), v.math));
    if span.strong {
        text = wrap_strong(text);
    }
    if span.emphasis {
        text = wrap_char(text, '*', '*');
    }
    match &span.link {
        Some(link) => {
            text = wrap_link(text, link);
        },
        None => {},
    }
    text
}

pub fn markdown_text(spans: &[InlineSpan]) -> (r: String)
    ensures
        r@ == markdown_text_of(spans.deep_view()),
{
    let ghost views = spans.deep_view();
    let mut out = String::new();
    let mut i: usize = 0;
    while i < spans.len()
        invariant
            i <= spans@.len(),
            views == spans.deep_view(),
            out@ == markdown_text_of(views.take(i as int)),
        decreases spans@.len() - i,
    {
        assert(views.take(i + 1).drop_last() =~= views.take(i as int));
        let piece = markdown_span(&spans[i]);
        push_chars(&mut out, piece.as_slice());
        i = i + 1;
    }
    assert(views.take(spans@.len() as int) =~= views);
    out
}

} // verus!
