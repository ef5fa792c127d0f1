use vstd::prelude::*;

use crate::parser::builder::{build_blocks, built_blocks};
use crate::parser::tasks::{assign_task_source_lines, with_task_lines};
use crate::parser::cmark::{cmark_events, markdown_events};
use crate::parser::elements::inline::{plain_text, plain_text_of};
use crate::parser::events::{EventView, MarkdownEvent};
use crate::text::{
    char_is_ws, char_is_ascii_alnum, char_to_lowercase, chars_eq, chars_of, collapse_whitespace,
    collapse_ws, decimal, decimal_chars, extend_chars, is_ascii_alnum, is_ascii_digit, lines,
    lines_chars, leading_ws, lowered, string_of, trim_start, char_lowercase,
};

pub mod builder;
pub mod cmark;
pub mod elements;
pub mod events;
pub mod tasks;

verus! {

/// A run of text that shares one inline style.
#[derive(Debug, Clone, PartialEq, Eq)]
pub struct InlineSpan {
    pub text: String,
    pub strong: bool,
    pub emphasis: bool,
    pub code: bool,
    pub math: bool,
    pub link: Option<String>,
}

/// The mathematical value of an `InlineSpan`.
pub struct SpanView {
    pub text: Seq<char>,
    pub strong: bool,
    pub emphasis: bool,
    pub code: bool,
    pub math: bool,
    pub link: Option<Seq<char>>,
}

impl DeepView for InlineSpan {
    type V = SpanView;

    open spec fn deep_view(&self) -> SpanView {
        SpanView {
            text: self.text@,
            strong: self.strong,
            emphasis: self.emphasis,
            code: self.code,
            math: self.math,
            link: self.link.deep_view(),
        }
    }
}

#[derive(Debug, Clone, Copy, PartialEq, Eq, Structural)]
pub enum HeadingLevel {
    H1,
    H2,
    H3,
    H4,
    H5,
    H6,
}

impl HeadingLevel {
    /// The number of the level: 1 for `H1` through 6 for `H6`.
    pub open spec fn depth(self) -> u8 {
        match self {
            HeadingLevel::H1 => 1,
            HeadingLevel::H2 => 2,
            HeadingLevel::H3 => 3,
            HeadingLevel::H4 => 4,
            HeadingLevel::H5 => 5,
            HeadingLevel::H6 => 6,
        }
    }

    pub fn as_depth(self) -> (d: u8)
        ensures
            d == self.depth(),
            1 <= d <= 6,
    {
        match self {
            HeadingLevel::H1 => 1,
            HeadingLevel::H2 => 2,
            HeadingLevel::H3 => 3,
            HeadingLevel::H4 => 4,
            HeadingLevel::H5 => 5,
            HeadingLevel::H6 => 6,
        }
    }
}

#[derive(Debug, Clone, Copy, PartialEq, Eq, Structural)]
pub enum TableAlignment {
    Unaligned,
    Left,
    Center,
    Right,
}

pub type TableCell = Vec<InlineSpan>;

pub type TableRow = Vec<TableCell>;

/// One item of a list; `checked` is set for task-list items.
#[derive(Debug, Clone, PartialEq, Eq)]
pub struct ListItem {
    pub checked: Option<bool>,
    pub source_line: Option<usize>,
    pub content: Vec<InlineSpan>,
}

pub struct ItemView {
    pub checked: Option<bool>,
    pub source_line: Option<usize>,
    pub content: Seq<SpanView>,
}

impl DeepView for ListItem {
    type V = ItemView;

    open spec fn deep_view(&self) -> ItemView {
        ItemView {
            checked: self.checked,
            source_line: self.source_line,
            content: self.content.deep_view(),
        }
    }
}

/// A top-level element of a parsed document.
#[derive(Debug, Clone, PartialEq, Eq)]
pub enum Block {
    Heading { level: HeadingLevel, spans: Vec<InlineSpan> },
    Paragraph(Vec<InlineSpan>),
    BlockQuote(Vec<InlineSpan>),
    CodeBlock { language: Option<String>, code: String },
    Diagram { language: String, source: String },
    Image { alt: String, url: String, title: String },
    Table { alignments: Vec<TableAlignment>, header: TableRow, rows: Vec<TableRow> },
    List { ordered: bool, items: Vec<ListItem> },
    Math { display: bool, source: String },
    Rule,
}

pub enum BlockView {
    Heading { level: HeadingLevel, spans: Seq<SpanView> },
    Paragraph(Seq<SpanView>),
    BlockQuote(Seq<SpanView>),
    CodeBlock { language: Option<Seq<char>>, code: Seq<char> },
    Diagram { language: Seq<char>, source: Seq<char> },
    Image { alt: Seq<char>, url: Seq<char>, title: Seq<char> },
    Table {
        alignments: Seq<TableAlignment>,
        header: Seq<Seq<SpanView>>,
        rows: Seq<Seq<Seq<SpanView>>>,
    },
    List { ordered: bool, items: Seq<ItemView> },
    Math { display: bool, source: Seq<char> },
    Rule,
}

impl DeepView for Block {
    type V = BlockView;

    open spec fn deep_view(&self) -> BlockView {
        match self {
            Block::Heading { level, spans } => BlockView::Heading {
                level: *level,
                spans: spans.deep_view(),
            },
            Block::Paragraph(spans) => BlockView::Paragraph(spans.deep_view()),
            Block::BlockQuote(spans) => BlockView::BlockQuote(spans.deep_view()),
            Block::CodeBlock { language, code } => BlockView::CodeBlock {
                language: language.deep_view(),
                code: code@,
            },
            Block::Diagram { language, source } => BlockView::Diagram {
                language: language@,
                source: source@,
            },
            Block::Image { alt, url, title } => BlockView::Image {
                alt: alt@,
                url: url@,
                title: title@,
            },
            Block::Table { alignments, header, rows } => BlockView::Table {
                alignments: alignments@,
                header: header.deep_view(),
                rows: rows.deep_view(),
            },
            Block::List { ordered, items } => BlockView::List {
                ordered: *ordered,
                items: items.deep_view(),
            },
            Block::Math { display, source } => BlockView::Math { display: *display, source: source@ },
            Block::Rule => BlockView::Rule,
        }
    }
}


/// A parsed Markdown document: its blocks in order.
#[derive(Debug, Clone, PartialEq, Eq)]
pub struct ParsedDocument {
    pub blocks: Vec<Block>,
}

impl DeepView for ParsedDocument {
    type V = Seq<BlockView>;

    open spec fn deep_view(&self) -> Seq<BlockView> {
        self.blocks.deep_view()
    }
}

/// A heading of the table of contents.
#[derive(Debug, Clone, PartialEq, Eq)]
pub struct TocItem {
    pub level: HeadingLevel,
    pub title: String,
    pub slug: String,
    pub block_index: usize,
}

pub struct TocView {
    pub level: HeadingLevel,
    pub title: Seq<char>,
    pub slug: Seq<char>,
    pub block_index: usize,
}

impl DeepView for TocItem {
    type V = TocView;

    open spec fn deep_view(&self) -> TocView {
        TocView {
            level: self.level,
            title: self.title@,
            slug: self.slug@,
            block_index: self.block_index,
        }
    }
}

/// The text of a heading: its plain text with whitespace collapsed.
pub open spec fn heading_text_of(spans: Seq<SpanView>) -> Seq<char> {
    collapse_ws(plain_text_of(spans))
}

pub fn heading_text(spans: &[InlineSpan]) -> (r: String)
    ensures
        r@ == heading_text_of(spans.deep_view()),
{
    let text = plain_text(spans);
    let cs = chars_of(text.as_str());
    let c = collapse_whitespace(cs.as_slice());
    string_of(c.as_slice())
}

/// The title of the first level-one heading, reading from the front.
pub open spec fn first_h1_title(blocks: Seq<BlockView>) -> Option<Seq<char>>
    decreases blocks.len(),
{
    if blocks.len() == 0 {
        None
    } else {
        match blocks[0] {
            BlockView::Heading { level: HeadingLevel::H1, spans } => Some(heading_text_of(spans)),
            _ => first_h1_title(blocks.drop_first()),
        }
    }
}

/// The slug state over a prefix: the slug so far, and whether it ends in a separator.
pub open spec fn slug_state(s: Seq<char>) -> (Seq<char>, bool)
    decreases s.len(),
{
    if s.len() == 0 {
        (Seq::empty(), false)
    } else {
        let (slug, previous_was_separator) = slug_state(s.drop_last());
        let c = s.last();
        if is_ascii_alnum(c) {
            (slug.push(c), false)
        } else if !previous_was_separator && slug.len() > 0 {
            (slug.push('-'), true)
        } else {
            (slug, previous_was_separator)
        }
    }
}

pub open spec fn section_seq() -> Seq<char> {
    seq!['s', 'e', 'c', 't', 'i', 'o', 'n']
}

/// A heading's anchor: its lowercased ASCII letters and digits, with each run
/// of anything else turned into one `-` (none at the ends); `section` when
/// nothing is left.
pub open spec fn slug_of(text: Seq<char>) -> Seq<char> {
    let raw = slug_state(lowered(text)).0;
    let trimmed = if raw.len() > 0 && raw.last() == '-' {
        raw.drop_last()
    } else {
        raw
    };
    if trimmed.len() == 0 {
        section_seq()
    } else {
        trimmed
    }
}

fn slug_step(slug: &mut Vec<char>, previous_was_separator: &mut bool, c: char)
    ensures
        (final(slug)@, *final(previous_was_separator)) == ({
            let (s, p) = (old(slug)@, *old(previous_was_separator));
            if is_ascii_alnum(c) {
                (s.push(c), false)
            } else if !p && s.len() > 0 {
                (s.push('-'), true)
            } else {
                (s, p)
            }
        }),
{
    if char_is_ascii_alnum(c) {
        slug.push(c);
        *previous_was_separator = false;
    } else if !*previous_was_separator && slug.len() > 0 {
        slug.push('-');
        *previous_was_separator = true;
    }
}

pub fn slugify(text: &[char]) -> (r: Vec<char>)
    ensures
        r@ == slug_of(text@),
{
    let mut slug: Vec<char> = Vec::new();
    let mut previous_was_separator = false;
    let mut i: usize = 0;
    assert(text@.take(0) =~= Seq::<char>::empty());
    while i < text.len()
        invariant
            i <= text@.len(),
            (slug@, previous_was_separator) == slug_state(lowered(text@.take(i as int))),
        decreases text@.len() - i,
    {
        let lower = char_to_lowercase(text[i]);
        let ghost base = lowered(text@.take(i as int));
        let mut j: usize = 0;
        assert(base + lower@.take(0) =~= base);
        while j < lower.len()
            invariant
                j <= lower@.len(),
                lower@ == char_lowercase(text@[i as int]),
                (slug@, previous_was_separator) == slug_state(base + lower@.take(j as int)),
            decreases lower@.len() - j,
        {
            assert((base + lower@.take(j + 1)).drop_last() =~= base + lower@.take(j as int));
            assert((base + lower@.take(j + 1)).last() == lower@[j as int]);
            slug_step(&mut slug, &mut previous_was_separator, lower[j]);
            j = j + 1;
        }
        assert(text@.take(i + 1).drop_last() =~= text@.take(i as int));
        assert(lower@.take(lower@.len() as int) =~= lower@);
        i = i + 1;
    }
    assert(text@.take(text@.len() as int) =~= text@);
    let n = slug.len();
    if n > 0 && slug[n - 1] == '-' {
        slug.pop();
    }
    if slug.len() == 0 {
        let s = vec!['s', 'e', 'c', 't', 'i', 'o', 'n'];
        assert(s@ =~= section_seq());
        s
    } else {
        slug
    }
}

/// How many entries of `seen` equal `base`.
pub open spec fn count_of(seen: Seq<Seq<char>>, base: Seq<char>) -> nat
    decreases seen.len(),
{
    if seen.len() == 0 {
        0
    } else {
        count_of(seen.drop_last(), base) + if seen.last() == base {
            1nat
        } else {
            0nat
        }
    }
}

/// The anchor of the `count`-th heading with a given base slug: the base for
/// the first, `base-count` after that.
pub open spec fn numbered_slug(base: Seq<char>, count: nat) -> Seq<char> {
    if count == 1 {
        base
    } else {
        base + seq!['-'] + decimal(count)
    }
}

/// The table of contents over a prefix of blocks, with the base slugs seen so far.
pub open spec fn toc_state(blocks: Seq<BlockView>) -> (Seq<TocView>, Seq<Seq<char>>)
    decreases blocks.len(),
{
    if blocks.len() == 0 {
        (Seq::empty(), Seq::empty())
    } else {
        let (items, seen) = toc_state(blocks.drop_last());
        match blocks.last() {
            BlockView::Heading { level, spans } => {
                let title = heading_text_of(spans);
                let base = slug_of(title);
                let count = count_of(seen, base) + 1;
                (
                    items.push(
                        TocView {
                            level,
                            title,
                            slug: numbered_slug(base, count),
                            block_index: (blocks.len() - 1) as usize,
                        },
                    ),
                    seen.push(base),
                )
            },
            _ => (items, seen),
        }
    }
}

/// The table of contents: one entry per heading, in order.
pub open spec fn toc_of(blocks: Seq<BlockView>) -> Seq<TocView> {
    toc_state(blocks).0
}

fn count_in(seen: &Vec<Vec<char>>, base: &Vec<char>) -> (r: usize)
    ensures
        r == count_of(seen.deep_view(), base@),
        r <= seen@.len(),
{
    let ghost views = seen.deep_view();
    let mut count: usize = 0;
    let mut i: usize = 0;
    assert(views.take(0) =~= Seq::<Seq<char>>::empty());
    while i < seen.len()
        invariant
            i <= seen@.len(),
            views == seen.deep_view(),
            count == count_of(views.take(i as int), base@),
            count <= i,
        decreases seen@.len() - i,
    {
        assert(views.take(i + 1).drop_last() =~= views.take(i as int));
        assert(seen[i as int].deep_view() =~= seen[i as int]@);
        if chars_eq(seen[i].as_slice(), base.as_slice()) {
            count = count + 1;
        }
        i = i + 1;
    }
    assert(views.take(seen@.len() as int) =~= views);
    count
}

impl ParsedDocument {
    /// The title of the first level-one heading.
    pub fn title(&self) -> (r: Option<String>)
        ensures
            r.deep_view() == first_h1_title(self.deep_view()),
    {
        let ghost blocks = self.deep_view();
        let mut i: usize = 0;
        assert(blocks.skip(0) =~= blocks);
        while i < self.blocks.len()
            invariant
                i <= self.blocks@.len(),
                blocks == self.deep_view(),
                first_h1_title(blocks) == first_h1_title(blocks.skip(i as int)),
            decreases self.blocks@.len() - i,
        {
            assert(blocks.skip(i as int)[0] == self.blocks[i as int].deep_view());
            assert(blocks.skip(i as int).drop_first() =~= blocks.skip(i + 1));
            match &self.blocks[i] {
                Block::Heading { level: HeadingLevel::H1, spans } => {
                    return Some(heading_text(spans.as_slice()));
                },
                _ => {},
            }
            i = i + 1;
        }
        None
    }

    /// The table of contents, with unique anchors.
    pub fn toc(&self) -> (r: Vec<TocItem>)
        ensures
            r.deep_view() == toc_of(self.deep_view()),
    {
        let ghost blocks = self.deep_view();
        let mut items: Vec<TocItem> = Vec::new();
        let mut seen: Vec<Vec<char>> = Vec::new();
        let mut i: usize = 0;
        assert(blocks.take(0) =~= Seq::<BlockView>::empty());
        assert(items.deep_view() =~= Seq::<TocView>::empty());
        assert(seen.deep_view() =~= Seq::<Seq<char>>::empty());
        while i < self.blocks.len()
            invariant
                i <= self.blocks@.len(),
                blocks == self.deep_view(),
                (items.deep_view(), seen.deep_view()) == toc_state(blocks.take(i as int)),
                seen@.len() <= i,
            decreases self.blocks@.len() - i,
        {
            assert(blocks.take(i + 1).drop_last() =~= blocks.take(i as int));
            assert(blocks.take(i + 1).last() == self.blocks[i as int].deep_view());
            match &self.blocks[i] {
                Block::Heading { level, spans } => {
                    let title = heading_text(spans.as_slice());
                    let title_chars = chars_of(title.as_str());
                    let base = slugify(title_chars.as_slice());
                    let count = count_in(&seen, &base) + 1;
                    let ghost title_v = heading_text_of(spans.deep_view());
                    assert(title@ == title_v);
                    assert(base@ == slug_of(title_v));
                    let slug = if count == 1 {
                        string_of(base.as_slice())
                    } else {
                        let mut s = base.clone();
                        s.push('-');
                        let digits = decimal_chars(count as u64);
                        extend_chars(&mut s, digits.as_slice());
                        string_of(s.as_slice())
                    };
                    let ghost items_before = items.deep_view();
                    let ghost seen_before = seen.deep_view();
                    let item = TocItem { level: *level, title, slug, block_index: i };
                    items.push(item);
                    assert(items.deep_view() =~= items_before.push(item.deep_view()));
                    assert(base.deep_view() =~= base@);
                    seen.push(base);
                    assert(seen.deep_view() =~= seen_before.push(base@));
                    assert(slug@ == numbered_slug(base@, count as nat));
                    assert(item.deep_view() == TocView {
                        level: *level,
                        title: title_v,
                        slug: numbered_slug(slug_of(title_v), count_of(seen_before, slug_of(title_v)) + 1),
                        block_index: i,
                    });
                },
                _ => {},
            }
            i = i + 1;
        }
        assert(blocks.take(self.blocks@.len() as int) =~= blocks);
        items
    }
}

/// The blocks of `source`, given its event stream: the blocks that the
/// events describe, with each task item pointing at its checkbox's line.
pub open spec fn parsed_of(events: Seq<EventView>, source: Seq<char>) -> Seq<BlockView> {
    with_task_lines(built_blocks(events), source)
}

/// The document that `events`, the event stream of `source`, describes.
pub fn parse_events(events: Vec<MarkdownEvent>, source: &str) -> (doc: ParsedDocument)
    ensures
        doc.deep_view() == parsed_of(events.deep_view(), source@),
{
    let blocks = build_blocks(events);
    let cs = chars_of(source);
    let blocks = assign_task_source_lines(blocks, cs.as_slice());
    ParsedDocument { blocks }
}

/// Parses Markdown, with all of pulldown-cmark's extensions.
pub fn parse_markdown(source: &str) -> (doc: ParsedDocument)
    ensures
        doc.deep_view() == parsed_of(markdown_events(source@), source@),
{
    let events = cmark_events(source);
    parse_events(events, source)
}

} // verus!
