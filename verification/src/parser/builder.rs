use vstd::prelude::*;

use crate::parser::elements::diagram::{is_mermaid, is_mermaid_info, mermaid_seq, MERMAID_LANGUAGE};
use crate::parser::elements::image::image_markdown_of;
use crate::parser::elements::inline::{
    code_span, math_span, plain_text, plain_text_of, push_span, pushed_span, span, styled_span,
    InlineState,
};
use crate::parser::elements::math::inline_text_of;
use crate::parser::elements::{diagram, image, math};
use crate::parser::events::{EventView, MarkdownEvent, MarkdownTag, TagKind, TagView};
use crate::parser::{
    Block, BlockView, HeadingLevel, InlineSpan, ItemView, ListItem, SpanView, TableAlignment,
    TableRow,
};
use crate::text::{chars_of, collapse_ws, is_blank, trim};

verus! {

// ---------------------------------------------------------------------------
// The mathematical model of the builder.
pub enum OpenBlockView {
    Heading { level: HeadingLevel, spans: Seq<SpanView> },
    Paragraph(Seq<SpanView>),
    BlockQuote(Seq<SpanView>),
    CodeBlock { language: Option<Seq<char>>, code: Seq<char> },
}

pub struct OpenListView {
    pub ordered: bool,
    pub items: Seq<ItemView>,
    pub current_item: Option<ItemView>,
}

pub struct OpenTableView {
    pub alignments: Seq<TableAlignment>,
    pub header: Seq<Seq<SpanView>>,
    pub rows: Seq<Seq<Seq<SpanView>>>,
    pub current_row: Option<Seq<Seq<SpanView>>>,
    pub current_cell: Option<Seq<SpanView>>,
    pub in_header: bool,
}

pub struct OpenImageView {
    pub alt: Seq<char>,
    pub url: Seq<char>,
    pub title: Seq<char>,
}

/// The state of turning an event stream into blocks: the finished blocks,
/// what is open, and the inline styles in force.
pub struct BuilderView {
    pub blocks: Seq<BlockView>,
    pub open_block: Option<OpenBlockView>,
    pub open_list: Option<OpenListView>,
    pub open_table: Option<OpenTableView>,
    pub open_image: Option<OpenImageView>,
    pub strong: nat,
    pub emphasis: nat,
    pub links: Seq<Seq<char>>,
}

pub open spec fn empty_builder() -> BuilderView {
    BuilderView {
        blocks: Seq::empty(),
        open_block: None,
        open_list: None,
        open_table: None,
        open_image: None,
        strong: 0,
        emphasis: 0,
        links: Seq::empty(),
    }
}

pub open spec fn span_in(b: BuilderView, text: Seq<char>, code: bool, math: bool) -> SpanView {
    styled_span(text, b.strong, b.emphasis, b.links, code, math)
}

pub open spec fn in_table_cell(b: BuilderView) -> bool {
    b.open_table is Some && b.open_table->0.current_cell is Some
}

pub open spec fn in_list_item(b: BuilderView) -> bool {
    b.open_list is Some && b.open_list->0.current_item is Some
}

pub open spec fn in_text_block(b: BuilderView) -> bool {
    match b.open_block {
        Some(OpenBlockView::Heading { .. }) => true,
        Some(OpenBlockView::Paragraph(_)) => true,
        Some(OpenBlockView::BlockQuote(_)) => true,
        _ => false,
    }
}

/// Inline content goes to the open table cell, else the open list item, else
/// the open block (a code block takes the raw text).
pub open spec fn add_span_v(b: BuilderView, sp: SpanView, raw: Seq<char>) -> BuilderView {
    if in_table_cell(b) {
        let t = b.open_table->0;
        BuilderView {
            open_table: Some(
                OpenTableView { current_cell: Some(pushed_span(t.current_cell->0, sp)), ..t },
            ),
            ..b
        }
    } else if in_list_item(b) {
        let l = b.open_list->0;
        let it = l.current_item->0;
        BuilderView {
            open_list: Some(
                OpenListView {
                    current_item: Some(ItemView { content: pushed_span(it.content, sp), ..it }),
                    ..l
                },
            ),
            ..b
        }
    } else {
        match b.open_block {
            Some(OpenBlockView::Heading { level, spans }) => BuilderView {
                open_block: Some(OpenBlockView::Heading { level, spans: pushed_span(spans, sp) }),
                ..b
            },
            Some(OpenBlockView::Paragraph(spans)) => BuilderView {
                open_block: Some(OpenBlockView::Paragraph(pushed_span(spans, sp))),
                ..b
            },
            Some(OpenBlockView::BlockQuote(spans)) => BuilderView {
                open_block: Some(OpenBlockView::BlockQuote(pushed_span(spans, sp))),
                ..b
            },
            Some(OpenBlockView::CodeBlock { language, code }) => BuilderView {
                open_block: Some(OpenBlockView::CodeBlock { language, code: code + raw }),
                ..b
            },
            None => b,
        }
    }
}

/// Text goes into an open image's alt text, else where inline content goes.
pub open spec fn push_text_v(b: BuilderView, text: Seq<char>) -> BuilderView {
    match b.open_image {
        Some(img) => BuilderView { open_image: Some(OpenImageView { alt: img.alt + text, ..img }), ..b },
        None => add_span_v(b, span_in(b, text, false, false), text),
    }
}

/// Inline code becomes a code span where spans are collected; elsewhere it is
/// written as text between backticks.
pub open spec fn push_code_v(b: BuilderView, code: Seq<char>) -> BuilderView {
    if in_table_cell(b) || in_list_item(b) || in_text_block(b) {
        add_span_v(b, span_in(b, code, true, false), code)
    } else {
        push_text_v(push_text_v(push_text_v(b, seq!['`']), code), seq!['`'])
    }
}

/// Inline math becomes a math span holding `$source$`.
pub open spec fn push_math_v(b: BuilderView, source: Seq<char>) -> BuilderView {
    let t = inline_text_of(source);
    match b.open_image {
        Some(img) => BuilderView { open_image: Some(OpenImageView { alt: img.alt + t, ..img }), ..b },
        None => add_span_v(b, span_in(b, t, false, true), t),
    }
}

pub open spec fn has_text(spans: Seq<SpanView>) -> bool {
    trim(plain_text_of(spans)).len() > 0
}

pub open spec fn push_block(b: BuilderView, block: BlockView) -> BuilderView {
    BuilderView { blocks: b.blocks.push(block), ..b }
}

/// Closing the open block finishes it: headings and paragraphs without text
/// are dropped, and Mermaid code blocks become diagrams.
pub open spec fn close_block_v(b: BuilderView) -> BuilderView {
    match b.open_block {
        None => b,
        Some(ob) => {
            let b2 = BuilderView { open_block: None, ..b };
            match ob {
                OpenBlockView::Heading { level, spans } => if has_text(spans) {
                    push_block(b2, BlockView::Heading { level, spans })
                } else {
                    b2
                },
                OpenBlockView::Paragraph(spans) => if has_text(spans) {
                    push_block(b2, BlockView::Paragraph(spans))
                } else {
                    b2
                },
                OpenBlockView::BlockQuote(spans) => push_block(b2, BlockView::BlockQuote(spans)),
                OpenBlockView::CodeBlock { language, code } => if is_mermaid_info(language) {
                    push_block(b2, BlockView::Diagram { language: mermaid_seq(), source: trim(code) })
                } else {
                    push_block(b2, BlockView::CodeBlock { language, code })
                },
            }
        },
    }
}

pub open spec fn is_empty_paragraph(b: BuilderView) -> bool {
    match b.open_block {
        Some(OpenBlockView::Paragraph(spans)) => spans.len() == 0,
        _ => false,
    }
}

/// Closing an image: alone in a paragraph it becomes an image block; anywhere
/// else it is written back as Markdown text.
pub open spec fn close_image_v(b: BuilderView) -> BuilderView {
    match b.open_image {
        None => b,
        Some(img) => {
            let b1 = BuilderView { open_image: None, ..b };
            let alt = collapse_ws(img.alt);
            let md = image_markdown_of(alt, img.url, img.title);
            if b1.open_table is Some || b1.open_list is Some {
                push_text_v(b1, md)
            } else if is_empty_paragraph(b1) {
                push_block(close_block_v(b1), BlockView::Image { alt, url: img.url, title: img.title })
            } else {
                push_text_v(b1, md)
            }
        },
    }
}

/// A fenced block's language: its info string, unless empty.
pub open spec fn fence_language(info: Option<Seq<char>>) -> Option<Seq<char>> {
    match info {
        Some(l) => if l.len() > 0 {
            Some(l)
        } else {
            None
        },
        None => None,
    }
}

pub open spec fn with_table(b: BuilderView, t: OpenTableView) -> BuilderView {
    BuilderView { open_table: Some(t), ..b }
}

pub open spec fn with_list(b: BuilderView, l: OpenListView) -> BuilderView {
    BuilderView { open_list: Some(l), ..b }
}

pub open spec fn start_plain_v(b: BuilderView, kind: TagKind) -> BuilderView {
    match kind {
        TagKind::Heading(level) => BuilderView {
            open_block: Some(OpenBlockView::Heading { level, spans: Seq::empty() }),
            ..b
        },
        TagKind::Paragraph => if b.open_list is None && b.open_block is None {
            BuilderView { open_block: Some(OpenBlockView::Paragraph(Seq::empty())), ..b }
        } else {
            b
        },
        TagKind::Strong => BuilderView { strong: b.strong + 1, ..b },
        TagKind::Emphasis => BuilderView { emphasis: b.emphasis + 1, ..b },
        TagKind::BlockQuote => BuilderView {
            open_block: Some(OpenBlockView::BlockQuote(Seq::empty())),
            ..b
        },
        TagKind::TableHead => match b.open_table {
            Some(t) => with_table(
                b,
                OpenTableView { in_header: true, current_row: Some(Seq::empty()), ..t },
            ),
            None => b,
        },
        TagKind::TableRow => match b.open_table {
            Some(t) => with_table(b, OpenTableView { current_row: Some(Seq::empty()), ..t }),
            None => b,
        },
        TagKind::TableCell => match b.open_table {
            Some(t) => with_table(b, OpenTableView { current_cell: Some(Seq::empty()), ..t }),
            None => b,
        },
        TagKind::Item => match b.open_list {
            Some(l) => with_list(
                b,
                OpenListView {
                    current_item: Some(
                        ItemView { checked: None, source_line: None, content: Seq::empty() },
                    ),
                    ..l
                },
            ),
            None => b,
        },
        _ => b,
    }
}

pub open spec fn start_v(b: BuilderView, tag: TagView) -> BuilderView {
    match tag {
        TagView::CodeBlock(info) => BuilderView {
            open_block: Some(
                OpenBlockView::CodeBlock { language: fence_language(info), code: Seq::empty() },
            ),
            ..b
        },
        TagView::Table(alignments) => with_table(
            close_block_v(b),
            OpenTableView {
                alignments,
                header: Seq::empty(),
                rows: Seq::empty(),
                current_row: None,
                current_cell: None,
                in_header: false,
            },
        ),
        TagView::Link(url) => BuilderView { links: b.links.push(url), ..b },
        TagView::Image(url, title) => BuilderView {
            open_image: Some(OpenImageView { alt: Seq::empty(), url, title }),
            ..b
        },
        TagView::List(first) => with_list(
            b,
            OpenListView { ordered: first is Some, items: Seq::empty(), current_item: None },
        ),
        TagView::Plain(kind) => start_plain_v(b, kind),
    }
}

pub open spec fn end_table_part_v(b: BuilderView, kind: TagKind) -> BuilderView {
    match b.open_table {
        None => b,
        Some(t) => match kind {
            TagKind::TableCell => match t.current_cell {
                Some(cell) => {
                    let t2 = OpenTableView { current_cell: None, ..t };
                    match t2.current_row {
                        Some(row) => with_table(
                            b,
                            OpenTableView { current_row: Some(row.push(cell)), ..t2 },
                        ),
                        None => with_table(b, t2),
                    }
                },
                None => b,
            },
            TagKind::TableRow => match t.current_row {
                Some(row) => {
                    let t2 = OpenTableView { current_row: None, ..t };
                    if t.in_header {
                        with_table(b, OpenTableView { header: row, ..t2 })
                    } else {
                        with_table(b, OpenTableView { rows: t.rows.push(row), ..t2 })
                    }
                },
                None => b,
            },
            TagKind::TableHead => {
                let t2 = match t.current_row {
                    Some(row) => OpenTableView { header: row, current_row: None, ..t },
                    None => t,
                };
                with_table(b, OpenTableView { in_header: false, ..t2 })
            },
            _ => push_block(
                BuilderView { open_table: None, ..b },
                BlockView::Table { alignments: t.alignments, header: t.header, rows: t.rows },
            ),
        },
    }
}

pub open spec fn end_v(b: BuilderView, kind: TagKind) -> BuilderView {
    match kind {
        TagKind::Heading(_) => close_block_v(b),
        TagKind::Paragraph => match b.open_block {
            Some(OpenBlockView::Paragraph(_)) => close_block_v(b),
            _ => b,
        },
        TagKind::Strong => BuilderView {
            strong: if b.strong > 0 {
                (b.strong - 1) as nat
            } else {
                0
            },
            ..b
        },
        TagKind::Emphasis => BuilderView {
            emphasis: if b.emphasis > 0 {
                (b.emphasis - 1) as nat
            } else {
                0
            },
            ..b
        },
        TagKind::Link => BuilderView {
            links: if b.links.len() > 0 {
                b.links.drop_last()
            } else {
                b.links
            },
            ..b
        },
        TagKind::BlockQuote => close_block_v(b),
        TagKind::CodeBlock => close_block_v(b),
        TagKind::TableCell => end_table_part_v(b, kind),
        TagKind::TableRow => end_table_part_v(b, kind),
        TagKind::TableHead => end_table_part_v(b, kind),
        TagKind::Table => end_table_part_v(b, kind),
        TagKind::Image => close_image_v(b),
        TagKind::Item => match b.open_list {
            Some(l) => match l.current_item {
                Some(it) => with_list(
                    b,
                    OpenListView { current_item: None, items: l.items.push(it), ..l },
                ),
                None => b,
            },
            None => b,
        },
        TagKind::List(_) => match b.open_list {
            Some(l) => push_block(
                BuilderView { open_list: None, ..b },
                BlockView::List { ordered: l.ordered, items: l.items },
            ),
            None => b,
        },
        TagKind::Other => b,
    }
}

/// One event applied to the builder.
pub open spec fn step_v(b: BuilderView, e: EventView) -> BuilderView {
    match e {
        EventView::Start(tag) => start_v(b, tag),
        EventView::End(kind) => end_v(b, kind),
        EventView::Text(t) => push_text_v(b, t),
        EventView::Code(c) => push_code_v(b, c),
        EventView::InlineMath(s) => push_math_v(b, s),
        EventView::DisplayMath(s) => push_block(
            close_block_v(b),
            BlockView::Math { display: true, source: trim(s) },
        ),
        EventView::TaskListMarker(checked) => match b.open_list {
            Some(l) => match l.current_item {
                Some(it) => with_list(
                    b,
                    OpenListView {
                        current_item: Some(ItemView { checked: Some(checked), ..it }),
                        ..l
                    },
                ),
                None => b,
            },
            None => b,
        },
        EventView::SoftBreak => push_text_v(b, seq!['\n']),
        EventView::HardBreak => push_text_v(b, seq!['\n']),
        EventView::Rule => push_block(b, BlockView::Rule),
        EventView::Other => b,
    }
}

/// The builder after a whole event stream.
pub open spec fn run_v(events: Seq<EventView>) -> BuilderView
    decreases events.len(),
{
    if events.len() == 0 {
        empty_builder()
    } else {
        step_v(run_v(events.drop_last()), events.last())
    }
}

/// The blocks an event stream yields.
pub open spec fn built_blocks(events: Seq<EventView>) -> Seq<BlockView> {
    run_v(events).blocks
}

// ---------------------------------------------------------------------------
// The builder.
enum OpenBlock {
    Heading { level: HeadingLevel, spans: Vec<InlineSpan> },
    Paragraph(Vec<InlineSpan>),
    BlockQuote(Vec<InlineSpan>),
    CodeBlock { language: Option<String>, code: String },
}

impl DeepView for OpenBlock {
    type V = OpenBlockView;

    closed spec fn deep_view(&self) -> OpenBlockView {
        match self {
            OpenBlock::Heading { level, spans } => OpenBlockView::Heading {
                level: *level,
                spans: spans.deep_view(),
            },
            OpenBlock::Paragraph(spans) => OpenBlockView::Paragraph(spans.deep_view()),
            OpenBlock::BlockQuote(spans) => OpenBlockView::BlockQuote(spans.deep_view()),
            OpenBlock::CodeBlock { language, code } => OpenBlockView::CodeBlock {
                language: language.deep_view(),
                code: code@,
            },
        }
    }
}

struct OpenList {
    ordered: bool,
    items: Vec<ListItem>,
    current_item: Option<ListItem>,
}

impl DeepView for OpenList {
    type V = OpenListView;

    closed spec fn deep_view(&self) -> OpenListView {
        OpenListView {
            ordered: self.ordered,
            items: self.items.deep_view(),
            current_item: self.current_item.deep_view(),
        }
    }
}

struct OpenTable {
    alignments: Vec<TableAlignment>,
    header: TableRow,
    rows: Vec<TableRow>,
    current_row: Option<TableRow>,
    current_cell: Option<Vec<InlineSpan>>,
    in_header: bool,
}

impl DeepView for OpenTable {
    type V = OpenTableView;

    closed spec fn deep_view(&self) -> OpenTableView {
        OpenTableView {
            alignments: self.alignments@,
            header: self.header.deep_view(),
            rows: self.rows.deep_view(),
            current_row: self.current_row.deep_view(),
            current_cell: self.current_cell.deep_view(),
            in_header: self.in_header,
        }
    }
}

struct OpenImage {
    alt: String,
    url: String,
    title: String,
}

impl DeepView for OpenImage {
    type V = OpenImageView;

    closed spec fn deep_view(&self) -> OpenImageView {
        OpenImageView { alt: self.alt@, url: self.url@, title: self.title@ }
    }
}

struct DocumentBuilder {
    blocks: Vec<Block>,
    open_block: Option<OpenBlock>,
    open_list: Option<OpenList>,
    open_table: Option<OpenTable>,
    open_image: Option<OpenImage>,
    inline_state: InlineState,
}

impl DeepView for DocumentBuilder {
    type V = BuilderView;

    closed spec fn deep_view(&self) -> BuilderView {
        BuilderView {
            blocks: self.blocks.deep_view(),
            open_block: self.open_block.deep_view(),
            open_list: self.open_list.deep_view(),
            open_table: self.open_table.deep_view(),
            open_image: self.open_image.deep_view(),
            strong: self.inline_state.strong_depth as nat,
            emphasis: self.inline_state.emphasis_depth as nat,
            links: self.inline_state.links.deep_view(),
        }
    }
}

impl DocumentBuilder {
    fn new() -> (b: Self)
        ensures
            b.deep_view() == empty_builder(),
    {
        let b = DocumentBuilder {
            blocks: Vec::new(),
            open_block: None,
            open_list: None,
            open_table: None,
            open_image: None,
            inline_state: InlineState { strong_depth: 0, emphasis_depth: 0, links: Vec::new() },
        };
        assert(b.deep_view().blocks =~= Seq::<BlockView>::empty());
        assert(b.deep_view().links =~= Seq::<Seq<char>>::empty());
        b
    }

    fn push_block(&mut self, block: Block)
        ensures
            final(self).deep_view() == push_block(old(self).deep_view(), block.deep_view()),
            final(self).inline_state == old(self).inline_state,
    {
        let ghost before = self.blocks.deep_view();
        self.blocks.push(block);
        assert(self.blocks.deep_view() =~= before.push(block.deep_view()));
    }

    fn add_span(&mut self, sp: InlineSpan, raw: &str)
        ensures
            final(self).deep_view() == add_span_v(old(self).deep_view(), sp.deep_view(), raw@),
            final(self).inline_state == old(self).inline_state,
    {
        let in_cell = match &self.open_table {
            Some(t) => t.current_cell.is_some(),
            None => false,
        };
        if in_cell {
            let mut table = self.open_table.take().unwrap();
            let mut cell = table.current_cell.take().unwrap();
            push_span(&mut cell, sp);
            table.current_cell = Some(cell);
            self.open_table = Some(table);
            return ;
        }
        let in_item = match &self.open_list {
            Some(l) => l.current_item.is_some(),
            None => false,
        };
        if in_item {
            let mut list = self.open_list.take().unwrap();
            let mut item = list.current_item.take().unwrap();
            push_span(&mut item.content, sp);
            list.current_item = Some(item);
            self.open_list = Some(list);
            return ;
        }
        match self.open_block.take() {
            Some(OpenBlock::Heading { level, mut spans }) => {
                push_span(&mut spans, sp);
                self.open_block = Some(OpenBlock::Heading { level, spans });
            },
            Some(OpenBlock::Paragraph(mut spans)) => {
                push_span(&mut spans, sp);
                self.open_block = Some(OpenBlock::Paragraph(spans));
            },
            Some(OpenBlock::BlockQuote(mut spans)) => {
                push_span(&mut spans, sp);
                self.open_block = Some(OpenBlock::BlockQuote(spans));
            },
            Some(OpenBlock::CodeBlock { language, mut code }) => {
                code.append(raw);
                self.open_block = Some(OpenBlock::CodeBlock { language, code });
            },
            None => {},
        }
    }

    fn push_text(&mut self, text: &str)
        ensures
            final(self).deep_view() == push_text_v(old(self).deep_view(), text@),
            final(self).inline_state == old(self).inline_state,
    {
        match self.open_image.take() {
            Some(mut img) => {
                img.alt.append(text);
                self.open_image = Some(img);
            },
            None => {
                let sp = span(text, &self.inline_state);
                self.add_span(sp, text);
            },
        }
    }

    fn push_code(&mut self, code: &str)
        ensures
            final(self).deep_view() == push_code_v(old(self).deep_view(), code@),
            final(self).inline_state == old(self).inline_state,
    {
        let in_cell = match &self.open_table {
            Some(t) => t.current_cell.is_some(),
            None => false,
        };
        let in_item = match &self.open_list {
            Some(l) => l.current_item.is_some(),
            None => false,
        };
        let in_text = match &self.open_block {
            Some(OpenBlock::Heading { .. }) => true,
            Some(OpenBlock::Paragraph(_)) => true,
            Some(OpenBlock::BlockQuote(_)) => true,
            _ => false,
        };
        if in_cell || in_item || in_text {
            let sp = code_span(code, &self.inline_state);
            self.add_span(sp, code);
        } else {
            proof {
                reveal_strlit("`");
                assert("`"@ =~= seq!['`']);
            }
            self.push_text("`");
            self.push_text(code);
            self.push_text("`");
        }
    }

    fn push_math(&mut self, source: &str)
        ensures
            final(self).deep_view() == push_math_v(old(self).deep_view(), source@),
            final(self).inline_state == old(self).inline_state,
    {
        let text = math::inline_text(source);
        match self.open_image.take() {
            Some(mut img) => {
                img.alt.append(text.as_str());
                self.open_image = Some(img);
            },
            None => {
                let sp = math_span(text.as_str(), &self.inline_state);
                self.add_span(sp, text.as_str());
            },
        }
    }

    fn close_block(&mut self)
        ensures
            final(self).deep_view() == close_block_v(old(self).deep_view()),
            final(self).inline_state == old(self).inline_state,
    {
        match self.open_block.take() {
            None => {},
            Some(OpenBlock::Heading { level, spans }) => {
                let text = plain_text(spans.as_slice());
                let cs = chars_of(text.as_str());
                if !is_blank(cs.as_slice()) {
                    self.push_block(Block::Heading { level, spans });
                }
            },
            Some(OpenBlock::Paragraph(spans)) => {
                let text = plain_text(spans.as_slice());
                let cs = chars_of(text.as_str());
                if !is_blank(cs.as_slice()) {
                    self.push_block(Block::Paragraph(spans));
                }
            },
            Some(OpenBlock::BlockQuote(spans)) => {
                self.push_block(Block::BlockQuote(spans));
            },
            Some(OpenBlock::CodeBlock { language, code }) => {
                let mermaid = match &language {
                    Some(l) => is_mermaid(Some(l.as_str())),
                    None => false,
                };
                if mermaid {
                    let name = MERMAID_LANGUAGE.to_owned();
                    proof {
                        reveal_strlit("mermaid");
                        assert(name@ =~= mermaid_seq());
                    }
                    let source = diagram::source(code.as_str());
                    self.push_block(Block::Diagram { language: name, source });
                } else {
                    self.push_block(Block::CodeBlock { language, code });
                }
            },
        }
    }

    fn close_image(&mut self)
        ensures
            final(self).deep_view() == close_image_v(old(self).deep_view()),
            final(self).inline_state == old(self).inline_state,
    {
        let open_image = match self.open_image.take() {
            Some(img) => img,
            None => return ,
        };
        let alt = image::alt_text(open_image.alt.as_str());
        let markdown = image::markdown_text(
            alt.as_str(),
            open_image.url.as_str(),
            open_image.title.as_str(),
        );
        if self.open_table.is_some() || self.open_list.is_some() {
            self.push_text(markdown.as_str());
            return ;
        }
        let is_standalone = match &self.open_block {
            Some(OpenBlock::Paragraph(spans)) => spans.len() == 0,
            _ => false,
        };
        if is_standalone {
            self.close_block();
            self.push_block(Block::Image { alt, url: open_image.url, title: open_image.title });
        } else {
            self.push_text(markdown.as_str());
        }
    }

    fn start(&mut self, tag: MarkdownTag)
        requires
            old(self).inline_state.strong_depth < usize::MAX,
            old(self).inline_state.emphasis_depth < usize::MAX,
        ensures
            final(self).deep_view() == start_v(old(self).deep_view(), tag.deep_view()),
            final(self).inline_state.strong_depth <= old(self).inline_state.strong_depth + 1,
            final(self).inline_state.emphasis_depth <= old(self).inline_state.emphasis_depth + 1,
    {
        match tag {
            MarkdownTag::CodeBlock(info) => {
                let language = match info {
                    Some(l) => if !l.as_str().is_empty() {
                        Some(l)
                    } else {
                        None
                    },
                    None => None,
                };
                self.open_block = Some(OpenBlock::CodeBlock { language, code: String::new() });
            },
            MarkdownTag::Table(alignments) => {
                self.close_block();
                self.open_table = Some(
                    OpenTable {
                        alignments,
                        header: Vec::new(),
                        rows: Vec::new(),
                        current_row: None,
                        current_cell: None,
                        in_header: false,
                    },
                );
                assert(self.deep_view().open_table->0.header =~= Seq::<Seq<SpanView>>::empty());
                assert(self.deep_view().open_table->0.rows =~= Seq::<Seq<Seq<SpanView>>>::empty());
            },
            MarkdownTag::Link(url) => {
                let ghost before = self.inline_state.links.deep_view();
                self.inline_state.links.push(url);
                assert(self.inline_state.links.deep_view() =~= before.push(url@));
            },
            MarkdownTag::Image(url, title) => {
                self.open_image = Some(OpenImage { alt: String::new(), url, title });
            },
            MarkdownTag::List(first) => {
                self.open_list = Some(
                    OpenList { ordered: first.is_some(), items: Vec::new(), current_item: None },
                );
                assert(self.deep_view().open_list->0.items =~= Seq::<ItemView>::empty());
            },
            MarkdownTag::Plain(kind) => self.start_plain(kind),
        }
    }

    fn start_plain(&mut self, kind: TagKind)
        requires
            old(self).inline_state.strong_depth < usize::MAX,
            old(self).inline_state.emphasis_depth < usize::MAX,
        ensures
            final(self).deep_view() == start_plain_v(old(self).deep_view(), kind),
            final(self).inline_state.strong_depth <= old(self).inline_state.strong_depth + 1,
            final(self).inline_state.emphasis_depth <= old(self).inline_state.emphasis_depth + 1,
    {
        match kind {
            TagKind::Heading(level) => {
                let spans: Vec<InlineSpan> = Vec::new();
                assert(spans.deep_view() =~= Seq::<SpanView>::empty());
                self.open_block = Some(OpenBlock::Heading { level, spans: spans });
            },
            TagKind::Paragraph => {
                if self.open_list.is_none() && self.open_block.is_none() {
                    let spans: Vec<InlineSpan> = Vec::new();
                assert(spans.deep_view() =~= Seq::<SpanView>::empty());
                self.open_block = Some(OpenBlock::Paragraph(spans));
                }
            },
            TagKind::Strong => {
                self.inline_state.strong_depth = self.inline_state.strong_depth + 1;
            },
            TagKind::Emphasis => {
                self.inline_state.emphasis_depth = self.inline_state.emphasis_depth + 1;
            },
            TagKind::BlockQuote => {
                let spans: Vec<InlineSpan> = Vec::new();
                assert(spans.deep_view() =~= Seq::<SpanView>::empty());
                self.open_block = Some(OpenBlock::BlockQuote(spans));
            },
            TagKind::TableHead => {
                if let Some(mut table) = self.open_table.take() {
                    table.in_header = true;
                    table.current_row = Some(Vec::new());
                    self.open_table = Some(table);
                    assert(self.deep_view().open_table->0.current_row =~= Some(
                        Seq::<Seq<SpanView>>::empty(),
                    ));
                }
            },
            TagKind::TableRow => {
                if let Some(mut table) = self.open_table.take() {
                    table.current_row = Some(Vec::new());
                    self.open_table = Some(table);
                    assert(self.deep_view().open_table->0.current_row =~= Some(
                        Seq::<Seq<SpanView>>::empty(),
                    ));
                }
            },
            TagKind::TableCell => {
                if let Some(mut table) = self.open_table.take() {
                    table.current_cell = Some(Vec::new());
                    self.open_table = Some(table);
                    assert(self.deep_view().open_table->0.current_cell =~= Some(
                        Seq::<SpanView>::empty(),
                    ));
                }
            },
            TagKind::Item => {
                if let Some(mut list) = self.open_list.take() {
                    list.current_item = Some(
                        ListItem { checked: None, source_line: None, content: Vec::new() },
                    );
                    self.open_list = Some(list);
                    assert(self.deep_view().open_list->0.current_item->0.content =~= Seq::<
                        SpanView,
                    >::empty());
                }
            },
            _ => {},
        }
    }

    fn end_table_part(&mut self, kind: TagKind)
        ensures
            final(self).deep_view() == end_table_part_v(old(self).deep_view(), kind),
            final(self).inline_state == old(self).inline_state,
    {
        let mut table = match self.open_table.take() {
            Some(t) => t,
            None => return ,
        };
        match kind {
            TagKind::TableCell => {
                if let Some(cell) = table.current_cell.take() {
                    if let Some(mut row) = table.current_row.take() {
                        let ghost before = row.deep_view();
                        row.push(cell);
                        assert(row.deep_view() =~= before.push(cell.deep_view()));
                        table.current_row = Some(row);
                    }
                }
                self.open_table = Some(table);
            },
            TagKind::TableRow => {
                if let Some(row) = table.current_row.take() {
                    if table.in_header {
                        table.header = row;
                    } else {
                        let ghost before = table.rows.deep_view();
                        table.rows.push(row);
                        assert(table.rows.deep_view() =~= before.push(row.deep_view()));
                    }
                }
                self.open_table = Some(table);
            },
            TagKind::TableHead => {
                if let Some(row) = table.current_row.take() {
                    table.header = row;
                }
                table.in_header = false;
                self.open_table = Some(table);
            },
            _ => {
                self.push_block(
                    Block::Table { alignments: table.alignments, header: table.header, rows: table.rows },
                );
            },
        }
    }

    fn end(&mut self, kind: TagKind)
        ensures
            final(self).deep_view() == end_v(old(self).deep_view(), kind),
            final(self).inline_state.strong_depth <= old(self).inline_state.strong_depth,
            final(self).inline_state.emphasis_depth <= old(self).inline_state.emphasis_depth,
    {
        match kind {
            TagKind::Heading(_) => self.close_block(),
            TagKind::Paragraph => {
                let is_paragraph = match &self.open_block {
                    Some(OpenBlock::Paragraph(_)) => true,
                    _ => false,
                };
                if is_paragraph {
                    self.close_block();
                }
            },
            TagKind::Strong => {
                if self.inline_state.strong_depth > 0 {
                    self.inline_state.strong_depth = self.inline_state.strong_depth - 1;
                }
            },
            TagKind::Emphasis => {
                if self.inline_state.emphasis_depth > 0 {
                    self.inline_state.emphasis_depth = self.inline_state.emphasis_depth - 1;
                }
            },
            TagKind::Link => {
                let ghost before = self.inline_state.links.deep_view();
                if self.inline_state.links.len() > 0 {
                    self.inline_state.links.pop();
                    assert(self.inline_state.links.deep_view() =~= before.drop_last());
                }
            },
            TagKind::BlockQuote => self.close_block(),
            TagKind::CodeBlock => self.close_block(),
            TagKind::TableCell => self.end_table_part(kind),
            TagKind::TableRow => self.end_table_part(kind),
            TagKind::TableHead => self.end_table_part(kind),
            TagKind::Table => self.end_table_part(kind),
            TagKind::Image => self.close_image(),
            TagKind::Item => {
                if let Some(mut list) = self.open_list.take() {
                    if let Some(item) = list.current_item.take() {
                        let ghost before = list.items.deep_view();
                        list.items.push(item);
                        assert(list.items.deep_view() =~= before.push(item.deep_view()));
                    }
                    self.open_list = Some(list);
                }
            },
            TagKind::List(_) => {
                if let Some(list) = self.open_list.take() {
                    self.push_block(Block::List { ordered: list.ordered, items: list.items });
                }
            },
            TagKind::Other => {},
        }
    }

    fn push(&mut self, event: MarkdownEvent)
        requires
            old(self).inline_state.strong_depth < usize::MAX,
            old(self).inline_state.emphasis_depth < usize::MAX,
        ensures
            final(self).deep_view() == step_v(old(self).deep_view(), event.deep_view()),
            final(self).inline_state.strong_depth <= old(self).inline_state.strong_depth + 1,
            final(self).inline_state.emphasis_depth <= old(self).inline_state.emphasis_depth + 1,
    {
        match event {
            MarkdownEvent::Start(tag) => self.start(tag),
            MarkdownEvent::End(kind) => self.end(kind),
            MarkdownEvent::Text(text) => self.push_text(text.as_str()),
            MarkdownEvent::Code(code) => self.push_code(code.as_str()),
            MarkdownEvent::InlineMath(source) => self.push_math(source.as_str()),
            MarkdownEvent::DisplayMath(source) => {
                self.close_block();
                let source = math::display_source(source.as_str());
                self.push_block(Block::Math { display: true, source });
            },
            MarkdownEvent::TaskListMarker(checked) => {
                if let Some(mut list) = self.open_list.take() {
                    if let Some(mut item) = list.current_item.take() {
                        item.checked = Some(checked);
                        list.current_item = Some(item);
                    }
                    self.open_list = Some(list);
                }
            },
            MarkdownEvent::SoftBreak => {
                proof {
                    reveal_strlit("\n");
                    assert("\n"@ =~= seq!['\n']);
                }
                self.push_text("\n");
            },
            MarkdownEvent::HardBreak => {
                proof {
                    reveal_strlit("\n");
                    assert("\n"@ =~= seq!['\n']);
                }
                self.push_text("\n");
            },
            MarkdownEvent::Rule => self.push_block(Block::Rule),
            MarkdownEvent::Other => {},
        }
    }
}

/// The blocks that an event stream describes.
pub fn build_blocks(events: Vec<MarkdownEvent>) -> (blocks: Vec<Block>)
    ensures
        blocks.deep_view() == built_blocks(events.deep_view()),
{
    let ghost views = events.deep_view();
    let ghost evs = events@;
    let n = events.len();
    let mut builder = DocumentBuilder::new();
    assert(views.take(0) =~= Seq::<EventView>::empty());
    for event in iter: events
        invariant
            iter.seq() == evs,
            views.len() == evs.len(),
            forall|j: int| 0 <= j < evs.len() ==> #[trigger] views[j] == evs[j].deep_view(),
            builder.deep_view() == run_v(views.take(iter.index() as int)),
            builder.inline_state.strong_depth <= iter.index(),
            builder.inline_state.emphasis_depth <= iter.index(),
            iter.index() <= evs.len(),
            evs.len() == n,
    {
        let ghost k = iter.index() as int;
        assert(views.take(k + 1).drop_last() =~= views.take(k));
        assert(views.take(k + 1).last() == views[k]);
        builder.push(event);
    }
    assert(views.take(views.len() as int) =~= views);
    builder.blocks
}

} // verus!
