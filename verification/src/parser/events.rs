use vstd::prelude::*;

use crate::parser::{HeadingLevel, TableAlignment};

verus! {

/// What kind of element a start or end event opens or closes.
#[derive(Debug, Clone, Copy, PartialEq, Eq, Structural)]
pub enum TagKind {
    Paragraph,
    Heading(HeadingLevel),
    BlockQuote,
    CodeBlock,
    /// A list; `true` when it is ordered.
    List(bool),
    Item,
    Table,
    TableHead,
    TableRow,
    TableCell,
    Emphasis,
    Strong,
    Link,
    Image,
    Other,
}

/// The opening of an element, with what the document builder reads from it.
#[derive(Debug, Clone, PartialEq, Eq)]
pub enum MarkdownTag {
    /// A code block; the fence's info string, or `None` when indented.
    CodeBlock(Option<String>),
    Table(Vec<TableAlignment>),
    /// A link and its destination.
    Link(String),
    /// An image: its destination and its title.
    Image(String, String),
    /// A list; the first item's number when the list is ordered.
    List(Option<u64>),
    Plain(TagKind),
}

pub enum TagView {
    CodeBlock(Option<Seq<char>>),
    Table(Seq<TableAlignment>),
    Link(Seq<char>),
    Image(Seq<char>, Seq<char>),
    List(Option<u64>),
    Plain(TagKind),
}

impl DeepView for MarkdownTag {
    type V = TagView;

    open spec fn deep_view(&self) -> TagView {
        match self {
            MarkdownTag::CodeBlock(info) => TagView::CodeBlock(info.deep_view()),
            MarkdownTag::Table(alignments) => TagView::Table(alignments@),
            MarkdownTag::Link(url) => TagView::Link(url@),
            MarkdownTag::Image(url, title) => TagView::Image(url@, title@),
            MarkdownTag::List(first) => TagView::List(*first),
            MarkdownTag::Plain(kind) => TagView::Plain(*kind),
        }
    }
}

/// One event of a Markdown event stream.
#[derive(Debug, Clone, PartialEq, Eq)]
pub enum MarkdownEvent {
    Start(MarkdownTag),
    End(TagKind),
    Text(String),
    Code(String),
    InlineMath(String),
    DisplayMath(String),
    TaskListMarker(bool),
    SoftBreak,
    HardBreak,
    Rule,
    Other,
}

pub enum EventView {
    Start(TagView),
    End(TagKind),
    Text(Seq<char>),
    Code(Seq<char>),
    InlineMath(Seq<char>),
    DisplayMath(Seq<char>),
    TaskListMarker(bool),
    SoftBreak,
    HardBreak,
    Rule,
    Other,
}

impl DeepView for MarkdownEvent {
    type V = EventView;

    open spec fn deep_view(&self) -> EventView {
        match self {
            MarkdownEvent::Start(tag) => EventView::Start(tag.deep_view()),
            MarkdownEvent::End(kind) => EventView::End(*kind),
            MarkdownEvent::Text(t) => EventView::Text(t@),
            MarkdownEvent::Code(t) => EventView::Code(t@),
            MarkdownEvent::InlineMath(t) => EventView::InlineMath(t@),
            MarkdownEvent::DisplayMath(t) => EventView::DisplayMath(t@),
            MarkdownEvent::TaskListMarker(checked) => EventView::TaskListMarker(*checked),
            MarkdownEvent::SoftBreak => EventView::SoftBreak,
            MarkdownEvent::HardBreak => EventView::HardBreak,
            MarkdownEvent::Rule => EventView::Rule,
            MarkdownEvent::Other => EventView::Other,
        }
    }
}

} // verus!
