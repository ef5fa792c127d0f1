use vstd::prelude::*;

use crate::parser::HeadingLevel;
use crate::parser::events::{EventView, MarkdownEvent, MarkdownTag, TagKind};
use pulldown_cmark::{Alignment, CodeBlockKind, Event, Options, Parser, Tag, TagEnd};
use pulldown_cmark::HeadingLevel as CmarkHeadingLevel;

verus! {

#[verifier::external_type_specification]
#[verifier::external_body]
pub struct ExCmarkEvent<'a>(Event<'a>);

#[verifier::external_type_specification]
#[verifier::external_body]
pub struct ExCmarkTag<'a>(Tag<'a>);

#[verifier::external_type_specification]
#[verifier::external_body]
pub struct ExCmarkTagEnd(TagEnd);

#[verifier::external_type_specification]
#[verifier::external_body]
pub struct ExCmarkAlignment(Alignment);

#[verifier::external_type_specification]
#[verifier::external_body]
pub struct ExCmarkHeadingLevel(CmarkHeadingLevel);

#[verifier::external_type_specification]
#[verifier::external_body]
pub struct ExCmarkCodeBlockKind<'a>(CodeBlockKind<'a>);

/// The event stream that pulldown-cmark's parser yields for a source with all
/// of its extensions enabled, each event as the library reads it.
pub uninterp spec fn markdown_events(source: Seq<char>) -> Seq<EventView>;

/// Runs `pulldown_cmark::Parser::new_ext(source, Options::all())` to the end.
/// Trusted: the events are a function of the source alone; what they are is
/// pulldown-cmark's CommonMark grammar and is not stated here.
#[verifier::external_body]
pub fn cmark_events(source: &str) -> (events: Vec<MarkdownEvent>)
    ensures
        events.deep_view() == markdown_events(source@),
{
    Parser::new_ext(source, Options::all()).map(event_from_cmark).collect()
}

/// Moves one pulldown-cmark event into the library's event type, variant for
/// variant; events the library does not read become `Other`.
#[verifier::external_body]
fn event_from_cmark(event: Event) -> MarkdownEvent {
    match event {
        Event::Start(tag) => MarkdownEvent::Start(tag_from_cmark(tag)),
        Event::End(tag) => MarkdownEvent::End(kind_from_cmark(tag)),
        Event::Text(text) => MarkdownEvent::Text(text.into_string()),
        Event::Code(code) => MarkdownEvent::Code(code.into_string()),
        Event::InlineMath(math) => MarkdownEvent::InlineMath(math.into_string()),
        Event::DisplayMath(math) => MarkdownEvent::DisplayMath(math.into_string()),
        Event::TaskListMarker(checked) => MarkdownEvent::TaskListMarker(checked),
        Event::SoftBreak => MarkdownEvent::SoftBreak,
        Event::HardBreak => MarkdownEvent::HardBreak,
        Event::Rule => MarkdownEvent::Rule,
        _ => MarkdownEvent::Other,
    }
}

/// Moves the payload of a start tag that carries one; the rest keep only
/// their kind, read through `Tag::to_end`.
#[verifier::external_body]
fn tag_from_cmark(tag: Tag) -> MarkdownTag {
    match tag {
        Tag::CodeBlock(kind) => MarkdownTag::CodeBlock(fence_from_cmark(kind)),
        Tag::Table(aligns) => MarkdownTag::Table(aligns.into_iter().map(alignment_from_cmark).collect()),
        Tag::Link { dest_url, .. } => MarkdownTag::Link(dest_url.into_string()),
        Tag::Image { dest_url, title, .. } => MarkdownTag::Image(dest_url.into_string(), title.into_string()),
        Tag::List(first) => MarkdownTag::List(first),
        other => MarkdownTag::Plain(kind_from_cmark(other.to_end())),
    }
}

/// Moves a code block kind: the fence's info string, or `None` when indented.
#[verifier::external_body]
fn fence_from_cmark(kind: CodeBlockKind) -> Option<String> {
    match kind {
        CodeBlockKind::Indented => None,
        CodeBlockKind::Fenced(info) => Some(info.into_string()),
    }
}

/// Gives pulldown-cmark's heading level as the library's, variant for variant.
#[verifier::external_body]
fn heading_from_cmark(level: CmarkHeadingLevel) -> HeadingLevel {
    match level {
        CmarkHeadingLevel::H1 => HeadingLevel::H1,
        CmarkHeadingLevel::H2 => HeadingLevel::H2,
        CmarkHeadingLevel::H3 => HeadingLevel::H3,
        CmarkHeadingLevel::H4 => HeadingLevel::H4,
        CmarkHeadingLevel::H5 => HeadingLevel::H5,
        CmarkHeadingLevel::H6 => HeadingLevel::H6,
    }
}

/// Moves the kind of an element of block structure; the others are passed on.
#[verifier::external_body]
fn kind_from_cmark(tag: TagEnd) -> TagKind {
    match tag {
        TagEnd::Paragraph => TagKind::Paragraph,
        TagEnd::Heading(level) => TagKind::Heading(heading_from_cmark(level)),
        TagEnd::BlockQuote(_) => TagKind::BlockQuote,
        TagEnd::CodeBlock => TagKind::CodeBlock,
        TagEnd::List(ordered) => TagKind::List(ordered),
        TagEnd::Item => TagKind::Item,
        other => inline_kind_from_cmark(other),
    }
}

/// Moves the kind of a table part or an inline element.
#[verifier::external_body]
fn inline_kind_from_cmark(tag: TagEnd) -> TagKind {
    match tag {
        TagEnd::Table => TagKind::Table,
        TagEnd::TableHead => TagKind::TableHead,
        TagEnd::TableRow => TagKind::TableRow,
        TagEnd::TableCell => TagKind::TableCell,
        TagEnd::Emphasis => TagKind::Emphasis,
        TagEnd::Strong => TagKind::Strong,
        TagEnd::Link => TagKind::Link,
        TagEnd::Image => TagKind::Image,
        _ => TagKind::Other,
    }
}

/// Moves a column alignment, variant for variant.
#[verifier::external_body]
fn alignment_from_cmark(alignment: Alignment) -> crate::parser::TableAlignment {
    match alignment {
        Alignment::None => crate::parser::TableAlignment::Unaligned,
        Alignment::Left => crate::parser::TableAlignment::Left,
        Alignment::Center => crate::parser::TableAlignment::Center,
        Alignment::Right => crate::parser::TableAlignment::Right,
    }
}

} // verus!
