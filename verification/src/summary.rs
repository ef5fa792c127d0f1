use vstd::prelude::*;

use crate::document::Document;
use crate::parser::elements::inline::{plain_text, plain_text_of};
use crate::parser::{Block, BlockView};
use crate::pdf::byte_len;
use crate::text::{decimal, push_chars, push_str, decimal_chars_wide};

verus! {

/// How many blocks a summary lists.
pub const SUMMARY_BLOCKS: usize = 5;

/// One block in a few words.
pub open spec fn block_summary_of(block: BlockView) -> Seq<char> {
    match block {
        BlockView::Heading { level, spans } => seq!['H'] + decimal(level.depth() as nat) + seq![' '] + plain_text_of(
            spans,
        ),
        BlockView::Paragraph(spans) => "Paragraph: "@ + plain_text_of(spans),
        BlockView::BlockQuote(spans) => "Quote: "@ + plain_text_of(spans),
        BlockView::CodeBlock { language, code } => "Code ("@ + match language {
            Some(l) => l,
            None => "plain"@,
        } + ", "@ + decimal(byte_len(code)) + " bytes)"@,
        BlockView::Diagram { language, source } => "Diagram ("@ + language + ", "@ + decimal(byte_len(source))
            + " bytes)"@,
        BlockView::Image { alt, .. } => "Image: "@ + alt,
        BlockView::Table { rows, .. } => "Table ("@ + decimal(rows.len()) + " rows)"@,
        BlockView::List { ordered, items } => (if ordered {
            "Ordered"@
        } else {
            "Unordered"@
        }) + " list ("@ + decimal(items.len()) + " items)"@,
        BlockView::Math { source, .. } => "Math: "@ + source,
        BlockView::Rule => "Rule"@,
    }
}

/// The summary lines of the first `k` blocks, each after a newline.
pub open spec fn block_lines_of(blocks: Seq<BlockView>, k: int) -> Seq<char>
    decreases k,
{
    if k <= 0 {
        Seq::empty()
    } else {
        block_lines_of(blocks, k - 1) + "\n- "@ + block_summary_of(blocks[k - 1])
    }
}

/// A short text about a loaded document: its title, its path or
/// `<memory>`, how many blocks it has, and the first five of them.
pub open spec fn document_summary_of(title: Seq<char>, path: Option<Seq<char>>, blocks: Seq<BlockView>) -> Seq<char> {
    "PaperView GUI preview: "@ + title + "\nPath: "@ + match path {
        Some(p) => p,
        None => "<memory>"@,
    } + "\nBlocks: "@ + decimal(blocks.len()) + block_lines_of(
        blocks,
        if blocks.len() < 5 {
            blocks.len() as int
        } else {
            5
        },
    )
}

fn push_number(out: &mut String, n: usize)
    ensures
        final(out)@ == old(out)@ + decimal(n as nat),
{
    let d = decimal_chars_wide(n as u128);
    push_chars(out, d.as_slice());
}

fn push_block_summary(out: &mut String, block: &Block)
    ensures
        final(out)@ == old(out)@ + block_summary_of(block.deep_view()),
{
    match block {
        Block::Heading { level, spans } => {
            out.push('H');
            push_number(out, level.as_depth() as usize);
            out.push(' ');
            push_str(out, plain_text(spans.as_slice()).as_str());
        },
        Block::Paragraph(spans) => {
            push_str(out, "Paragraph: ");
            push_str(out, plain_text(spans.as_slice()).as_str());
        },
        Block::BlockQuote(spans) => {
            push_str(out, "Quote: ");
            push_str(out, plain_text(spans.as_slice()).as_str());
        },
        Block::CodeBlock { language, code } => {
            push_str(out, "Code (");
            match language {
                Some(l) => push_str(out, l.as_str()),
                None => push_str(out, "plain"),
            }
            push_str(out, ", ");
            push_number(out, code.as_str().len());
            push_str(out, " bytes)");
        },
        Block::Diagram { language, source } => {
            push_str(out, "Diagram (");
            push_str(out, language.as_str());
            push_str(out, ", ");
            push_number(out, source.as_str().len());
            push_str(out, " bytes)");
        },
        Block::Image { alt, .. } => {
            push_str(out, "Image: ");
            push_str(out, alt.as_str());
        },
        Block::Table { rows, .. } => {
            push_str(out, "Table (");
            push_number(out, rows.len());
            push_str(out, " rows)");
        },
        Block::List { ordered, items } => {
            if *ordered {
                push_str(out, "Ordered");
            } else {
                push_str(out, "Unordered");
            }
            push_str(out, " list (");
            push_number(out, items.len());
            push_str(out, " items)");
        },
        Block::Math { source, .. } => {
            push_str(out, "Math: ");
            push_str(out, source.as_str());
        },
        Block::Rule => push_str(out, "Rule"),
    }
}

/// A short text about a loaded document: its title, its path or
/// `<memory>`, how many blocks it has, and a line for each of the first five.
pub fn render_document_summary(document: &Document) -> (r: String)
    ensures
        r@ == document_summary_of(document.title_view(), document.path_view(), document.parsed_view()),
{
    let mut out = String::new();
    push_str(&mut out, "PaperView GUI preview: ");
    push_str(&mut out, document.title());
    push_str(&mut out, "\nPath: ");
    match document.path() {
        Some(p) => push_str(&mut out, p.as_str()),
        None => push_str(&mut out, "<memory>"),
    }
    push_str(&mut out, "\nBlocks: ");
    let parsed = document.parsed();
    let ghost bv = parsed.deep_view();
    let n = parsed.blocks.len();
    push_number(&mut out, n);
    let ghost head = out@;
    let shown = if n < SUMMARY_BLOCKS {
        n
    } else {
        SUMMARY_BLOCKS
    };
    let mut i: usize = 0;
    while i < shown
        invariant
            i <= shown <= n,
            n == parsed.blocks@.len(),
            bv == parsed.deep_view(),
            bv.len() == n,
            out@ == head + block_lines_of(bv, i as int),
        decreases shown - i,
    {
        push_str(&mut out, "\n- ");
        assert(bv[i as int] == parsed.blocks@[i as int].deep_view());
        push_block_summary(&mut out, &parsed.blocks[i]);
        i = i + 1;
    }
    out
}

} // verus!
