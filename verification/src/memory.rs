use vstd::prelude::*;

use crate::document::Document;
use crate::parser::{Block, BlockView, InlineSpan, ItemView, ListItem, SpanView};
use crate::pdf::byte_len;

verus! {

/// The bytes of text that spans hold: their text and link targets.
pub open spec fn spans_bytes_of(spans: Seq<SpanView>) -> nat
    decreases spans.len(),
{
    if spans.len() == 0 {
        0
    } else {
        spans_bytes_of(spans.drop_last()) + byte_len(spans.last().text) + match spans.last().link {
            Some(l) => byte_len(l),
            None => 0,
        }
    }
}

/// The bytes of text in table cells.
pub open spec fn cells_bytes_of(cells: Seq<Seq<SpanView>>) -> nat
    decreases cells.len(),
{
    if cells.len() == 0 {
        0
    } else {
        cells_bytes_of(cells.drop_last()) + spans_bytes_of(cells.last())
    }
}

/// The bytes of text in table rows.
pub open spec fn rows_bytes_of(rows: Seq<Seq<Seq<SpanView>>>) -> nat
    decreases rows.len(),
{
    if rows.len() == 0 {
        0
    } else {
        rows_bytes_of(rows.drop_last()) + cells_bytes_of(rows.last())
    }
}

/// The bytes of text in list items.
pub open spec fn items_bytes_of(items: Seq<ItemView>) -> nat
    decreases items.len(),
{
    if items.len() == 0 {
        0
    } else {
        items_bytes_of(items.drop_last()) + spans_bytes_of(items.last().content)
    }
}

/// The bytes of text a block holds.
pub open spec fn block_bytes_of(block: BlockView) -> nat {
    match block {
        BlockView::Heading { spans, .. } => spans_bytes_of(spans),
        BlockView::Paragraph(spans) => spans_bytes_of(spans),
        BlockView::BlockQuote(spans) => spans_bytes_of(spans),
        BlockView::CodeBlock { language, code } => (match language {
            Some(l) => byte_len(l),
            None => 0,
        }) + byte_len(code),
        BlockView::Diagram { language, source } => byte_len(language) + byte_len(source),
        BlockView::Image { alt, url, title } => byte_len(alt) + byte_len(url) + byte_len(title),
        BlockView::Table { header, rows, .. } => cells_bytes_of(header) + rows_bytes_of(rows),
        BlockView::List { items, .. } => items_bytes_of(items),
        BlockView::Math { source, .. } => byte_len(source),
        BlockView::Rule => 0,
    }
}

/// The bytes of text the blocks hold.
pub open spec fn blocks_bytes_of(blocks: Seq<BlockView>) -> nat
    decreases blocks.len(),
{
    if blocks.len() == 0 {
        0
    } else {
        blocks_bytes_of(blocks.drop_last()) + block_bytes_of(blocks.last())
    }
}

/// The bytes of text in lines.
pub open spec fn lines_bytes_of(lines: Seq<Seq<char>>) -> nat
    decreases lines.len(),
{
    if lines.len() == 0 {
        0
    } else {
        lines_bytes_of(lines.drop_last()) + byte_len(lines.last())
    }
}

/// A count, kept at `usize::MAX` when it would go past it.
pub open spec fn capped(n: int) -> usize {
    if n > usize::MAX {
        usize::MAX
    } else {
        n as usize
    }
}

fn add_capped(a: usize, b: usize) -> (r: usize)
    ensures
        r == capped(a + b),
{
    if a > usize::MAX - b {
        usize::MAX
    } else {
        a + b
    }
}

proof fn lemma_capped_step(x: int, y: int)
    requires
        0 <= x,
        0 <= y,
    ensures
        capped(capped(x) + y) == capped((x + y) as int),
{
}

fn str_bytes(s: &str) -> (r: usize)
    ensures
        r == byte_len(s@),
{
    s.len()
}

fn spans_bytes(spans: &[InlineSpan]) -> (r: usize)
    ensures
        r == capped((spans_bytes_of(spans.deep_view())) as int),
{
    let ghost sv = spans.deep_view();
    let mut acc: usize = 0;
    let mut i: usize = 0;
    assert(sv.take(0) =~= Seq::<SpanView>::empty());
    while i < spans.len()
        invariant
            i <= spans@.len(),
            sv == spans.deep_view(),
            acc == capped((spans_bytes_of(sv.take(i as int))) as int),
        decreases spans@.len() - i,
    {
        assert(sv.take(i + 1).drop_last() =~= sv.take(i as int));
        assert(sv[i as int] == spans@[i as int].deep_view());
        let ghost before = spans_bytes_of(sv.take(i as int));
        let t = str_bytes(spans[i].text.as_str());
        let l: usize = match &spans[i].link {
            Some(link) => str_bytes(link.as_str()),
            None => 0,
        };
        proof {
            lemma_capped_step(before as int, t as int);
            lemma_capped_step(before + t, l as int);
        }
        acc = add_capped(acc, t);
        acc = add_capped(acc, l);
        i = i + 1;
    }
    assert(sv.take(sv.len() as int) =~= sv);
    acc
}

fn cells_bytes(cells: &[Vec<InlineSpan>]) -> (r: usize)
    ensures
        r == capped((cells_bytes_of(cells.deep_view())) as int),
{
    let ghost cv = cells.deep_view();
    let mut acc: usize = 0;
    let mut i: usize = 0;
    assert(cv.take(0) =~= Seq::<Seq<SpanView>>::empty());
    while i < cells.len()
        invariant
            i <= cells@.len(),
            cv == cells.deep_view(),
            acc == capped((cells_bytes_of(cv.take(i as int))) as int),
        decreases cells@.len() - i,
    {
        assert(cv.take(i + 1).drop_last() =~= cv.take(i as int));
        assert(cv[i as int] == cells@[i as int].deep_view());
        let ghost before = cells_bytes_of(cv.take(i as int));
        let b = spans_bytes(cells[i].as_slice());
        proof {
            lemma_capped_step(before as int, b as int);
            lemma_capped_step(before as int, spans_bytes_of(cv[i as int]) as int);
        }
        acc = add_capped(acc, b);
        i = i + 1;
    }
    assert(cv.take(cv.len() as int) =~= cv);
    acc
}

fn rows_bytes(rows: &[Vec<Vec<InlineSpan>>]) -> (r: usize)
    ensures
        r == capped((rows_bytes_of(rows.deep_view())) as int),
{
    let ghost rv = rows.deep_view();
    let mut acc: usize = 0;
    let mut i: usize = 0;
    assert(rv.take(0) =~= Seq::<Seq<Seq<SpanView>>>::empty());
    while i < rows.len()
        invariant
            i <= rows@.len(),
            rv == rows.deep_view(),
            acc == capped((rows_bytes_of(rv.take(i as int))) as int),
        decreases rows@.len() - i,
    {
        assert(rv.take(i + 1).drop_last() =~= rv.take(i as int));
        assert(rv[i as int] == rows@[i as int].deep_view());
        let ghost before = rows_bytes_of(rv.take(i as int));
        let b = cells_bytes(rows[i].as_slice());
        proof {
            lemma_capped_step(before as int, b as int);
        }
        acc = add_capped(acc, b);
        i = i + 1;
    }
    assert(rv.take(rv.len() as int) =~= rv);
    acc
}

fn items_bytes(items: &[ListItem]) -> (r: usize)
    ensures
        r == capped((items_bytes_of(items.deep_view())) as int),
{
    let ghost iv = items.deep_view();
    let mut acc: usize = 0;
    let mut i: usize = 0;
    assert(iv.take(0) =~= Seq::<ItemView>::empty());
    while i < items.len()
        invariant
            i <= items@.len(),
            iv == items.deep_view(),
            acc == capped((items_bytes_of(iv.take(i as int))) as int),
        decreases items@.len() - i,
    {
        assert(iv.take(i + 1).drop_last() =~= iv.take(i as int));
        assert(iv[i as int] == items@[i as int].deep_view());
        let ghost before = items_bytes_of(iv.take(i as int));
        let b = spans_bytes(items[i].content.as_slice());
        proof {
            lemma_capped_step(before as int, b as int);
        }
        acc = add_capped(acc, b);
        i = i + 1;
    }
    assert(iv.take(iv.len() as int) =~= iv);
    acc
}

fn block_bytes(block: &Block) -> (r: usize)
    ensures
        r == capped((block_bytes_of(block.deep_view())) as int),
{
    match block {
        Block::Heading { spans, .. } => spans_bytes(spans.as_slice()),
        Block::Paragraph(spans) => spans_bytes(spans.as_slice()),
        Block::BlockQuote(spans) => spans_bytes(spans.as_slice()),
        Block::CodeBlock { language, code } => {
            let l: usize = match language {
                Some(l) => str_bytes(l.as_str()),
                None => 0,
            };
            add_capped(l, str_bytes(code.as_str()))
        },
        Block::Diagram { language, source } => add_capped(str_bytes(language.as_str()), str_bytes(source.as_str())),
        Block::Image { alt, url, title } => {
            let a = add_capped(str_bytes(alt.as_str()), str_bytes(url.as_str()));
            proof {
                lemma_capped_step((byte_len(alt@) + byte_len(url@)) as int, byte_len(title@) as int);
            }
            add_capped(a, str_bytes(title.as_str()))
        },
        Block::Table { header, rows, .. } => {
            let h = cells_bytes(header.as_slice());
            let r = rows_bytes(rows.as_slice());
            proof {
                lemma_capped_step(cells_bytes_of(header.deep_view()) as int, r as int);
                lemma_capped_step(rows_bytes_of(rows.deep_view()) as int, cells_bytes_of(header.deep_view()) as int);
            }
            add_capped(h, r)
        },
        Block::List { items, .. } => items_bytes(items.as_slice()),
        Block::Math { source, .. } => str_bytes(source.as_str()),
        Block::Rule => 0,
    }
}

/// The bytes a document and its rendered lines take in memory, as an
/// estimate: its source, the text its blocks hold, and the lines. The count
/// stays at `usize::MAX` if it would go past it.
pub fn estimated_memory_bytes(document: &Document, rendered_lines: &[String]) -> (r: usize)
    ensures
        r == capped(
            (byte_len(document.source_view()) + blocks_bytes_of(document.parsed_view()) + lines_bytes_of(
                rendered_lines.deep_view(),
            )) as int,
        ),
{
    let parsed = document.parsed();
    let ghost bv = parsed.deep_view();
    let mut acc: usize = str_bytes(document.source());
    let ghost base = byte_len(document.source_view());
    let mut i: usize = 0;
    assert(bv.take(0) =~= Seq::<BlockView>::empty());
    while i < parsed.blocks.len()
        invariant
            i <= parsed.blocks@.len(),
            bv == parsed.deep_view(),
            bv.len() == parsed.blocks@.len(),
            acc == capped((base + blocks_bytes_of(bv.take(i as int))) as int),
        decreases parsed.blocks@.len() - i,
    {
        assert(bv.take(i + 1).drop_last() =~= bv.take(i as int));
        assert(bv[i as int] == parsed.blocks@[i as int].deep_view());
        let ghost before = base + blocks_bytes_of(bv.take(i as int));
        let b = block_bytes(&parsed.blocks[i]);
        proof {
            lemma_capped_step(before as int, b as int);
            lemma_capped_step((blocks_bytes_of(bv.take(i as int)) + base) as int, block_bytes_of(bv[i as int]) as int);
        }
        acc = add_capped(acc, b);
        i = i + 1;
    }
    assert(bv.take(bv.len() as int) =~= bv);
    let ghost mid = base + blocks_bytes_of(bv);
    let ghost lv = rendered_lines.deep_view();
    let mut j: usize = 0;
    assert(lv.take(0) =~= Seq::<Seq<char>>::empty());
    while j < rendered_lines.len()
        invariant
            j <= rendered_lines@.len(),
            lv == rendered_lines.deep_view(),
            acc == capped((mid + lines_bytes_of(lv.take(j as int))) as int),
        decreases rendered_lines@.len() - j,
    {
        assert(lv.take(j + 1).drop_last() =~= lv.take(j as int));
        assert(lv[j as int] == rendered_lines@[j as int]@);
        let ghost before = mid + lines_bytes_of(lv.take(j as int));
        let b = str_bytes(rendered_lines[j].as_str());
        proof {
            lemma_capped_step(before as int, b as int);
        }
        acc = add_capped(acc, b);
        j = j + 1;
    }
    assert(lv.take(lv.len() as int) =~= lv);
    acc
}

} // verus!
