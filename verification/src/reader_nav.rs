use vstd::prelude::*;

use crate::parser::{Block, BlockView, TocItem, TocView};
use crate::render::BlockLineStart;

verus! {

/// The first rendered line of a block, from the blocks' line starts; at the
/// very end for a block that has none.
pub open spec fn block_line_start_of(starts: Seq<BlockLineStart>, block_index: usize) -> usize
    decreases starts.len(),
{
    if starts.len() == 0 {
        usize::MAX
    } else if starts[0].block_index == block_index {
        starts[0].line
    } else {
        block_line_start_of(starts.drop_first(), block_index)
    }
}

/// The first rendered line of a block.
pub fn block_line_start(starts: &[BlockLineStart], block_index: usize) -> (r: usize)
    ensures
        r == block_line_start_of(starts@, block_index),
{
    let mut i: usize = 0;
    assert(starts@.skip(0) =~= starts@);
    while i < starts.len()
        invariant
            i <= starts@.len(),
            block_line_start_of(starts@, block_index) == block_line_start_of(starts@.skip(i as int), block_index),
        decreases starts@.len() - i,
    {
        assert(starts@.skip(i as int).drop_first() =~= starts@.skip(i + 1));
        if starts[i].block_index == block_index {
            return starts[i].line;
        }
        i = i + 1;
    }
    assert(starts@.skip(i as int) =~= Seq::<BlockLineStart>::empty());
    usize::MAX
}

/// The last heading among the first `k` that starts at or above `line`.
pub open spec fn last_heading_at_or_above(
    toc: Seq<TocView>,
    starts: Seq<BlockLineStart>,
    line: usize,
    k: int,
) -> Option<usize>
    decreases k,
{
    if k <= 0 {
        None
    } else if block_line_start_of(starts, toc[k - 1].block_index) <= line {
        Some(toc[k - 1].block_index)
    } else {
        last_heading_at_or_above(toc, starts, line, k - 1)
    }
}

/// The heading the reader is in at scroll position `scroll`: the last one
/// that starts at or above it, else the first heading; none without
/// headings.
pub open spec fn active_toc_block_of(toc: Seq<TocView>, starts: Seq<BlockLineStart>, scroll: u16) -> Option<usize> {
    match last_heading_at_or_above(toc, starts, scroll as usize, toc.len() as int) {
        Some(b) => Some(b),
        None => if toc.len() > 0 {
            Some(toc[0].block_index)
        } else {
            None
        },
    }
}

/// The heading the reader is in at a scroll position.
pub fn active_toc_block_index(toc: &[TocItem], starts: &[BlockLineStart], scroll: u16) -> (r: Option<usize>)
    ensures
        r == active_toc_block_of(toc.deep_view(), starts@, scroll),
{
    let ghost tv = toc.deep_view();
    let target = scroll as usize;
    let mut k: usize = toc.len();
    while k > 0
        invariant
            k <= toc@.len(),
            tv == toc.deep_view(),
            target == scroll as usize,
            last_heading_at_or_above(tv, starts@, target, toc@.len() as int) == last_heading_at_or_above(
                tv,
                starts@,
                target,
                k as int,
            ),
        decreases k,
    {
        assert(tv[k - 1] == toc@[k - 1].deep_view());
        if block_line_start(starts, toc[k - 1].block_index) <= target {
            return Some(toc[k - 1].block_index);
        }
        k = k - 1;
    }
    if toc.len() > 0 {
        assert(tv[0] == toc@[0].deep_view());
        Some(toc[0].block_index)
    } else {
        None
    }
}

/// The position in the table of contents of the heading of a block.
pub open spec fn toc_index_of(toc: Seq<TocView>, block_index: usize) -> Option<usize>
    decreases toc.len(),
{
    if toc.len() == 0 {
        None
    } else if toc.last().block_index == block_index && toc_index_of(toc.drop_last(), block_index) is None {
        Some((toc.len() - 1) as usize)
    } else {
        toc_index_of(toc.drop_last(), block_index)
    }
}

/// The position in the table of contents of the heading of a block.
pub fn toc_index_for_block(toc: &[TocItem], block_index: usize) -> (r: Option<usize>)
    ensures
        r == toc_index_of(toc.deep_view(), block_index),
{
    let ghost tv = toc.deep_view();
    let mut i: usize = 0;
    assert(tv.take(0) =~= Seq::<TocView>::empty());
    while i < toc.len()
        invariant
            i <= toc@.len(),
            tv == toc.deep_view(),
            toc_index_of(tv.take(i as int), block_index) is None,
        decreases toc@.len() - i,
    {
        assert(tv.take(i + 1).drop_last() =~= tv.take(i as int));
        assert(tv[i as int] == toc@[i as int].deep_view());
        if toc[i].block_index == block_index {
            proof {
                lemma_toc_index_prefix(tv, i as int, block_index);
            }
            return Some(i);
        }
        i = i + 1;
    }
    assert(tv.take(i as int) =~= tv);
    None
}

proof fn lemma_toc_index_prefix(tv: Seq<TocView>, i: int, block_index: usize)
    requires
        0 <= i < tv.len(),
        tv[i].block_index == block_index,
        toc_index_of(tv.take(i), block_index) is None,
    ensures
        toc_index_of(tv, block_index) == Some(i as usize),
    decreases tv.len() - i,
{
    assert(tv.take(i + 1).drop_last() =~= tv.take(i));
    if i + 1 == tv.len() {
        assert(tv.take(i + 1) =~= tv);
    } else {
        lemma_toc_index_prefix_extends(tv, i + 1, block_index, i);
    }
}

proof fn lemma_toc_index_prefix_extends(tv: Seq<TocView>, k: int, block_index: usize, i: int)
    requires
        0 <= i < k <= tv.len(),
        toc_index_of(tv.take(k), block_index) == Some(i as usize),
    ensures
        toc_index_of(tv, block_index) == Some(i as usize),
    decreases tv.len() - k,
{
    if k == tv.len() {
        assert(tv.take(k) =~= tv);
    } else {
        assert(tv.take(k + 1).drop_last() =~= tv.take(k));
        lemma_toc_index_prefix_extends(tv, k + 1, block_index, i);
    }
}

/// How far the reader can scroll over `line_count` rendered lines: to the
/// last line, as a 16-bit position that wraps past its range.
pub open spec fn max_scroll_of(line_count: usize) -> u16 {
    (if line_count > 0 {
        (line_count - 1) as usize
    } else {
        0usize
    }) as u16
}

/// How far the reader can scroll over `line_count` rendered lines.
pub fn max_scroll(line_count: usize) -> (r: u16)
    ensures
        r == max_scroll_of(line_count),
{
    let last: usize = if line_count > 0 {
        line_count - 1
    } else {
        0
    };
    #[verifier::truncate]
    (last as u16)
}

/// A scroll position moved by `delta` lines: down no further than
/// `max_scroll`, up no further than the top.
pub open spec fn offset_scroll_of(current: u16, delta: int, max_scroll: u16) -> u16 {
    if delta < 0 {
        let up = (-delta) as u16;
        if current >= up {
            (current - up) as u16
        } else {
            0
        }
    } else {
        let down = delta as u16;
        let moved = if current + down > u16::MAX {
            u16::MAX
        } else {
            (current + down) as u16
        };
        if moved < max_scroll {
            moved
        } else {
            max_scroll
        }
    }
}

/// A scroll position moved by `delta` lines; the step is taken as a 16-bit
/// count, as the reader does.
pub fn offset_scroll(current: u16, delta: isize, max_scroll: u16) -> (r: u16)
    ensures
        r == offset_scroll_of(current, delta as int, max_scroll),
{
    if delta < 0 {
        let magnitude: u128 = (-(delta as i128)) as u128;
        #[verifier::truncate]
        let up = magnitude as u16;
        current.saturating_sub(up)
    } else {
        #[verifier::truncate]
        let down = delta as u16;
        let moved = current.saturating_add(down);
        if moved < max_scroll {
            moved
        } else {
            max_scroll
        }
    }
}

/// The last of the first `k` block line starts at or above `line`.
pub open spec fn last_anchor_at_or_above(starts: Seq<BlockLineStart>, line: int, k: int) -> Option<int>
    decreases k,
{
    if k <= 0 {
        None
    } else if starts[k - 1].line <= line {
        Some(k - 1)
    } else {
        last_anchor_at_or_above(starts, line, k - 1)
    }
}

/// The source line of the task checkbox on rendered line `scroll`: the line
/// lies in the rendered lines of the last block that starts at or above it,
/// that block is a list, and the item shown there has a checkbox and a
/// source line.
pub open spec fn task_line_at_of(
    blocks: Seq<BlockView>,
    starts: Seq<BlockLineStart>,
    line_count: usize,
    scroll: u16,
) -> Option<usize> {
    let line = scroll as int;
    match last_anchor_at_or_above(starts, line, starts.len() as int) {
        None => None,
        Some(a) => {
            let anchor = starts[a];
            let next = if a + 1 < starts.len() {
                starts[a + 1].line as int
            } else {
                line_count as int
            };
            if line >= next || anchor.block_index >= blocks.len() {
                None
            } else {
                match blocks[anchor.block_index as int] {
                    BlockView::List { items, .. } => {
                        let k = line - anchor.line;
                        if k < items.len() && items[k].checked is Some {
                            items[k].source_line
                        } else {
                            None
                        }
                    },
                    _ => None,
                }
            }
        },
    }
}

/// The source line of the task checkbox on the rendered line at the scroll
/// position, over a document's blocks, their line starts and the number of
/// rendered lines.
pub fn task_source_line_at_scroll(
    blocks: &[Block],
    starts: &[BlockLineStart],
    line_count: usize,
    scroll: u16,
) -> (r: Option<usize>)
    ensures
        r == task_line_at_of(blocks.deep_view(), starts@, line_count, scroll),
{
    let line = scroll as usize;
    let mut k: usize = starts.len();
    while k > 0 && starts[k - 1].line > line
        invariant
            k <= starts@.len(),
            line == scroll as usize,
            last_anchor_at_or_above(starts@, line as int, starts@.len() as int)
                == last_anchor_at_or_above(starts@, line as int, k as int),
        decreases k,
    {
        k = k - 1;
    }
    if k == 0 {
        return None;
    }
    let a = k - 1;
    assert(last_anchor_at_or_above(starts@, line as int, starts@.len() as int) == Some(a as int));
    let anchor = starts[a];
    let next = if a + 1 < starts.len() {
        starts[a + 1].line
    } else {
        line_count
    };
    if line >= next || anchor.block_index >= blocks.len() {
        return None;
    }
    let ghost bv = blocks.deep_view();
    assert(bv[anchor.block_index as int] == blocks@[anchor.block_index as int].deep_view());
    match &blocks[anchor.block_index] {
        Block::List { items, .. } => {
            let k = line - anchor.line;
            if k < items.len() {
                assert(items.deep_view()[k as int] == items@[k as int].deep_view());
                if items[k].checked.is_some() {
                    items[k].source_line
                } else {
                    None
                }
            } else {
                None
            }
        },
        _ => None,
    }
}

} // verus!
