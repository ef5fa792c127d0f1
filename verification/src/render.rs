use vstd::prelude::*;

use crate::document::Document;
use crate::export::column_alignment;
use crate::parser::elements::inline::{markdown_text, markdown_text_of, plain_text, plain_text_of};
use crate::parser::{
    Block, BlockView, HeadingLevel, InlineSpan, ItemView, ListItem, SpanView, TableAlignment,
    TocItem, TocView,
};
use crate::text::{chars_of, decimal, decimal_chars, ends_with, lines, lines_chars, push_chars, push_str, string_of};

verus! {

/// A document rendered as plain Markdown-like text for the terminal, with
/// the line on which each block starts.
#[derive(Debug, Clone, PartialEq, Eq)]
pub struct RenderedDocument {
    pub lines: Vec<String>,
    pub block_line_starts: Vec<BlockLineStart>,
}

/// The first rendered line of a block.
#[derive(Debug, Clone, Copy, PartialEq, Eq, Structural)]
pub struct BlockLineStart {
    pub block_index: usize,
    pub line: usize,
}

/// `n` copies of `c`.
pub open spec fn repeated(c: char, n: nat) -> Seq<char> {
    Seq::new(n, |_i: int| c)
}

pub(crate) fn push_repeated(out: &mut String, c: char, n: usize)
    ensures
        final(out)@ == old(out)@ + repeated(c, n as nat),
{
    let mut i: usize = 0;
    while i < n
        invariant
            i <= n,
            out@ == old(out)@ + repeated(c, i as nat),
        decreases n - i,
    {
        out.push(c);
        assert(out@ =~= old(out)@ + repeated(c, (i + 1) as nat));
        i = i + 1;
    }
}

/// Text followed by a newline unless it already ends with one.
pub open spec fn with_final_newline(s: Seq<char>) -> Seq<char> {
    if s.len() > 0 && s.last() == '\n' {
        s
    } else {
        s.push('\n')
    }
}

/// A fenced block: the fence with its info, the body, the closing fence.
pub open spec fn fenced_text(fence: Seq<char>, info: Seq<char>, body: Seq<char>) -> Seq<char> {
    fence + info + seq!['\n'] + with_final_newline(body) + fence + seq!['\n']
}

/// The marker of list item `index`: a number for an ordered list, a dash
/// otherwise, and a checkbox for a task.
pub open spec fn list_marker(ordered: bool, checked: Option<bool>, index: nat) -> Seq<char> {
    let number = decimal(index + 1) + seq!['.'];
    match (ordered, checked) {
        (true, Some(true)) => number + " [x]"@,
        (true, Some(false)) => number + " [ ]"@,
        (false, Some(true)) => "- [x]"@,
        (false, Some(false)) => "- [ ]"@,
        (true, None) => number,
        (false, None) => seq!['-'],
    }
}

/// The list items, each on its own line.
pub open spec fn items_text(ordered: bool, items: Seq<ItemView>) -> Seq<char>
    decreases items.len(),
{
    if items.len() == 0 {
        Seq::empty()
    } else {
        items_text(ordered, items.drop_last()) + list_marker(ordered, items.last().checked, (items.len() - 1) as nat)
            + seq![' '] + markdown_text_of(items.last().content) + seq!['\n']
    }
}

/// The width of a cell's plain text, or nothing for a missing cell.
pub open spec fn cell_width(row: Seq<Seq<SpanView>>, c: int) -> nat {
    if 0 <= c < row.len() {
        plain_text_of(row[c]).len()
    } else {
        0
    }
}

/// The widest of a column's cells over the body rows.
pub open spec fn rows_width(rows: Seq<Seq<Seq<SpanView>>>, c: int) -> nat
    decreases rows.len(),
{
    if rows.len() == 0 {
        0
    } else {
        let rest = rows_width(rows.drop_last(), c);
        let w = cell_width(rows.last(), c);
        if w > rest {
            w
        } else {
            rest
        }
    }
}

/// The width of column `c`: its widest cell, and at least three.
pub open spec fn column_width(header: Seq<Seq<SpanView>>, rows: Seq<Seq<Seq<SpanView>>>, c: int) -> nat {
    let h = cell_width(header, c);
    let r = rows_width(rows, c);
    let m = if h > r {
        h
    } else {
        r
    };
    if m > 3 {
        m
    } else {
        3
    }
}

/// The number of columns: the longest row, header included.
pub open spec fn column_count(header: Seq<Seq<SpanView>>, rows: Seq<Seq<Seq<SpanView>>>) -> nat
    decreases rows.len(),
{
    if rows.len() == 0 {
        header.len()
    } else {
        let rest = column_count(header, rows.drop_last());
        if rows.last().len() > rest {
            rows.last().len()
        } else {
            rest
        }
    }
}

/// A cell's text padded to its column's width, by its plain text's length.
pub open spec fn aligned_cell(display: Seq<char>, plain_len: nat, width: nat, a: TableAlignment) -> Seq<char> {
    let padding: nat = if width > plain_len {
        (width - plain_len) as nat
    } else {
        0
    };
    match a {
        TableAlignment::Right => repeated(' ', padding) + display,
        TableAlignment::Center => repeated(' ', padding / 2) + display + repeated(' ', (padding - padding / 2) as nat),
        _ => display + repeated(' ', padding),
    }
}

/// The first `k` cells of a row, each padded and framed.
pub open spec fn row_cells_text(
    cells: Seq<Seq<SpanView>>,
    header: Seq<Seq<SpanView>>,
    rows: Seq<Seq<Seq<SpanView>>>,
    alignments: Seq<TableAlignment>,
    k: int,
) -> Seq<char>
    decreases k,
{
    if k <= 0 {
        Seq::empty()
    } else {
        let c = k - 1;
        let display = if c < cells.len() {
            markdown_text_of(cells[c])
        } else {
            Seq::empty()
        };
        row_cells_text(cells, header, rows, alignments, k - 1) + seq![' '] + aligned_cell(
            display,
            cell_width(cells, c),
            column_width(header, rows, c),
            column_alignment(alignments, c),
        ) + seq![' ', '|']
    }
}

/// One table row as a line.
pub open spec fn row_text(
    cells: Seq<Seq<SpanView>>,
    header: Seq<Seq<SpanView>>,
    rows: Seq<Seq<Seq<SpanView>>>,
    alignments: Seq<TableAlignment>,
) -> Seq<char> {
    seq!['|'] + row_cells_text(cells, header, rows, alignments, column_count(header, rows) as int) + seq!['\n']
}

/// The rule under a column's header, marked with its alignment.
pub open spec fn rule_text(width: nat, a: TableAlignment) -> Seq<char> {
    match a {
        TableAlignment::Left => seq![':'] + repeated('-', (width - 1) as nat),
        TableAlignment::Center => seq![':'] + repeated('-', (width - 2) as nat) + seq![':'],
        TableAlignment::Right => repeated('-', (width - 1) as nat) + seq![':'],
        TableAlignment::Unaligned => repeated('-', width),
    }
}

/// The first `k` column rules.
pub open spec fn rules_text(header: Seq<Seq<SpanView>>, rows: Seq<Seq<Seq<SpanView>>>, alignments: Seq<TableAlignment>, k: int) -> Seq<char>
    decreases k,
{
    if k <= 0 {
        Seq::empty()
    } else {
        rules_text(header, rows, alignments, k - 1) + seq![' '] + rule_text(
            column_width(header, rows, k - 1),
            column_alignment(alignments, k - 1),
        ) + seq![' ', '|']
    }
}

/// The body rows, each on its own line.
pub open spec fn body_rows_text(
    body: Seq<Seq<Seq<SpanView>>>,
    header: Seq<Seq<SpanView>>,
    rows: Seq<Seq<Seq<SpanView>>>,
    alignments: Seq<TableAlignment>,
) -> Seq<char>
    decreases body.len(),
{
    if body.len() == 0 {
        Seq::empty()
    } else {
        body_rows_text(body.drop_last(), header, rows, alignments) + row_text(body.last(), header, rows, alignments)
    }
}

/// A table as aligned text: the header and its rule when there is a
/// header, then the body rows.
pub open spec fn table_text(
    alignments: Seq<TableAlignment>,
    header: Seq<Seq<SpanView>>,
    rows: Seq<Seq<Seq<SpanView>>>,
) -> Seq<char> {
    (if header.len() > 0 {
        row_text(header, header, rows, alignments) + seq!['|'] + rules_text(
            header,
            rows,
            alignments,
            column_count(header, rows) as int,
        ) + seq!['\n']
    } else {
        Seq::empty()
    }) + body_rows_text(rows, header, rows, alignments)
}

/// A block as the lines it renders to, each ending in a newline.
pub open spec fn block_text(block: BlockView) -> Seq<char> {
    match block {
        BlockView::Heading { level, spans } => repeated('#', level.depth() as nat) + seq![' '] + markdown_text_of(spans)
            + seq!['\n'],
        BlockView::Paragraph(spans) => markdown_text_of(spans) + seq!['\n'],
        BlockView::BlockQuote(spans) => seq!['>', ' '] + markdown_text_of(spans) + seq!['\n'],
        BlockView::CodeBlock { language, code } => fenced_text(
            seq!['`', '`', '`'],
            match language {
                Some(l) => l,
                None => Seq::empty(),
            },
            code,
        ),
        BlockView::Diagram { language, source } => fenced_text(seq!['`', '`', '`'], language, source),
        BlockView::Image { alt, url, title } => seq!['!', '['] + alt + seq![']', '('] + url + (if title.len() > 0 {
            seq![' ', '"'] + title + seq!['"']
        } else {
            Seq::empty()
        }) + seq![')', '\n'],
        BlockView::List { ordered, items } => items_text(ordered, items),
        BlockView::Math { source, .. } => fenced_text(seq!['$', '$'], Seq::empty(), source),
        BlockView::Table { alignments, header, rows } => table_text(alignments, header, rows),
        BlockView::Rule => seq!['-', '-', '-', '\n'],
    }
}

/// The text of the first blocks, each followed by a blank line.
pub open spec fn blocks_text(blocks: Seq<BlockView>) -> Seq<char>
    decreases blocks.len(),
{
    if blocks.len() == 0 {
        Seq::empty()
    } else {
        blocks_text(blocks.drop_last()) + block_text(blocks.last()) + seq!['\n']
    }
}

/// The line each block starts on: the number of lines before it.
pub open spec fn block_starts(blocks: Seq<BlockView>) -> Seq<(usize, usize)> {
    Seq::new(blocks.len(), |i: int| (i as usize, lines(blocks_text(blocks.take(i))).len() as usize))
}

fn push_markdown(out: &mut String, spans: &[InlineSpan])
    ensures
        final(out)@ == old(out)@ + markdown_text_of(spans.deep_view()),
{
    let t = markdown_text(spans);
    push_str(out, t.as_str());
}

fn push_fenced(out: &mut String, fence: &str, info: &str, body: &str)
    ensures
        final(out)@ == old(out)@ + fenced_text(fence@, info@, body@),
{
    push_str(out, fence);
    push_str(out, info);
    out.push('\n');
    let ghost before_body = out@;
    push_str(out, body);
    let cs = chars_of(body);
    if !(cs.len() > 0 && cs[cs.len() - 1] == '\n') {
        out.push('\n');
    }
    assert(out@ =~= before_body + with_final_newline(body@));
    push_str(out, fence);
    out.push('\n');
    assert(out@ =~= old(out)@ + fenced_text(fence@, info@, body@));
}

pub(crate) fn push_list_marker(out: &mut String, ordered: bool, checked: Option<bool>, index: usize)
    requires
        index < usize::MAX,
    ensures
        final(out)@ == old(out)@ + list_marker(ordered, checked, index as nat),
{
    if ordered {
        let digits = decimal_chars((index + 1) as u64);
        push_chars(out, digits.as_slice());
        out.push('.');
        match checked {
            Some(true) => push_str(out, " [x]"),
            Some(false) => push_str(out, " [ ]"),
            None => {},
        }
    } else {
        match checked {
            Some(true) => push_str(out, "- [x]"),
            Some(false) => push_str(out, "- [ ]"),
            None => out.push('-'),
        }
    }
    assert(out@ =~= old(out)@ + list_marker(ordered, checked, index as nat));
}

fn push_items(out: &mut String, ordered: bool, items: &[ListItem])
    ensures
        final(out)@ == old(out)@ + items_text(ordered, items.deep_view()),
{
    let ghost iv = items.deep_view();
    let mut i: usize = 0;
    assert(iv.take(0) =~= Seq::<ItemView>::empty());
    while i < items.len()
        invariant
            i <= items@.len(),
            iv == items.deep_view(),
            out@ == old(out)@ + items_text(ordered, iv.take(i as int)),
        decreases items@.len() - i,
    {
        assert(iv.take(i + 1).drop_last() =~= iv.take(i as int));
        assert(iv.take(i + 1).last() == items[i as int].deep_view());
        let ghost before = out@;
        push_list_marker(out, ordered, items[i].checked, i);
        out.push(' ');
        push_markdown(out, items[i].content.as_slice());
        out.push('\n');
        assert(out@ =~= old(out)@ + items_text(ordered, iv.take(i + 1)));
        i = i + 1;
    }
    assert(iv.take(items@.len() as int) =~= iv);
}

fn plain_width(cell: &[InlineSpan]) -> (w: usize)
    ensures
        w == plain_text_of(cell.deep_view()).len(),
{
    let t = plain_text(cell);
    let cs = chars_of(t.as_str());
    cs.len()
}

fn row_width_at(row: &[Vec<InlineSpan>], c: usize) -> (w: usize)
    ensures
        w == cell_width(row.deep_view(), c as int),
{
    if c < row.len() {
        assert(row.deep_view()[c as int] == row[c as int].deep_view());
        plain_width(row[c].as_slice())
    } else {
        0
    }
}

/// The column widths of a table.
fn table_widths(header: &[Vec<InlineSpan>], rows: &[Vec<Vec<InlineSpan>>]) -> (widths: Vec<usize>)
    ensures
        widths@.len() == column_count(header.deep_view(), rows.deep_view()),
        forall|c: int| 0 <= c < widths@.len() ==> #[trigger] widths@[c] == column_width(header.deep_view(), rows.deep_view(), c),
{
    let ghost hv = header.deep_view();
    let ghost rv = rows.deep_view();
    let mut count = header.len();
    let mut r: usize = 0;
    assert(rv.take(0) =~= Seq::<Seq<Seq<SpanView>>>::empty());
    while r < rows.len()
        invariant
            r <= rows@.len(),
            rv == rows.deep_view(),
            hv == header.deep_view(),
            count == column_count(hv, rv.take(r as int)),
        decreases rows@.len() - r,
    {
        assert(rv.take(r + 1).drop_last() =~= rv.take(r as int));
        assert(rv.take(r + 1).last() == rows[r as int].deep_view());
        if rows[r].len() > count {
            count = rows[r].len();
        }
        r = r + 1;
    }
    assert(rv.take(rows@.len() as int) =~= rv);
    let mut widths: Vec<usize> = Vec::new();
    let mut c: usize = 0;
    while c < count
        invariant
            c <= count,
            count == column_count(hv, rv),
            rv == rows.deep_view(),
            hv == header.deep_view(),
            widths@.len() == c,
            forall|k: int| 0 <= k < c ==> #[trigger] widths@[k] == column_width(hv, rv, k),
        decreases count - c,
    {
        let h = row_width_at(header, c);
        let mut best: usize = 0;
        let mut k: usize = 0;
        assert(rv.take(0) =~= Seq::<Seq<Seq<SpanView>>>::empty());
        while k < rows.len()
            invariant
                k <= rows@.len(),
                rv == rows.deep_view(),
                best == rows_width(rv.take(k as int), c as int),
            decreases rows@.len() - k,
        {
            assert(rv.take(k + 1).drop_last() =~= rv.take(k as int));
            assert(rv.take(k + 1).last() == rows[k as int].deep_view());
            let w = row_width_at(rows[k].as_slice(), c);
            if w > best {
                best = w;
            }
            k = k + 1;
        }
        assert(rv.take(rows@.len() as int) =~= rv);
        let m = if h > best {
            h
        } else {
            best
        };
        let width = if m > 3 {
            m
        } else {
            3
        };
        widths.push(width);
        c = c + 1;
    }
    widths
}

fn push_aligned_cell(out: &mut String, display: &str, plain_len: usize, width: usize, a: TableAlignment)
    ensures
        final(out)@ == old(out)@ + aligned_cell(display@, plain_len as nat, width as nat, a),
{
    let padding: usize = if width > plain_len {
        width - plain_len
    } else {
        0
    };
    match a {
        TableAlignment::Right => {
            push_repeated(out, ' ', padding);
            push_str(out, display);
        },
        TableAlignment::Center => {
            push_repeated(out, ' ', padding / 2);
            push_str(out, display);
            push_repeated(out, ' ', padding - padding / 2);
        },
        _ => {
            push_str(out, display);
            push_repeated(out, ' ', padding);
        },
    }
    assert(out@ =~= old(out)@ + aligned_cell(display@, plain_len as nat, width as nat, a));
}

fn push_row(
    out: &mut String,
    cells: &[Vec<InlineSpan>],
    widths: &Vec<usize>,
    alignments: &[TableAlignment],
    header: Ghost<Seq<Seq<SpanView>>>,
    rows: Ghost<Seq<Seq<Seq<SpanView>>>>,
)
    requires
        widths@.len() == column_count(header@, rows@),
        forall|c: int| 0 <= c < widths@.len() ==> #[trigger] widths@[c] == column_width(header@, rows@, c),
    ensures
        final(out)@ == old(out)@ + row_text(cells.deep_view(), header@, rows@, alignments@),
{
    let ghost cv = cells.deep_view();
    out.push('|');
    let ghost start = out@;
    let mut k: usize = 0;
    while k < widths.len()
        invariant
            k <= widths@.len(),
            widths@.len() == column_count(header@, rows@),
            forall|c: int| 0 <= c < widths@.len() ==> #[trigger] widths@[c] == column_width(header@, rows@, c),
            cv == cells.deep_view(),
            out@ == start + row_cells_text(cv, header@, rows@, alignments@, k as int),
        decreases widths@.len() - k,
    {
        let ghost before = out@;
        out.push(' ');
        let a = if k < alignments.len() {
            alignments[k]
        } else {
            TableAlignment::Unaligned
        };
        if k < cells.len() {
            assert(cv[k as int] == cells[k as int].deep_view());
            let md = markdown_text(cells[k].as_slice());
            let w = plain_width(cells[k].as_slice());
            push_aligned_cell(out, md.as_str(), w, widths[k], a);
        } else {
            push_aligned_cell(out, "", 0, widths[k], a);
            assert(""@ =~= Seq::<char>::empty()) by {
                reveal_strlit("");
            }
        }
        push_str(out, " |");
        proof {
            reveal_strlit(" |");
        }
        assert(out@ =~= start + row_cells_text(cv, header@, rows@, alignments@, k + 1));
        k = k + 1;
    }
    out.push('\n');
    assert(out@ =~= old(out)@ + row_text(cv, header@, rows@, alignments@));
}

fn push_rules(
    out: &mut String,
    widths: &Vec<usize>,
    alignments: &[TableAlignment],
    header: Ghost<Seq<Seq<SpanView>>>,
    rows: Ghost<Seq<Seq<Seq<SpanView>>>>,
)
    requires
        widths@.len() == column_count(header@, rows@),
        forall|c: int| 0 <= c < widths@.len() ==> #[trigger] widths@[c] == column_width(header@, rows@, c),
    ensures
        final(out)@ == old(out)@ + seq!['|'] + rules_text(header@, rows@, alignments@, widths@.len() as int) + seq!['\n'],
{
    out.push('|');
    let ghost start = out@;
    let mut k: usize = 0;
    while k < widths.len()
        invariant
            k <= widths@.len(),
            widths@.len() == column_count(header@, rows@),
            forall|c: int| 0 <= c < widths@.len() ==> #[trigger] widths@[c] == column_width(header@, rows@, c),
            out@ == start + rules_text(header@, rows@, alignments@, k as int),
        decreases widths@.len() - k,
    {
        out.push(' ');
        let a = if k < alignments.len() {
            alignments[k]
        } else {
            TableAlignment::Unaligned
        };
        let w = widths[k];
        assert(w >= 3);
        let ghost before_rule = out@;
        match a {
            TableAlignment::Left => {
                out.push(':');
                push_repeated(out, '-', w - 1);
            },
            TableAlignment::Center => {
                out.push(':');
                push_repeated(out, '-', w - 2);
                out.push(':');
            },
            TableAlignment::Right => {
                push_repeated(out, '-', w - 1);
                out.push(':');
            },
            TableAlignment::Unaligned => {
                push_repeated(out, '-', w);
            },
        }
        assert(out@ =~= before_rule + rule_text(w as nat, a));
        out.push(' ');
        out.push('|');
        assert(out@ =~= start + rules_text(header@, rows@, alignments@, k + 1));
        k = k + 1;
    }
    out.push('\n');
}

fn push_table(out: &mut String, alignments: &[TableAlignment], header: &[Vec<InlineSpan>], rows: &[Vec<Vec<InlineSpan>>])
    ensures
        final(out)@ == old(out)@ + table_text(alignments@, header.deep_view(), rows.deep_view()),
{
    let widths = table_widths(header, rows);
    let ghost hv = header.deep_view();
    let ghost rv = rows.deep_view();
    if header.len() > 0 {
        push_row(out, header, &widths, alignments, Ghost(hv), Ghost(rv));
        push_rules(out, &widths, alignments, Ghost(hv), Ghost(rv));
    }
    let ghost after_header = out@;
    assert(after_header =~= old(out)@ + (if hv.len() > 0 {
        row_text(hv, hv, rv, alignments@) + seq!['|'] + rules_text(hv, rv, alignments@, column_count(hv, rv) as int)
            + seq!['\n']
    } else {
        Seq::empty()
    }));
    let mut r: usize = 0;
    assert(rv.take(0) =~= Seq::<Seq<Seq<SpanView>>>::empty());
    while r < rows.len()
        invariant
            r <= rows@.len(),
            rv == rows.deep_view(),
            hv == header.deep_view(),
            widths@.len() == column_count(hv, rv),
            forall|c: int| 0 <= c < widths@.len() ==> #[trigger] widths@[c] == column_width(hv, rv, c),
            out@ == after_header + body_rows_text(rv.take(r as int), hv, rv, alignments@),
        decreases rows@.len() - r,
    {
        assert(rv.take(r + 1).drop_last() =~= rv.take(r as int));
        assert(rv.take(r + 1).last() == rows[r as int].deep_view());
        push_row(out, rows[r].as_slice(), &widths, alignments, Ghost(hv), Ghost(rv));
        assert(out@ =~= after_header + body_rows_text(rv.take(r + 1), hv, rv, alignments@));
        r = r + 1;
    }
    assert(rv.take(rows@.len() as int) =~= rv);
    assert(out@ =~= old(out)@ + table_text(alignments@, hv, rv));
}

fn push_image_text(out: &mut String, alt: &str, url: &str, title: &str)
    ensures
        final(out)@ == old(out)@ + (seq!['!', '['] + alt@ + seq![']', '('] + url@ + (if title@.len() > 0 {
            seq![' ', '"'] + title@ + seq!['"']
        } else {
            Seq::empty()
        }) + seq![')', '\n']),
{
    out.push('!');
    out.push('[');
    push_str(out, alt);
    out.push(']');
    out.push('(');
    push_str(out, url);
    let ghost mid = out@;
    if !title.is_empty() {
        out.push(' ');
        out.push('"');
        push_str(out, title);
        out.push('"');
    }
    assert(out@ =~= mid + (if title@.len() > 0 {
        seq![' ', '"'] + title@ + seq!['"']
    } else {
        Seq::empty()
    }));
    out.push(')');
    out.push('\n');
}

fn push_block_text(out: &mut String, block: &Block)
    ensures
        final(out)@ == old(out)@ + block_text(block.deep_view()),
{
    match block {
        Block::Heading { level, spans } => {
            push_repeated(out, '#', level.as_depth() as usize);
            out.push(' ');
            push_markdown(out, spans.as_slice());
            out.push('\n');
        },
        Block::Paragraph(spans) => {
            push_markdown(out, spans.as_slice());
            out.push('\n');
        },
        Block::BlockQuote(spans) => {
            out.push('>');
            out.push(' ');
            push_markdown(out, spans.as_slice());
            out.push('\n');
        },
        Block::CodeBlock { language, code } => {
            let info = match language {
                Some(l) => l.as_str(),
                None => "",
            };
            proof {
                reveal_strlit("");
                reveal_strlit("```");
            }
            push_fenced(out, "```", info, code.as_str());
        },
        Block::Diagram { language, source } => {
            proof {
                reveal_strlit("```");
            }
            push_fenced(out, "```", language.as_str(), source.as_str());
        },
        Block::Image { alt, url, title } => push_image_text(out, alt.as_str(), url.as_str(), title.as_str()),
        Block::List { ordered, items } => push_items(out, *ordered, items.as_slice()),
        Block::Math { source, .. } => {
            proof {
                reveal_strlit("");
                reveal_strlit("$$");
            }
            push_fenced(out, "$$", "", source.as_str());
        },
        Block::Table { alignments, header, rows } => push_table(out, alignments.as_slice(), header.as_slice(), rows.as_slice()),
        Block::Rule => {
            out.push('-');
            out.push('-');
            out.push('-');
            out.push('\n');
        },
    }
    assert(out@ =~= old(out)@ + block_text(block.deep_view()));
}

/// The number of lines of `s`.
fn line_count(s: &String) -> (n: usize)
    ensures
        n == lines(s@).len(),
{
    let cs = chars_of(s.as_str());
    let ls = lines_chars(cs.as_slice());
    ls.len()
}

/// The number of rendered lines of the first `k` blocks.
pub open spec fn lines_before(blocks: Seq<BlockView>, k: int) -> nat {
    lines(blocks_text(blocks.take(k))).len()
}

proof fn lemma_lines_before_step(blocks: Seq<BlockView>, k: int)
    requires
        0 <= k < blocks.len(),
    ensures
        lines_before(blocks, k) < lines_before(blocks, k + 1),
{
    let before = blocks_text(blocks.take(k));
    assert(blocks.take(k + 1).drop_last() =~= blocks.take(k));
    assert(blocks.take(k + 1).last() == blocks[k]);
    let piece = block_text(blocks[k]) + seq!['\n'];
    assert(blocks_text(blocks.take(k + 1)) =~= before + piece);
    if k > 0 {
        assert(blocks.take(k).drop_last() =~= blocks.take(k - 1));
    } else {
        assert(blocks.take(0) =~= Seq::<BlockView>::empty());
    }
    assert(before.len() == 0 || before.last() == '\n');
    crate::text::lemma_split_inclusive_concat(before, piece);
    crate::text::lemma_split_inclusive_nonempty(piece);
}

/// The lines on which the blocks of a rendered document start: the first
/// block on the first line, each later block further down, and every block
/// within the document's lines.
pub proof fn lemma_block_line_starts_increase(blocks: Seq<BlockView>)
    ensures
        blocks.len() > 0 ==> lines_before(blocks, 0) == 0,
        forall|a: int, b: int| 0 <= a < b <= blocks.len() ==> lines_before(blocks, a) < lines_before(blocks, b),
        forall|a: int| 0 <= a < blocks.len() ==> lines_before(blocks, a) < lines(blocks_text(blocks)).len(),
    decreases blocks.len(),
{
    assert(blocks.take(0) =~= Seq::<BlockView>::empty());
    assert(blocks.take(blocks.len() as int) =~= blocks);
    assert forall|a: int, b: int| 0 <= a < b <= blocks.len() implies lines_before(blocks, a) < lines_before(blocks, b) by {
        lemma_lines_before_chain(blocks, a, b);
    }
    assert forall|a: int| 0 <= a < blocks.len() implies lines_before(blocks, a) < lines(blocks_text(blocks)).len() by {
        lemma_lines_before_chain(blocks, a, blocks.len() as int);
    }
}

proof fn lemma_lines_before_chain(blocks: Seq<BlockView>, a: int, b: int)
    requires
        0 <= a < b <= blocks.len(),
    ensures
        lines_before(blocks, a) < lines_before(blocks, b),
    decreases b - a,
{
    lemma_lines_before_step(blocks, a);
    if a + 1 < b {
        lemma_lines_before_chain(blocks, a + 1, b);
    }
}

/// The document as terminal text, line by line, with the line on which each
/// block starts.
pub fn render_document_with_anchors(document: &Document) -> (r: RenderedDocument)
    ensures
        r.lines.deep_view() == lines(blocks_text(document.parsed_view())),
        r.block_line_starts@.len() == document.parsed_view().len(),
        forall|i: int| 0 <= i < r.block_line_starts@.len() ==> (#[trigger] r.block_line_starts@[i]).block_index == i
            && r.block_line_starts@[i].line == lines(blocks_text(document.parsed_view().take(i))).len(),
        r.block_line_starts@.len() > 0 ==> r.block_line_starts@[0].line == 0,
        forall|a: int, b: int|
            0 <= a < b < r.block_line_starts@.len() ==> r.block_line_starts@[a].line < r.block_line_starts@[b].line,
        forall|a: int| 0 <= a < r.block_line_starts@.len() ==> r.block_line_starts@[a].line < r.lines@.len(),
{
    let parsed = document.parsed();
    let ghost bv = parsed.deep_view();
    let mut out = String::new();
    let mut starts: Vec<BlockLineStart> = Vec::new();
    let mut i: usize = 0;
    assert(bv.take(0) =~= Seq::<BlockView>::empty());
    while i < parsed.blocks.len()
        invariant
            i <= parsed.blocks@.len(),
            bv == parsed.deep_view(),
            out@ == blocks_text(bv.take(i as int)),
            starts@.len() == i,
            forall|k: int| 0 <= k < i ==> (#[trigger] starts@[k]).block_index == k && starts@[k].line
                == lines(blocks_text(bv.take(k))).len(),
        decreases parsed.blocks@.len() - i,
    {
        let n = line_count(&out);
        starts.push(BlockLineStart { block_index: i, line: n });
        assert(bv.take(i + 1).drop_last() =~= bv.take(i as int));
        assert(bv.take(i + 1).last() == parsed.blocks[i as int].deep_view());
        push_block_text(&mut out, &parsed.blocks[i]);
        out.push('\n');
        i = i + 1;
    }
    assert(bv.take(parsed.blocks@.len() as int) =~= bv);
    let cs = chars_of(out.as_str());
    let ls = lines_chars(cs.as_slice());
    let ghost lv = ls.deep_view();
    let mut result: Vec<String> = Vec::new();
    let mut k: usize = 0;
    while k < ls.len()
        invariant
            k <= ls@.len(),
            lv == ls.deep_view(),
            result.deep_view() =~= lv.take(k as int),
        decreases ls@.len() - k,
    {
        assert(lv[k as int] == ls[k as int]@);
        result.push(string_of(ls[k].as_slice()));
        assert(lv.take(k + 1) =~= lv.take(k as int).push(lv[k as int]));
        k = k + 1;
    }
    assert(lv.take(ls@.len() as int) =~= lv);
    proof {
        lemma_block_line_starts_increase(bv);
        assert(result.deep_view().len() == result@.len());
        assert forall|a: int, b: int| 0 <= a < b < starts@.len() implies starts@[a].line < starts@[b].line by {
            assert(starts@[a].line == lines_before(bv, a));
            assert(starts@[b].line == lines_before(bv, b));
        }
        assert forall|a: int| 0 <= a < starts@.len() implies starts@[a].line < result@.len() by {
            assert(starts@[a].line == lines_before(bv, a));
        }
    }
    RenderedDocument { lines: result, block_line_starts: starts }
}

/// The document as terminal text, line by line.
pub fn render_document_lines(document: &Document) -> (r: Vec<String>)
    ensures
        r.deep_view() == lines(blocks_text(document.parsed_view())),
{
    render_document_with_anchors(document).lines
}

/// The table of contents as an outline: a heading, then one indented line
/// per entry, or a note when there are no headings.
pub open spec fn toc_lines_of(toc: Seq<TocView>) -> Seq<Seq<char>> {
    seq!["On this page"@, "------------"@] + if toc.len() == 0 {
        seq!["No headings"@]
    } else {
        toc.map_values(|t: TocView| repeated(' ', (2 * (t.level.depth() - 1)) as nat) + seq!['-', ' '] + t.title)
    }
}

/// The table of contents as text lines.
pub fn render_toc_lines(toc: &[TocItem]) -> (r: Vec<String>)
    ensures
        r.deep_view() == toc_lines_of(toc.deep_view()),
{
    let mut out: Vec<String> = Vec::new();
    out.push("On this page".to_owned());
    out.push("------------".to_owned());
    if toc.len() == 0 {
        out.push("No headings".to_owned());
        assert(out.deep_view() =~= toc_lines_of(toc.deep_view()));
        return out;
    }
    let ghost tv = toc.deep_view();
    let mut i: usize = 0;
    while i < toc.len()
        invariant
            i <= toc@.len(),
            tv == toc.deep_view(),
            tv.len() > 0,
            out.deep_view() =~= seq!["On this page"@, "------------"@] + tv.take(i as int).map_values(
                |t: TocView| repeated(' ', (2 * (t.level.depth() - 1)) as nat) + seq!['-', ' '] + t.title,
            ),
        decreases toc@.len() - i,
    {
        let item = &toc[i];
        let mut line = String::new();
        let depth = item.level.as_depth();
        push_repeated(&mut line, ' ', 2 * (depth as usize - 1));
        line.push('-');
        line.push(' ');
        push_str(&mut line, item.title.as_str());
        let ghost before = out.deep_view();
        assert(tv[i as int] == item.deep_view());
        assert(line@ =~= repeated(' ', (2 * (tv[i as int].level.depth() - 1)) as nat) + seq!['-', ' '] + tv[i as int].title);
        out.push(line);
        assert(out.deep_view() =~= before.push(line@));
        assert(tv.take(i + 1) =~= tv.take(i as int).push(tv[i as int]));
        i = i + 1;
    }
    assert(tv.take(toc@.len() as int) =~= tv);
    out
}

/// How a contents entry is marked in the side pane: picked while the pane
/// has the focus, the heading the reader is in, both, or neither.
#[derive(Debug, Clone, Copy, PartialEq, Eq, Structural)]
pub enum TocMark {
    PickedActive,
    Picked,
    Active,
    Plain,
}

/// The mark of entry `index` of the contents.
pub open spec fn toc_mark_of(
    index: int,
    item: TocView,
    active_block: Option<usize>,
    selected: Option<usize>,
    focused: bool,
) -> TocMark {
    let picked = focused && selected == Some(index as usize);
    let active = active_block == Some(item.block_index);
    if picked && active {
        TocMark::PickedActive
    } else if picked {
        TocMark::Picked
    } else if active {
        TocMark::Active
    } else {
        TocMark::Plain
    }
}

/// The character that shows a mark: `*`, `+`, `>` or `-`.
pub open spec fn toc_mark_char(mark: TocMark) -> char {
    match mark {
        TocMark::PickedActive => '*',
        TocMark::Picked => '+',
        TocMark::Active => '>',
        TocMark::Plain => '-',
    }
}

/// A contents entry in the side pane: indented by its level, its mark, and
/// its title.
pub open spec fn marked_toc_line_of(
    index: int,
    item: TocView,
    active_block: Option<usize>,
    selected: Option<usize>,
    focused: bool,
) -> Seq<char> {
    repeated(' ', (2 * (item.level.depth() - 1)) as nat) + seq![
        toc_mark_char(toc_mark_of(index, item, active_block, selected, focused)),
        ' ',
    ] + item.title
}

/// The contents in the side pane, each entry with its mark; `No headings`
/// alone, unmarked, without entries.
pub fn render_toc_marked_lines(
    toc: &[TocItem],
    active_block: Option<usize>,
    selected: Option<usize>,
    focused: bool,
) -> (r: Vec<(String, TocMark)>)
    ensures
        toc@.len() == 0 ==> r@.len() == 1 && r@[0].0@ == "No headings"@ && r@[0].1 == TocMark::Plain,
        toc@.len() > 0 ==> r@.len() == toc@.len(),
        toc@.len() > 0 ==> forall|i: int|
            0 <= i < r@.len() ==> (#[trigger] r@[i]).0@ == marked_toc_line_of(
                i,
                toc.deep_view()[i],
                active_block,
                selected,
                focused,
            ) && r@[i].1 == toc_mark_of(i, toc.deep_view()[i], active_block, selected, focused),
{
    let mut out: Vec<(String, TocMark)> = Vec::new();
    if toc.len() == 0 {
        let mut none = String::new();
        push_str(&mut none, "No headings");
        out.push((none, TocMark::Plain));
        return out;
    }
    let ghost tv = toc.deep_view();
    let mut i: usize = 0;
    while i < toc.len()
        invariant
            i <= toc@.len(),
            tv == toc.deep_view(),
            out@.len() == i,
            forall|j: int|
                0 <= j < i ==> (#[trigger] out@[j]).0@ == marked_toc_line_of(j, tv[j], active_block, selected, focused)
                    && out@[j].1 == toc_mark_of(j, tv[j], active_block, selected, focused),
        decreases toc@.len() - i,
    {
        let item = &toc[i];
        assert(tv[i as int] == item.deep_view());
        let picked = focused && selected == Some(i);
        let active = active_block == Some(item.block_index);
        let mark = if picked && active {
            TocMark::PickedActive
        } else if picked {
            TocMark::Picked
        } else if active {
            TocMark::Active
        } else {
            TocMark::Plain
        };
        let c = match mark {
            TocMark::PickedActive => '*',
            TocMark::Picked => '+',
            TocMark::Active => '>',
            TocMark::Plain => '-',
        };
        let mut line = String::new();
        let depth = item.level.as_depth();
        push_repeated(&mut line, ' ', 2 * (depth as usize - 1));
        line.push(c);
        line.push(' ');
        push_str(&mut line, item.title.as_str());
        assert(line@ =~= marked_toc_line_of(i as int, tv[i as int], active_block, selected, focused));
        out.push((line, mark));
        i = i + 1;
    }
    out
}

/// Lines joined with newlines.
pub open spec fn joined(ls: Seq<Seq<char>>) -> Seq<char>
    decreases ls.len(),
{
    if ls.len() == 0 {
        Seq::empty()
    } else if ls.len() == 1 {
        ls[0]
    } else {
        joined(ls.drop_last()) + seq!['\n'] + ls.last()
    }
}

pub(crate) fn push_joined(out: &mut String, ls: &Vec<String>)
    ensures
        final(out)@ == old(out)@ + joined(ls.deep_view()),
{
    let ghost lv = ls.deep_view();
    let mut i: usize = 0;
    assert(lv.take(0) =~= Seq::<Seq<char>>::empty());
    while i < ls.len()
        invariant
            i <= ls@.len(),
            lv == ls.deep_view(),
            out@ == old(out)@ + joined(lv.take(i as int)),
        decreases ls@.len() - i,
    {
        assert(lv.take(i + 1).drop_last() =~= lv.take(i as int));
        assert(lv[i as int] == ls[i as int]@);
        if i > 0 {
            out.push('\n');
        }
        push_str(out, ls[i].as_str());
        assert(out@ =~= old(out)@ + joined(lv.take(i + 1)));
        i = i + 1;
    }
    assert(lv.take(ls@.len() as int) =~= lv);
}

/// The whole terminal view of a document as one text: its lines, then its
/// table of contents.
pub fn render_document(document: &Document) -> (r: String)
    ensures
        r@ == joined(lines(blocks_text(document.parsed_view()))) + seq!['\n'] + joined(
            toc_lines_of(crate::parser::toc_of(document.parsed_view())),
        ) + seq!['\n'],
{
    let body = render_document_lines(document);
    let toc = render_toc_lines(document.parsed().toc().as_slice());
    let mut out = String::new();
    push_joined(&mut out, &body);
    out.push('\n');
    push_joined(&mut out, &toc);
    out.push('\n');
    out
}

} // verus!
