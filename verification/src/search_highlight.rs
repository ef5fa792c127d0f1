use vstd::prelude::*;

use crate::parser::elements::inline::{plain_text, plain_text_of};
use crate::parser::{Block, BlockView, InlineSpan, ItemView, ListItem, SpanView};
use crate::search::{str_lowercase, to_lowercase};
use crate::stats::{char_alphanumeric, is_alphanumeric};
use crate::text::{
    chars_of, collapse_whitespace, collapse_ws, find, find_chars, find_chars_from, find_from, lemma_find_from,
    push_str, slice_chars, string_of, trim, trim_chars,
};

verus! {

/// How a stretch of rendered text is marked for a search.
#[derive(Debug, Clone, Copy, PartialEq, Eq, Structural)]
pub enum SearchHighlight {
    Plain,
    Match,
    Active,
}

/// A stretch of rendered text and its mark.
#[derive(Debug, Clone, PartialEq, Eq)]
pub struct HighlightSegment {
    pub text: String,
    pub highlight: SearchHighlight,
}

impl DeepView for HighlightSegment {
    type V = (Seq<char>, SearchHighlight);

    open spec fn deep_view(&self) -> (Seq<char>, SearchHighlight) {
        (self.text@, self.highlight)
    }
}

/// The search a block is drawn with: the query, and whether the block holds
/// the selected match.
#[derive(Debug, Clone, PartialEq, Eq)]
pub struct RenderSearch {
    pub query: String,
    pub active: bool,
}

/// The characters of `text` from `a` to `b`, cut at its end.
pub open spec fn clip(text: Seq<char>, a: nat, b: nat) -> Seq<char> {
    let lo = if a < text.len() {
        a
    } else {
        text.len()
    };
    let hi = if b < text.len() {
        b
    } else {
        text.len()
    };
    if lo <= hi {
        text.subrange(lo as int, hi as int)
    } else {
        Seq::empty()
    }
}

/// The unmarked rest of `text` from `cursor`, if any is left.
pub open spec fn rest_segment(text: Seq<char>, cursor: nat) -> Seq<(Seq<char>, SearchHighlight)> {
    if cursor < text.len() {
        seq![(text.skip(cursor as int), SearchHighlight::Plain)]
    } else {
        Seq::empty()
    }
}

/// The segments of `text` from `cursor` on: each occurrence of `needle` in
/// the lowercased text `lower`, marked, with the unmarked text between.
pub open spec fn segments_from(
    lower: Seq<char>,
    needle: Seq<char>,
    text: Seq<char>,
    cursor: nat,
    h: SearchHighlight,
) -> Seq<(Seq<char>, SearchHighlight)>
    decreases lower.len() + 1 - cursor,
{
    if needle.len() == 0 || cursor > lower.len() {
        rest_segment(text, cursor)
    } else {
        match find_from(lower, needle, cursor) {
            None => rest_segment(text, cursor),
            Some(start) => {
                proof {
                    lemma_find_from(lower, needle, cursor);
                }
                (if start > cursor {
                    seq![(clip(text, cursor, start), SearchHighlight::Plain)]
                } else {
                    Seq::empty()
                }) + seq![(clip(text, start, start + needle.len()), h)] + segments_from(
                    lower,
                    needle,
                    text,
                    start + needle.len(),
                    h,
                )
            },
        }
    }
}

/// The segments of a text drawn with a search: the whole text unmarked
/// without one; else every occurrence of the query, ignoring case, marked as
/// a match or as the active match. Positions are those of the lowercased
/// text.
pub open spec fn highlight_segments_of(text: Seq<char>, search: Option<(Seq<char>, bool)>) -> Seq<
    (Seq<char>, SearchHighlight),
> {
    match search {
        None => seq![(text, SearchHighlight::Plain)],
        Some((query, active)) => {
            let h = if active {
                SearchHighlight::Active
            } else {
                SearchHighlight::Match
            };
            let segments = segments_from(str_lowercase(text), str_lowercase(query), text, 0, h);
            if segments.len() == 0 {
                seq![(text, SearchHighlight::Plain)]
            } else {
                segments
            }
        },
    }
}

fn clip_exec(text: &[char], a: usize, b: usize) -> (r: String)
    ensures
        r@ == clip(text@, a as nat, b as nat),
{
    let n = text.len();
    let lo = if a < n {
        a
    } else {
        n
    };
    let hi = if b < n {
        b
    } else {
        n
    };
    if lo <= hi {
        string_of(slice_chars(text, lo, hi).as_slice())
    } else {
        String::new()
    }
}

/// The segments of a text drawn with a search; see `highlight_segments_of`.
pub fn highlight_segments(text: &str, search: Option<&RenderSearch>) -> (r: Vec<HighlightSegment>)
    ensures
        r.deep_view() == highlight_segments_of(
            text@,
            match search {
                Some(s) => Some((s.query@, s.active)),
                None => None,
            },
        ),
{
    let s = match search {
        None => {
            let mut out: Vec<HighlightSegment> = Vec::new();
            out.push(HighlightSegment { text: text.to_owned(), highlight: SearchHighlight::Plain });
            assert(out.deep_view() =~= seq![(text@, SearchHighlight::Plain)]);
            return out;
        },
        Some(s) => s,
    };
    let h = if s.active {
        SearchHighlight::Active
    } else {
        SearchHighlight::Match
    };
    let tc = chars_of(text);
    let lower_s = to_lowercase(text);
    let lower = chars_of(lower_s.as_str());
    let needle_s = to_lowercase(s.query.as_str());
    let needle = chars_of(needle_s.as_str());
    let ghost lv = lower@;
    let ghost nv = needle@;
    let ghost tv = tc@;
    let mut out: Vec<HighlightSegment> = Vec::new();
    let mut cursor: usize = 0;
    let n = lower.len();
    loop
        invariant
            lv == lower@,
            nv == needle@,
            tv == tc@,
            n == lower@.len(),
            cursor <= n || nv.len() == 0,
            out.deep_view() + segments_from(lv, nv, tv, cursor as nat, h) == segments_from(lv, nv, tv, 0, h),
        ensures
            out.deep_view() + segments_from(lv, nv, tv, cursor as nat, h) == segments_from(lv, nv, tv, 0, h),
            segments_from(lv, nv, tv, cursor as nat, h) == rest_segment(tv, cursor as nat),
        decreases lv.len() + 1 - cursor,
    {
        if needle.len() == 0 || cursor > n {
            break;
        }
        let start = match find_chars_from(lower.as_slice(), needle.as_slice(), cursor) {
            Some(start) => start,
            None => {
                break;
            },
        };
        proof {
            lemma_find_from(lv, nv, cursor as nat);
            assert(find_from(lv, nv, cursor as nat) == Some(start as nat));
        }
        let ghost before = out.deep_view();
        let end = start + needle.len();
        if start > cursor {
            out.push(HighlightSegment { text: clip_exec(tc.as_slice(), cursor, start), highlight: SearchHighlight::Plain });
        }
        out.push(HighlightSegment { text: clip_exec(tc.as_slice(), start, end), highlight: h });
        let ghost pre = if start > cursor {
            seq![(clip(tv, cursor as nat, start as nat), SearchHighlight::Plain)]
        } else {
            Seq::empty()
        };
        assert(out.deep_view() =~= before + pre + seq![(clip(tv, start as nat, end as nat), h)]);
        assert(segments_from(lv, nv, tv, cursor as nat, h) == pre + seq![(clip(tv, start as nat, end as nat), h)]
            + segments_from(lv, nv, tv, end as nat, h));
        cursor = end;
    }
    let ghost before = out.deep_view();
    assert(before + rest_segment(tv, cursor as nat) == segments_from(lv, nv, tv, 0, h));
    if cursor < tc.len() {
        let rest = slice_chars(tc.as_slice(), cursor, tc.len());
        assert(rest@ =~= tv.skip(cursor as int));
        out.push(HighlightSegment { text: string_of(rest.as_slice()), highlight: SearchHighlight::Plain });
    }
    assert(out.deep_view() =~= before + rest_segment(tv, cursor as nat));
    assert(out.deep_view() == segments_from(lv, nv, tv, 0, h));
    if out.len() == 0 {
        out.push(HighlightSegment { text: text.to_owned(), highlight: SearchHighlight::Plain });
        assert(out.deep_view() =~= seq![(text@, SearchHighlight::Plain)]);
    }
    out
}


/// A search query as the reader uses it: trimmed, and none when blank.
pub open spec fn normalized_query_of(query: Option<Seq<char>>) -> Option<Seq<char>> {
    match query {
        Some(q) => if trim(q).len() > 0 {
            Some(trim(q))
        } else {
            None
        },
        None => None,
    }
}

/// A search query as the reader uses it: trimmed, and none when blank.
pub fn normalized_search_query(query: Option<&str>) -> (r: Option<String>)
    ensures
        r.deep_view() == normalized_query_of(
            match query {
                Some(q) => Some(q@),
                None => None,
            },
        ),
{
    match query {
        Some(q) => {
            let cs = chars_of(q);
            let t = trim_chars(cs.as_slice());
            if t.len() > 0 {
                Some(string_of(t.as_slice()))
            } else {
                None
            }
        },
        None => None,
    }
}

/// Text reduced for matching: lowercased, every character that is not a
/// letter or digit made a space, and the words joined by single spaces.
pub open spec fn searchable_of(text: Seq<char>) -> Seq<char> {
    collapse_ws(
        str_lowercase(text).map_values(
            |c: char|
                if char_alphanumeric(c) {
                    c
                } else {
                    ' '
                },
        ),
    )
}

/// Text reduced for matching; see `searchable_of`.
pub fn searchable_text(text: &str) -> (r: String)
    ensures
        r@ == searchable_of(text@),
{
    let lower = to_lowercase(text);
    let cs = chars_of(lower.as_str());
    let mut mapped: Vec<char> = Vec::new();
    let mut i: usize = 0;
    while i < cs.len()
        invariant
            i <= cs@.len(),
            cs@ == str_lowercase(text@),
            mapped@ == cs@.take(i as int).map_values(
                |c: char|
                    if char_alphanumeric(c) {
                        c
                    } else {
                        ' '
                    },
            ),
        decreases cs@.len() - i,
    {
        let c = cs[i];
        if is_alphanumeric(c) {
            mapped.push(c);
        } else {
            mapped.push(' ');
        }
        assert(cs@.take(i + 1).drop_last() =~= cs@.take(i as int));
        i = i + 1;
    }
    assert(cs@.take(cs@.len() as int) =~= cs@);
    let collapsed = collapse_whitespace(mapped.as_slice());
    string_of(collapsed.as_slice())
}

/// Texts joined by single spaces.
pub open spec fn joined_spaces(parts: Seq<Seq<char>>) -> Seq<char>
    decreases parts.len(),
{
    if parts.len() == 0 {
        Seq::empty()
    } else if parts.len() == 1 {
        parts[0]
    } else {
        joined_spaces(parts.drop_last()) + seq![' '] + parts.last()
    }
}

/// The cells of a table, header first, row by row.
pub open spec fn table_cells_of(header: Seq<Seq<SpanView>>, rows: Seq<Seq<Seq<SpanView>>>) -> Seq<Seq<SpanView>>
    decreases rows.len(),
{
    if rows.len() == 0 {
        header
    } else {
        table_cells_of(header, rows.drop_last()) + rows.last()
    }
}

/// The text of a block as the reader matches it against a search line:
/// the plain text of its spans, of its items or of its cells joined by
/// spaces, its code or source, or its image's alt text, address and title.
pub open spec fn block_plain_text_of(block: BlockView) -> Seq<char> {
    match block {
        BlockView::Heading { spans, .. } => plain_text_of(spans),
        BlockView::Paragraph(spans) => plain_text_of(spans),
        BlockView::BlockQuote(spans) => plain_text_of(spans),
        BlockView::List { items, .. } => joined_spaces(items.map_values(|item: ItemView| plain_text_of(item.content))),
        BlockView::Table { header, rows, .. } => joined_spaces(
            table_cells_of(header, rows).map_values(|cell: Seq<SpanView>| plain_text_of(cell)),
        ),
        BlockView::CodeBlock { code, .. } => code,
        BlockView::Diagram { source, .. } => source,
        BlockView::Image { alt, url, title } => alt + seq![' '] + url + seq![' '] + title,
        BlockView::Math { source, .. } => source,
        BlockView::Rule => Seq::empty(),
    }
}

fn join_spaces(parts: &Vec<String>) -> (r: String)
    ensures
        r@ == joined_spaces(parts.deep_view()),
{
    let ghost pv = parts.deep_view();
    let mut out = String::new();
    let mut i: usize = 0;
    assert(pv.take(0) =~= Seq::<Seq<char>>::empty());
    while i < parts.len()
        invariant
            i <= parts@.len(),
            pv == parts.deep_view(),
            out@ == joined_spaces(pv.take(i as int)),
        decreases parts@.len() - i,
    {
        assert(pv.take(i + 1).drop_last() =~= pv.take(i as int));
        assert(pv[i as int] == parts@[i as int]@);
        if i > 0 {
            out.push(' ');
        } else {
            assert(pv.take(1) =~= seq![pv[0]]);
        }
        push_str(&mut out, parts[i].as_str());
        i = i + 1;
    }
    assert(pv.take(pv.len() as int) =~= pv);
    out
}

fn push_cell_texts(parts: &mut Vec<String>, cells: &[Vec<InlineSpan>])
    ensures
        final(parts).deep_view() == old(parts).deep_view() + cells.deep_view().map_values(
            |cell: Seq<SpanView>| plain_text_of(cell),
        ),
{
    let ghost start = parts.deep_view();
    let ghost cv = cells.deep_view();
    let mut i: usize = 0;
    while i < cells.len()
        invariant
            i <= cells@.len(),
            cv == cells.deep_view(),
            parts.deep_view() == start + cv.take(i as int).map_values(|cell: Seq<SpanView>| plain_text_of(cell)),
        decreases cells@.len() - i,
    {
        assert(cv[i as int] == cells@[i as int].deep_view());
        let ghost before = parts.deep_view();
        parts.push(plain_text(cells[i].as_slice()));
        assert(cv.take(i + 1).map_values(|cell: Seq<SpanView>| plain_text_of(cell)) =~= cv.take(i as int).map_values(
            |cell: Seq<SpanView>| plain_text_of(cell),
        ).push(plain_text_of(cv[i as int])));
        assert(parts.deep_view() =~= before.push(plain_text_of(cv[i as int])));
        i = i + 1;
    }
    assert(cv.take(cv.len() as int) =~= cv);
}

/// The text of a block as the reader matches it against a search line.
pub fn block_plain_text(block: &Block) -> (r: String)
    ensures
        r@ == block_plain_text_of(block.deep_view()),
{
    match block {
        Block::Heading { spans, .. } => plain_text(spans.as_slice()),
        Block::Paragraph(spans) => plain_text(spans.as_slice()),
        Block::BlockQuote(spans) => plain_text(spans.as_slice()),
        Block::List { items, .. } => {
            let ghost iv = items.deep_view();
            let mut parts: Vec<String> = Vec::new();
            let mut i: usize = 0;
            while i < items.len()
                invariant
                    i <= items@.len(),
                    iv == items.deep_view(),
                    parts.deep_view() == iv.take(i as int).map_values(|item: ItemView| plain_text_of(item.content)),
                decreases items@.len() - i,
            {
                assert(iv[i as int] == items@[i as int].deep_view());
                let ghost before = parts.deep_view();
                parts.push(plain_text(items[i].content.as_slice()));
                assert(iv.take(i + 1).map_values(|item: ItemView| plain_text_of(item.content)) =~= iv.take(
                    i as int,
                ).map_values(|item: ItemView| plain_text_of(item.content)).push(plain_text_of(iv[i as int].content)));
                assert(parts.deep_view() =~= before.push(plain_text_of(iv[i as int].content)));
                i = i + 1;
            }
            assert(iv.take(iv.len() as int) =~= iv);
            join_spaces(&parts)
        },
        Block::Table { header, rows, .. } => {
            let ghost hv = header.deep_view();
            let ghost rv = rows.deep_view();
            let mut parts: Vec<String> = Vec::new();
            push_cell_texts(&mut parts, header.as_slice());
            assert(parts.deep_view() =~= table_cells_of(hv, rv.take(0)).map_values(
                |cell: Seq<SpanView>| plain_text_of(cell),
            ));
            let mut i: usize = 0;
            while i < rows.len()
                invariant
                    i <= rows@.len(),
                    hv == header.deep_view(),
                    rv == rows.deep_view(),
                    parts.deep_view() == table_cells_of(hv, rv.take(i as int)).map_values(
                        |cell: Seq<SpanView>| plain_text_of(cell),
                    ),
                decreases rows@.len() - i,
            {
                assert(rv[i as int] == rows@[i as int].deep_view());
                assert(rv.take(i + 1).drop_last() =~= rv.take(i as int));
                push_cell_texts(&mut parts, rows[i].as_slice());
                assert(table_cells_of(hv, rv.take(i + 1)).map_values(|cell: Seq<SpanView>| plain_text_of(cell))
                    =~= table_cells_of(hv, rv.take(i as int)).map_values(|cell: Seq<SpanView>| plain_text_of(cell))
                    + rv[i as int].map_values(|cell: Seq<SpanView>| plain_text_of(cell)));
                i = i + 1;
            }
            assert(rv.take(rv.len() as int) =~= rv);
            join_spaces(&parts)
        },
        Block::CodeBlock { code, .. } => code.clone(),
        Block::Diagram { source, .. } => source.clone(),
        Block::Image { alt, url, title } => {
            let mut out = String::new();
            push_str(&mut out, alt.as_str());
            out.push(' ');
            push_str(&mut out, url.as_str());
            out.push(' ');
            push_str(&mut out, title.as_str());
            out
        },
        Block::Math { source, .. } => source.clone(),
        Block::Rule => String::new(),
    }
}

/// Whether a block holds the selected search match: the query, reduced
/// for matching, is not empty and occurs in both the block's text and the
/// selected line, and one of these holds the other.
pub open spec fn block_matches_line_of(block: BlockView, active_line: Seq<char>, query: Seq<char>) -> bool {
    let line = searchable_of(active_line);
    let text = searchable_of(block_plain_text_of(block));
    let q = searchable_of(query);
    q.len() > 0 && find(line, q) is Some && find(text, q) is Some && (find(line, trim(text)) is Some || find(
        text,
        trim(line),
    ) is Some)
}

fn contains(h: &String, n: &String) -> (r: bool)
    ensures
        r == (find(h@, n@) is Some),
{
    let hc = chars_of(h.as_str());
    let nc = chars_of(n.as_str());
    find_chars(hc.as_slice(), nc.as_slice()).is_some()
}

fn trimmed(s: &String) -> (r: String)
    ensures
        r@ == trim(s@),
{
    let cs = chars_of(s.as_str());
    let t = trim_chars(cs.as_slice());
    string_of(t.as_slice())
}

/// Whether a block holds the selected search match; see
/// `block_matches_line_of`.
pub fn block_matches_active_search_line(block: &Block, active_line: &str, query: &str) -> (r: bool)
    ensures
        r == block_matches_line_of(block.deep_view(), active_line@, query@),
{
    let line = searchable_text(active_line);
    let text = searchable_text(block_plain_text(block).as_str());
    let q = searchable_text(query);
    if q.as_str().is_empty() {
        return false;
    }
    contains(&line, &q) && contains(&text, &q) && (contains(&line, &trimmed(&text)) || contains(&text, &trimmed(&line)))
}

/// The search a block is drawn with: none without a query; else the
/// trimmed query, active when a selected line is given and the block holds
/// it.
pub fn render_search(block: &Block, query: Option<&str>, active_line: Option<&str>) -> (r: Option<RenderSearch>)
    ensures
        match normalized_query_of(
            match query {
                Some(q) => Some(q@),
                None => None,
            },
        ) {
            Some(q) => r matches Some(s) && s.query@ == q && s.active == match active_line {
                Some(l) => block_matches_line_of(block.deep_view(), l@, q),
                None => false,
            },
            None => r is None,
        },
{
    match normalized_search_query(query) {
        Some(q) => {
            let active = match active_line {
                Some(l) => block_matches_active_search_line(block, l, q.as_str()),
                None => false,
            };
            Some(RenderSearch { query: q, active })
        },
        None => None,
    }
}

} // verus!
