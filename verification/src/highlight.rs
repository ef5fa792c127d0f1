use core::ops::Range;
use vstd::prelude::*;

use crate::text::{
    chars_of, find_chars_from, slice_chars, find_from, leading_ws, lemma_find_from, starts_with, starts_with_chars, trim_start,
};

verus! {

/// What a highlighted stretch of a Markdown source line is.
#[derive(Debug, Clone, Copy, PartialEq, Eq, Structural)]
pub enum MarkdownHighlight {
    HeadingMarker,
    ListMarker,
    QuoteMarker,
    Code,
    Link,
    Emphasis,
}

/// Where a run of `#` that starts at `i` ends.
pub open spec fn hash_run_end(s: Seq<char>, i: nat) -> nat
    decreases s.len() - i,
{
    if i < s.len() && s[i as int] == '#' {
        hash_run_end(s, i + 1)
    } else {
        i
    }
}

/// Where a run of ASCII digits that starts at `i` ends.
pub open spec fn digit_run_end(s: Seq<char>, i: nat) -> nat
    decreases s.len() - i,
{
    if i < s.len() && '0' <= s[i as int] && s[i as int] <= '9' {
        digit_run_end(s, i + 1)
    } else {
        i
    }
}

/// The length of an ATX heading marker: one to six `#` and a space after.
pub open spec fn heading_marker_len_of(t: Seq<char>) -> Option<nat> {
    let c = hash_run_end(t, 0);
    if 0 < c && c <= 6 && c < t.len() && t[c as int] == ' ' {
        Some(c)
    } else {
        None
    }
}

/// The length of a list marker: a bullet, or digits and a dot, with a space
/// after.
pub open spec fn list_marker_len_of(t: Seq<char>) -> Option<nat> {
    if t.len() >= 2 && (t[0] == '-' || t[0] == '*' || t[0] == '+') && t[1] == ' ' {
        Some(1)
    } else {
        let d = digit_run_end(t, 0);
        if d > 0 && d + 2 <= t.len() && t[d as int] == '.' && t[d + 1int] == ' ' {
            Some(d + 1)
        } else {
            None
        }
    }
}

/// The opening markers of the pairs of `m` in `s` from `from` on: each
/// occurrence that a later one closes, the search going on after the closing
/// one.
pub open spec fn paired_ranges(s: Seq<char>, m: Seq<char>, from: nat) -> Seq<(nat, nat)>
    decreases s.len() + 1 - from,
{
    if m.len() == 0 || from > s.len() {
        Seq::empty()
    } else {
        match find_from(s, m, from) {
            None => Seq::empty(),
            Some(start) => match find_from(s, m, start + m.len()) {
                None => Seq::empty(),
                Some(end) => {
                    proof {
                        lemma_find_from(s, m, from);
                        lemma_find_from(s, m, start + m.len());
                    }
                    seq![(start, start + m.len())] + paired_ranges(s, m, end + m.len())
                },
            },
        }
    }
}

/// The links `[label](target)` in `s` from `from` on, each from its opening
/// bracket to its closing parenthesis.
pub open spec fn link_ranges(s: Seq<char>, from: nat) -> Seq<(nat, nat)>
    decreases s.len() + 1 - from,
{
    if from > s.len() {
        Seq::empty()
    } else {
        match find_from(s, seq!['['], from) {
            None => Seq::empty(),
            Some(label_start) => match find_from(s, seq![']', '('], label_start) {
                None => Seq::empty(),
                Some(label_end) => match find_from(s, seq![')'], label_end + 2) {
                    None => Seq::empty(),
                    Some(target_end) => {
                        proof {
                            lemma_find_from(s, seq!['['], from);
                            lemma_find_from(s, seq![']', '('], label_start);
                            lemma_find_from(s, seq![')'], label_end + 2);
                        }
                        seq![(label_start, target_end + 1)] + link_ranges(s, target_end + 1)
                    },
                },
            },
        }
    }
}

/// Ranges marked with one kind of highlight.
pub open spec fn tagged(rs: Seq<(nat, nat)>, h: MarkdownHighlight) -> Seq<(nat, nat, MarkdownHighlight)> {
    rs.map_values(|r: (nat, nat)| (r.0, r.1, h))
}

/// The highlights of a line, by character positions: a code fence covers the
/// rest of the line; otherwise a heading, list or quote marker, then inline
/// code, links, and emphasis markers.
pub open spec fn line_highlights_of(line: Seq<char>) -> Seq<(nat, nat, MarkdownHighlight)> {
    let t = trim_start(line);
    let ts = (line.len() - t.len()) as nat;
    if starts_with(t, seq!['`', '`', '`']) || starts_with(t, seq!['~', '~', '~']) {
        seq![(ts, line.len(), MarkdownHighlight::Code)]
    } else {
        let block = match heading_marker_len_of(t) {
            Some(c) => seq![(ts, ts + c, MarkdownHighlight::HeadingMarker)],
            None => match list_marker_len_of(t) {
                Some(c) => seq![(ts, ts + c, MarkdownHighlight::ListMarker)],
                None => if starts_with(t, seq!['>']) {
                    seq![(ts, ts + 1, MarkdownHighlight::QuoteMarker)]
                } else {
                    Seq::empty()
                },
            },
        };
        block + tagged(paired_ranges(line, seq!['`'], 0), MarkdownHighlight::Code) + tagged(
            link_ranges(line, 0),
            MarkdownHighlight::Link,
        ) + tagged(paired_ranges(line, seq!['*', '*'], 0), MarkdownHighlight::Emphasis) + tagged(
            paired_ranges(line, seq!['*'], 0),
            MarkdownHighlight::Emphasis,
        )
    }
}

/// Character ranges as values.
pub open spec fn triples_view(v: Seq<(usize, usize, MarkdownHighlight)>) -> Seq<(nat, nat, MarkdownHighlight)> {
    v.map_values(|t: (usize, usize, MarkdownHighlight)| (t.0 as nat, t.1 as nat, t.2))
}

fn hash_run(s: &[char]) -> (r: usize)
    ensures
        r == hash_run_end(s@, 0),
        r <= s@.len(),
{
    let mut i: usize = 0;
    while i < s.len() && s[i] == '#'
        invariant
            i <= s@.len(),
            hash_run_end(s@, 0) == hash_run_end(s@, i as nat),
        decreases s@.len() - i,
    {
        i = i + 1;
    }
    i
}

fn digit_run(s: &[char]) -> (r: usize)
    ensures
        r == digit_run_end(s@, 0),
        r <= s@.len(),
{
    let mut i: usize = 0;
    while i < s.len() && '0' <= s[i] && s[i] <= '9'
        invariant
            i <= s@.len(),
            digit_run_end(s@, 0) == digit_run_end(s@, i as nat),
        decreases s@.len() - i,
    {
        i = i + 1;
    }
    i
}

fn heading_marker_len(t: &[char]) -> (r: Option<usize>)
    ensures
        match heading_marker_len_of(t@) {
            Some(c) => r == Some(c as usize),
            None => r is None,
        },
{
    let c = hash_run(t);
    if 0 < c && c <= 6 && c < t.len() && t[c] == ' ' {
        Some(c)
    } else {
        None
    }
}

fn list_marker_len(t: &[char]) -> (r: Option<usize>)
    ensures
        match list_marker_len_of(t@) {
            Some(c) => r == Some(c as usize),
            None => r is None,
        },
{
    if t.len() >= 2 && (t[0] == '-' || t[0] == '*' || t[0] == '+') && t[1] == ' ' {
        return Some(1);
    }
    let d = digit_run(t);
    if d > 0 && t.len() >= 2 && d <= t.len() - 2 && t[d] == '.' && t[d + 1] == ' ' {
        Some(d + 1)
    } else {
        None
    }
}

fn push_paired(out: &mut Vec<(usize, usize, MarkdownHighlight)>, s: &[char], m: &[char], h: MarkdownHighlight)
    requires
        m@.len() > 0,
    ensures
        triples_view(final(out)@) == triples_view(old(out)@) + tagged(paired_ranges(s@, m@, 0), h),
{
    let n = s.len();
    let mut from: usize = 0;
    loop
        invariant
            n == s@.len(),
            m@.len() > 0,
            from <= s@.len(),
            triples_view(out@) + tagged(paired_ranges(s@, m@, from as nat), h) == triples_view(old(out)@)
                + tagged(paired_ranges(s@, m@, 0), h),
        decreases s@.len() + 1 - from,
    {
        let start = match find_chars_from(s, m, from) {
            Some(start) => start,
            None => {
                assert(tagged(paired_ranges(s@, m@, from as nat), h) =~= Seq::empty());
                assert(triples_view(out@) =~= triples_view(out@) + tagged(paired_ranges(s@, m@, from as nat), h));
                return;
            },
        };
        proof {
            lemma_find_from(s@, m@, from as nat);
            assert(find_from(s@, m@, from as nat) == Some(start as nat));
            assert(start + m@.len() <= s@.len());
        }
        let end = match find_chars_from(s, m, start + m.len()) {
            Some(end) => end,
            None => {
                assert(tagged(paired_ranges(s@, m@, from as nat), h) =~= Seq::empty());
                assert(triples_view(out@) =~= triples_view(out@) + tagged(paired_ranges(s@, m@, from as nat), h));
                return;
            },
        };
        proof {
            lemma_find_from(s@, m@, (start + m@.len()) as nat);
            assert(find_from(s@, m@, (start + m@.len()) as nat) == Some(end as nat));
            assert(end + m@.len() <= s@.len());
        }
        let ghost before = triples_view(out@);
        let ghost rest = paired_ranges(s@, m@, (end + m@.len()) as nat);
        out.push((start, start + m.len(), h));
        assert(paired_ranges(s@, m@, from as nat) == seq![(start as nat, (start + m@.len()) as nat)] + rest);
        assert(tagged(paired_ranges(s@, m@, from as nat), h) =~= seq![(start as nat, (start + m@.len()) as nat, h)]
            + tagged(rest, h));
        assert(triples_view(out@) =~= before.push((start as nat, (start + m@.len()) as nat, h)));
        from = end + m.len();
    }
}


fn push_links(out: &mut Vec<(usize, usize, MarkdownHighlight)>, s: &[char])
    ensures
        triples_view(final(out)@) == triples_view(old(out)@) + tagged(link_ranges(s@, 0), MarkdownHighlight::Link),
{
    let h = MarkdownHighlight::Link;
    let open = ['['];
    let middle = [']', '('];
    let close = [')'];
    let n = s.len();
    let mut from: usize = 0;
    loop
        invariant
            n == s@.len(),
            open@ == seq!['['],
            middle@ == seq![']', '('],
            close@ == seq![')'],
            h == MarkdownHighlight::Link,
            from <= s@.len(),
            triples_view(out@) + tagged(link_ranges(s@, from as nat), h) == triples_view(old(out)@) + tagged(
                link_ranges(s@, 0),
                h,
            ),
        decreases s@.len() + 1 - from,
    {
        let label_start = match find_chars_from(s, &open, from) {
            Some(i) => i,
            None => {
                assert(tagged(link_ranges(s@, from as nat), h) =~= Seq::empty());
                assert(triples_view(out@) =~= triples_view(out@) + tagged(link_ranges(s@, from as nat), h));
                return;
            },
        };
        let label_end = match find_chars_from(s, &middle, label_start) {
            Some(i) => i,
            None => {
                assert(tagged(link_ranges(s@, from as nat), h) =~= Seq::empty());
                assert(triples_view(out@) =~= triples_view(out@) + tagged(link_ranges(s@, from as nat), h));
                return;
            },
        };
        proof {
            lemma_find_from(s@, middle@, label_start as nat);
            assert(find_from(s@, middle@, label_start as nat) == Some(label_end as nat));
        }
        let target_end = match find_chars_from(s, &close, label_end + 2) {
            Some(i) => i,
            None => {
                assert(tagged(link_ranges(s@, from as nat), h) =~= Seq::empty());
                assert(triples_view(out@) =~= triples_view(out@) + tagged(link_ranges(s@, from as nat), h));
                return;
            },
        };
        proof {
            lemma_find_from(s@, open@, from as nat);
            lemma_find_from(s@, close@, (label_end + 2) as nat);
            assert(find_from(s@, close@, (label_end + 2) as nat) == Some(target_end as nat));
        }
        let ghost before = triples_view(out@);
        let ghost rest = link_ranges(s@, (target_end + 1) as nat);
        out.push((label_start, target_end + 1, h));
        assert(link_ranges(s@, from as nat) == seq![(label_start as nat, (target_end + 1) as nat)] + rest);
        assert(tagged(link_ranges(s@, from as nat), h) =~= seq![(label_start as nat, (target_end + 1) as nat, h)]
            + tagged(rest, h));
        assert(triples_view(out@) =~= before.push((label_start as nat, (target_end + 1) as nat, h)));
        from = target_end + 1;
    }
}

/// The highlights of a line by character positions.
fn line_highlights(cs: &[char]) -> (r: Vec<(usize, usize, MarkdownHighlight)>)
    ensures
        triples_view(r@) == line_highlights_of(cs@),
{
    let mut out: Vec<(usize, usize, MarkdownHighlight)> = Vec::new();
    let ts = leading_ws(cs);
    let n = cs.len();
    let rest = slice_chars(cs, ts, n);
    let t = rest.as_slice();
    assert(t@ =~= cs@.skip(ts as int));
    if starts_with_chars(t, &['`', '`', '`']) || starts_with_chars(t, &['~', '~', '~']) {
        out.push((ts, n, MarkdownHighlight::Code));
        assert(triples_view(out@) =~= line_highlights_of(cs@));
        return out;
    }
    let quote = ['>'];
    assert(quote@ =~= seq!['>']);
    match heading_marker_len(t) {
        Some(c) => out.push((ts, ts + c, MarkdownHighlight::HeadingMarker)),
        None => match list_marker_len(t) {
            Some(c) => out.push((ts, ts + c, MarkdownHighlight::ListMarker)),
            None => if starts_with_chars(t, &quote) {
                out.push((ts, ts + 1, MarkdownHighlight::QuoteMarker));
            },
        },
    }
    let ghost block = triples_view(out@);
    proof {
        let tv = trim_start(cs@);
        let tsn = (cs@.len() - tv.len()) as nat;
        assert(tv == t@);
        assert(tsn == ts);
        let spec_block = match heading_marker_len_of(tv) {
            Some(c) => seq![(tsn, tsn + c, MarkdownHighlight::HeadingMarker)],
            None => match list_marker_len_of(tv) {
                Some(c) => seq![(tsn, tsn + c, MarkdownHighlight::ListMarker)],
                None => if starts_with(tv, seq!['>']) {
                    seq![(tsn, tsn + 1, MarkdownHighlight::QuoteMarker)]
                } else {
                    Seq::empty()
                },
            },
        };
        assert(block =~= spec_block);
    }
    let tick = ['`'];
    let stars = ['*', '*'];
    let star = ['*'];
    assert(tick@ =~= seq!['`']);
    assert(stars@ =~= seq!['*', '*']);
    assert(star@ =~= seq!['*']);
    push_paired(&mut out, cs, &tick, MarkdownHighlight::Code);
    push_links(&mut out, cs);
    push_paired(&mut out, cs, &stars, MarkdownHighlight::Emphasis);
    push_paired(&mut out, cs, &star, MarkdownHighlight::Emphasis);
    assert(triples_view(out@) =~= line_highlights_of(cs@));
    out
}


/// Where the character at position `i` of `s` starts in its UTF-8 bytes.
pub open spec fn byte_offset(s: Seq<char>, i: int) -> nat {
    vstd::utf8::encode_utf8(s.take(i)).len()
}

pub(crate) fn utf8_width(c: char) -> (r: usize)
    ensures
        r == vstd::utf8::encode_utf8(seq![c]).len(),
{
    proof {
        vstd::utf8::char_is_scalar(c);
        assert(seq![c].drop_first() =~= Seq::<char>::empty());
        assert(vstd::utf8::encode_utf8(Seq::<char>::empty()) =~= Seq::<u8>::empty());
    }
    let v = c as u32;
    if v <= 0x7f {
        1
    } else if v <= 0x7ff {
        2
    } else if v <= 0xffff {
        3
    } else {
        4
    }
}

/// The byte offset of every character position of a line, its end included.
pub(crate) fn byte_offsets(line: &str, cs: &[char]) -> (r: Vec<usize>)
    requires
        cs@ == line@,
    ensures
        r@.len() == cs@.len() + 1,
        forall|i: int| 0 <= i <= cs@.len() ==> r@[i] == byte_offset(cs@, i),
{
    let total = line.as_bytes().len();
    let mut out: Vec<usize> = Vec::new();
    let mut acc: usize = 0;
    let mut i: usize = 0;
    assert(cs@.take(0) =~= Seq::<char>::empty());
    assert(vstd::utf8::encode_utf8(Seq::<char>::empty()) =~= Seq::<u8>::empty());
    while i < cs.len()
        invariant
            i <= cs@.len(),
            total == vstd::utf8::encode_utf8(cs@).len(),
            acc == byte_offset(cs@, i as int),
            out@.len() == i,
            forall|j: int| 0 <= j < i ==> out@[j] == byte_offset(cs@, j),
        decreases cs@.len() - i,
    {
        out.push(acc);
        let w = utf8_width(cs[i]);
        proof {
            assert(cs@.take(i + 1) =~= cs@.take(i as int) + seq![cs@[i as int]]);
            crate::text::lemma_encode_utf8_concat(cs@.take(i as int), seq![cs@[i as int]]);
            assert(cs@ =~= cs@.take(i + 1) + cs@.skip(i + 1));
            crate::text::lemma_encode_utf8_concat(cs@.take(i + 1), cs@.skip(i + 1));
        }
        acc = acc + w;
        i = i + 1;
    }
    out.push(acc);
    out
}

/// Byte ranges that stand for the highlights of a line, one for one.
pub open spec fn highlights_as_bytes(line: Seq<char>, r: Seq<(Range<usize>, MarkdownHighlight)>) -> bool {
    &&& r.len() == line_highlights_of(line).len()
    &&& forall|i: int|
        0 <= i < r.len() ==> {
            let h = line_highlights_of(line)[i];
            &&& (#[trigger] r[i]).0.start == byte_offset(line, h.0 as int)
            &&& r[i].0.end == byte_offset(line, h.1 as int)
            &&& r[i].1 == h.2
        }
}

/// The highlights of a line of Markdown source as byte ranges: a code fence
/// covers the rest of the line; otherwise a heading, list or quote marker
/// comes first, then inline code spans, links, and emphasis markers.
pub fn markdown_highlights(line: &str) -> (r: Vec<(Range<usize>, MarkdownHighlight)>)
    ensures
        highlights_as_bytes(line@, r@),
{
    let cs = chars_of(line);
    let offsets = byte_offsets(line, cs.as_slice());
    let ranges = line_highlights(cs.as_slice());
    let ghost hv = line_highlights_of(line@);
    proof {
        lemma_highlights_in_line(line@);
    }
    let mut out: Vec<(Range<usize>, MarkdownHighlight)> = Vec::new();
    let mut k: usize = 0;
    while k < ranges.len()
        invariant
            k <= ranges@.len(),
            cs@ == line@,
            triples_view(ranges@) == hv,
            hv == line_highlights_of(line@),
            offsets@.len() == cs@.len() + 1,
            forall|i: int| 0 <= i <= cs@.len() ==> offsets@[i] == byte_offset(cs@, i),
            forall|i: int| 0 <= i < hv.len() ==> #[trigger] hv[i].0 <= hv[i].1 <= line@.len(),
            out@.len() == k,
            forall|i: int|
                0 <= i < k ==> {
                    let h = hv[i];
                    &&& (#[trigger] out@[i]).0.start == byte_offset(line@, h.0 as int)
                    &&& out@[i].0.end == byte_offset(line@, h.1 as int)
                    &&& out@[i].1 == h.2
                },
        decreases ranges@.len() - k,
    {
        let (a, b, h) = ranges[k];
        assert(hv[k as int] == (a as nat, b as nat, h));
        out.push((offsets[a]..offsets[b], h));
        k = k + 1;
    }
    out
}


/// Ranges that lie inside a line of `n` characters.
pub open spec fn ranges_within(rs: Seq<(nat, nat)>, n: nat) -> bool {
    forall|i: int| 0 <= i < rs.len() ==> #[trigger] rs[i].0 <= rs[i].1 <= n
}

proof fn lemma_paired_within(s: Seq<char>, m: Seq<char>, from: nat)
    ensures
        ranges_within(paired_ranges(s, m, from), s.len()),
    decreases s.len() + 1 - from,
{
    if m.len() == 0 || from > s.len() {
    } else {
        lemma_find_from(s, m, from);
        match find_from(s, m, from) {
            None => {},
            Some(start) => {
                lemma_find_from(s, m, start + m.len());
                match find_from(s, m, start + m.len()) {
                    None => {},
                    Some(end) => {
                        lemma_paired_within(s, m, end + m.len());
                        let rest = paired_ranges(s, m, end + m.len());
                        let all = paired_ranges(s, m, from);
                        assert(all == seq![(start, start + m.len())] + rest);
                        assert forall|i: int| 0 <= i < all.len() implies #[trigger] all[i].0 <= all[i].1 <= s.len() by {
                            if i > 0 {
                                assert(all[i] == rest[i - 1]);
                            }
                        }
                    },
                }
            },
        }
    }
}

proof fn lemma_links_within(s: Seq<char>, from: nat)
    ensures
        ranges_within(link_ranges(s, from), s.len()),
    decreases s.len() + 1 - from,
{
    let all = link_ranges(s, from);
    if from <= s.len() {
        lemma_find_from(s, seq!['['], from);
        if let Some(label_start) = find_from(s, seq!['['], from) {
            lemma_find_from(s, seq![']', '('], label_start);
            if let Some(label_end) = find_from(s, seq![']', '('], label_start) {
                lemma_find_from(s, seq![')'], label_end + 2);
                if let Some(target_end) = find_from(s, seq![')'], label_end + 2) {
                    lemma_links_within(s, target_end + 1);
                    let rest = link_ranges(s, target_end + 1);
                    assert(all == seq![(label_start, target_end + 1)] + rest);
                    assert forall|i: int| 0 <= i < all.len() implies #[trigger] all[i].0 <= all[i].1 <= s.len() by {
                        if i > 0 {
                            assert(all[i] == rest[i - 1]);
                        }
                    }
                } else {
                    assert(all =~= Seq::empty());
                }
            } else {
                assert(all =~= Seq::empty());
            }
        } else {
            assert(all =~= Seq::empty());
        }
    } else {
        assert(all =~= Seq::empty());
    }
}

proof fn lemma_trim_start_shorter(s: Seq<char>)
    ensures
        trim_start(s).len() <= s.len(),
    decreases s.len(),
{
    if s.len() > 0 && crate::text::is_ws(s[0]) {
        lemma_trim_start_shorter(s.drop_first());
    }
}

proof fn lemma_highlights_in_line(line: Seq<char>)
    ensures
        forall|i: int|
            0 <= i < line_highlights_of(line).len() ==> #[trigger] line_highlights_of(line)[i].0
                <= line_highlights_of(line)[i].1 <= line.len(),
{
    let hv = line_highlights_of(line);
    let t = trim_start(line);
    lemma_trim_start_shorter(line);
    lemma_paired_within(line, seq!['`'], 0);
    lemma_links_within(line, 0);
    lemma_paired_within(line, seq!['*', '*'], 0);
    lemma_paired_within(line, seq!['*'], 0);
    assert forall|i: int| 0 <= i < hv.len() implies #[trigger] hv[i].0 <= hv[i].1 <= line.len() by {
        let a = tagged(paired_ranges(line, seq!['`'], 0), MarkdownHighlight::Code);
        let b = tagged(link_ranges(line, 0), MarkdownHighlight::Link);
        let c = tagged(paired_ranges(line, seq!['*', '*'], 0), MarkdownHighlight::Emphasis);
        let d = tagged(paired_ranges(line, seq!['*'], 0), MarkdownHighlight::Emphasis);
        if !(starts_with(t, seq!['`', '`', '`']) || starts_with(t, seq!['~', '~', '~'])) {
            let block = hv.take((hv.len() - a.len() - b.len() - c.len() - d.len()) as int);
            let k = block.len() as int;
            if i < k {
            } else if i < k + a.len() {
                assert(hv[i] == a[i - k]);
            } else if i < k + a.len() + b.len() {
                assert(hv[i] == b[i - k - a.len()]);
            } else if i < k + a.len() + b.len() + c.len() {
                assert(hv[i] == c[i - k - a.len() - b.len()]);
            } else {
                assert(hv[i] == d[i - k - a.len() - b.len() - c.len()]);
            }
        }
    }
}

/// An editor highlighter for Markdown source: it counts the lines it has
/// highlighted.
#[derive(Debug, Clone)]
pub struct MarkdownHighlighter {
    current_line: usize,
}

impl View for MarkdownHighlighter {
    type V = nat;

    closed spec fn view(&self) -> nat {
        self.current_line as nat
    }
}

impl Default for MarkdownHighlighter {
    /// A highlighter at the first line.
    fn default() -> (r: MarkdownHighlighter)
        ensures
            r@ == 0,
    {
        MarkdownHighlighter { current_line: 0 }
    }
}

impl MarkdownHighlighter {
    /// A highlighter at the first line.
    pub fn new() -> (r: MarkdownHighlighter)
        ensures
            r@ == 0,
    {
        MarkdownHighlighter { current_line: 0 }
    }

    /// Moves to a line.
    pub fn change_line(&mut self, line: usize)
        ensures
            final(self)@ == line,
    {
        self.current_line = line;
    }

    /// Highlights the next line, counting it; the count stops at `usize::MAX`.
    pub fn highlight_line(&mut self, line: &str) -> (r: Vec<(Range<usize>, MarkdownHighlight)>)
        ensures
            final(self)@ == if old(self)@ < usize::MAX {
                old(self)@ + 1
            } else {
                old(self)@
            },
            highlights_as_bytes(line@, r@),
    {
        self.current_line = self.current_line.saturating_add(1);
        markdown_highlights(line)
    }

    /// The line the highlighter is on.
    pub fn current_line(&self) -> (r: usize)
        ensures
            r == self@,
    {
        self.current_line
    }
}

} // verus!
