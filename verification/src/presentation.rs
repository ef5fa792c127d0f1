use vstd::prelude::*;

use crate::text::{
    char_is_ws, chars_eq, chars_of, extend_chars, is_blank, is_ws, leading_ws, lines,
    lines_chars, slice_chars, split_inclusive, split_inclusive_chars, starts_with, string_of,
    trim, trim_chars, trim_start,
};

verus! {

/// A slide: its title and its Markdown source.
#[derive(Debug, Clone, PartialEq, Eq)]
pub struct Slide {
    title: String,
    source: String,
}

impl View for Slide {
    type V = (Seq<char>, Seq<char>);

    closed spec fn view(&self) -> (Seq<char>, Seq<char>) {
        (self.title@, self.source@)
    }
}

impl DeepView for Slide {
    type V = (Seq<char>, Seq<char>);

    open spec fn deep_view(&self) -> (Seq<char>, Seq<char>) {
        self@
    }
}

impl Slide {
    /// The slide's title.
    pub fn title(&self) -> (r: &str)
        ensures
            r@ == self@.0,
    {
        self.title.as_str()
    }

    /// The slide's Markdown source.
    pub fn source(&self) -> (r: &str)
        ensures
            r@ == self@.1,
    {
        self.source.as_str()
    }
}

/// A Markdown document cut into slides.
#[derive(Debug, Clone, PartialEq, Eq)]
pub struct PresentationDeck {
    slides: Vec<Slide>,
}

impl View for PresentationDeck {
    type V = Seq<(Seq<char>, Seq<char>)>;

    closed spec fn view(&self) -> Seq<(Seq<char>, Seq<char>)> {
        self.slides.deep_view()
    }
}

/// A line that separates slides: `---`, `***` or `___`, with any
/// surrounding whitespace.
pub open spec fn is_slide_rule_of(line: Seq<char>) -> bool {
    let t = trim(line);
    t == seq!['-', '-', '-'] || t == seq!['*', '*', '*'] || t == seq!['_', '_', '_']
}

/// A line that starts a level-one ATX heading: `#` then a space or tab,
/// after any indentation.
pub open spec fn is_top_level_heading_of(line: Seq<char>) -> bool {
    let t = trim_start(line);
    starts_with(t, seq!['#', ' ']) || starts_with(t, seq!['#', '\t'])
}

/// The finished chunk for the text gathered so far, if it is not blank.
pub open spec fn closed_chunks(chunks: Seq<Seq<char>>, current: Seq<char>) -> Seq<Seq<char>> {
    if trim(current).len() > 0 {
        chunks.push(trim(current))
    } else {
        chunks
    }
}

/// Cutting lines at slide rules: the finished chunks, the text gathered
/// since the last cut, and whether a rule was seen.
pub open spec fn rule_split(pieces: Seq<Seq<char>>) -> (Seq<Seq<char>>, Seq<char>, bool)
    decreases pieces.len(),
{
    if pieces.len() == 0 {
        (Seq::empty(), Seq::empty(), false)
    } else {
        let (chunks, current, found) = rule_split(pieces.drop_last());
        let line = pieces.last();
        if is_slide_rule_of(line) {
            if trim(current).len() > 0 {
                (chunks.push(trim(current)), Seq::empty(), true)
            } else {
                (chunks, current, true)
            }
        } else {
            (chunks, current + line, found)
        }
    }
}

/// Cutting lines before each level-one heading: the finished chunks and the
/// text gathered since the last cut.
pub open spec fn heading_split(pieces: Seq<Seq<char>>) -> (Seq<Seq<char>>, Seq<char>)
    decreases pieces.len(),
{
    if pieces.len() == 0 {
        (Seq::empty(), Seq::empty())
    } else {
        let (chunks, current) = heading_split(pieces.drop_last());
        let line = pieces.last();
        if is_top_level_heading_of(line) && trim(current).len() > 0 {
            (chunks.push(trim(current)), line)
        } else {
            (chunks, current + line)
        }
    }
}

/// The slide sources of a document: cut at slide rules when it has any,
/// else before each level-one heading; blank chunks dropped, each trimmed.
pub open spec fn slide_chunks_of(source: Seq<char>) -> Seq<Seq<char>> {
    let pieces = split_inclusive(source);
    let (chunks, current, found) = rule_split(pieces);
    if found {
        closed_chunks(chunks, current)
    } else {
        let (hchunks, hcurrent) = heading_split(pieces);
        closed_chunks(hchunks, hcurrent)
    }
}

/// The number of `#` characters that start `s`.
pub open spec fn hash_run(s: Seq<char>) -> nat
    decreases s.len(),
{
    if s.len() > 0 && s[0] == '#' {
        1 + hash_run(s.drop_first())
    } else {
        0
    }
}

/// `s` without its trailing `#` characters.
pub open spec fn trim_end_hashes(s: Seq<char>) -> Seq<char>
    decreases s.len(),
{
    if s.len() > 0 && s.last() == '#' {
        trim_end_hashes(s.drop_last())
    } else {
        s
    }
}

/// The title of an ATX heading line: one to six `#`, whitespace, then the
/// text without closing `#`s; nothing for any other line or an empty title.
pub open spec fn heading_title_of(line: Seq<char>) -> Option<Seq<char>> {
    let t = trim_start(line);
    let k = hash_run(t);
    if 1 <= k <= 6 {
        let after = t.skip(k as int);
        if after.len() > 0 && is_ws(after[0]) {
            let title = trim(trim_end_hashes(trim(after)));
            if title.len() > 0 {
                Some(title)
            } else {
                None
            }
        } else {
            None
        }
    } else {
        None
    }
}

/// The first heading title among `ls`, from the front.
pub open spec fn first_heading_title(ls: Seq<Seq<char>>) -> Option<Seq<char>>
    decreases ls.len(),
{
    if ls.len() == 0 {
        None
    } else {
        match heading_title_of(ls[0]) {
            Some(t) => Some(t),
            None => first_heading_title(ls.drop_first()),
        }
    }
}

/// The first line of `ls` that is not blank, trimmed.
pub open spec fn first_text_line(ls: Seq<Seq<char>>) -> Option<Seq<char>>
    decreases ls.len(),
{
    if ls.len() == 0 {
        None
    } else if trim(ls[0]).len() > 0 {
        Some(trim(ls[0]))
    } else {
        first_text_line(ls.drop_first())
    }
}

/// A slide's title: its first heading, else its first line of text, else
/// "Untitled Slide".
pub open spec fn slide_title_of(source: Seq<char>) -> Seq<char> {
    match first_heading_title(lines(source)) {
        Some(t) => t,
        None => match first_text_line(lines(source)) {
            Some(t) => t,
            None => "Untitled Slide"@,
        },
    }
}

/// The slides of a document, each with its title and source.
pub open spec fn deck_of(source: Seq<char>) -> Seq<(Seq<char>, Seq<char>)> {
    slide_chunks_of(source).map_values(|chunk: Seq<char>| (slide_title_of(chunk), chunk))
}

fn is_slide_rule(line: &[char]) -> (r: bool)
    ensures
        r == is_slide_rule_of(line@),
{
    let t = trim_chars(line);
    chars_eq(t.as_slice(), vec!['-', '-', '-'].as_slice()) || chars_eq(
        t.as_slice(),
        vec!['*', '*', '*'].as_slice(),
    ) || chars_eq(t.as_slice(), vec!['_', '_', '_'].as_slice())
}

fn is_top_level_heading(line: &[char]) -> (r: bool)
    ensures
        r == is_top_level_heading_of(line@),
{
    let start = leading_ws(line);
    let ghost t = trim_start(line@);
    assert(t =~= line@.skip(start as int));
    if start < line.len() && line.len() - start >= 2 && line[start] == '#' {
        let r = line[start + 1] == ' ' || line[start + 1] == '\t';
        assert(t.subrange(0, 2) =~= seq!['#', line@[start + 1]]);
        r
    } else {
        proof {
            if t.len() >= 2 {
                assert(t.subrange(0, 2)[0] == t[0]);
            }
        }
        false
    }
}

/// Adds the trimmed text gathered so far as a chunk, if it is not blank.
fn close_chunk(chunks: &mut Vec<Vec<char>>, current: &Vec<char>) -> (r: bool)
    ensures
        final(chunks).deep_view() == closed_chunks(old(chunks).deep_view(), current@),
        r == (trim(current@).len() > 0),
{
    let t = trim_chars(current.as_slice());
    if t.len() > 0 {
        let ghost before = chunks.deep_view();
        assert(t.deep_view() =~= t@);
        chunks.push(t);
        assert(chunks.deep_view() =~= before.push(t@));
        true
    } else {
        false
    }
}

/// The number of `#` characters that start `s`.
fn count_hashes(s: &[char]) -> (k: usize)
    ensures
        k == hash_run(s@),
        k <= s@.len(),
{
    let mut k: usize = 0;
    assert(s@.skip(0) =~= s@);
    while k < s.len() && s[k] == '#'
        invariant
            k <= s@.len(),
            hash_run(s@) == k + hash_run(s@.skip(k as int)),
        decreases s@.len() - k,
    {
        assert(s@.skip(k as int).drop_first() =~= s@.skip(k + 1));
        k = k + 1;
    }
    proof {
        if k < s@.len() {
            assert(s@.skip(k as int)[0] == s@[k as int]);
        }
    }
    k
}

/// `s` without its trailing `#` characters.
fn strip_trailing_hashes(s: &[char]) -> (r: Vec<char>)
    ensures
        r@ == trim_end_hashes(s@),
{
    let mut n = s.len();
    assert(s@.take(n as int) =~= s@);
    while n > 0 && s[n - 1] == '#'
        invariant
            n <= s@.len(),
            trim_end_hashes(s@) == trim_end_hashes(s@.take(n as int)),
        decreases n,
    {
        assert(s@.take(n as int).drop_last() =~= s@.take(n - 1));
        n = n - 1;
    }
    slice_chars(s, 0, n)
}

fn heading_title(line: &[char]) -> (r: Option<Vec<char>>)
    ensures
        match heading_title_of(line@) {
            Some(t) => r matches Some(v) && v@ == t,
            None => r is None,
        },
{
    let start = leading_ws(line);
    let t = slice_chars(line, start, line.len());
    assert(t@ =~= trim_start(line@));
    let k = count_hashes(t.as_slice());
    if k < 1 || k > 6 {
        return None;
    }
    let after = slice_chars(t.as_slice(), k, t.len());
    assert(after@ =~= t@.skip(k as int));
    if after.len() == 0 || !char_is_ws(after[0]) {
        return None;
    }
    let a = trim_chars(after.as_slice());
    let b = strip_trailing_hashes(a.as_slice());
    let title = trim_chars(b.as_slice());
    if title.len() > 0 {
        Some(title)
    } else {
        None
    }
}

/// A slide's title: its first heading, else its first line of text, else
/// "Untitled Slide".
fn slide_title(source: &[char]) -> (r: String)
    ensures
        r@ == slide_title_of(source@),
{
    let ls = lines_chars(source);
    let ghost lv = ls.deep_view();
    let mut i: usize = 0;
    assert(lv.skip(0) =~= lv);
    while i < ls.len()
        invariant
            i <= ls@.len(),
            lv == ls.deep_view(),
            lv == lines(source@),
            first_heading_title(lv) == first_heading_title(lv.skip(i as int)),
        decreases ls@.len() - i,
    {
        assert(lv.skip(i as int).drop_first() =~= lv.skip(i + 1));
        assert(lv.skip(i as int)[0] == ls[i as int]@);
        match heading_title(ls[i].as_slice()) {
            Some(t) => {
                return string_of(t.as_slice());
            },
            None => {},
        }
        i = i + 1;
    }
    assert(lv.skip(ls@.len() as int) =~= Seq::<Seq<char>>::empty());
    let mut j: usize = 0;
    while j < ls.len()
        invariant
            j <= ls@.len(),
            lv == ls.deep_view(),
            lv == lines(source@),
            first_heading_title(lv) is None,
            first_text_line(lv) == first_text_line(lv.skip(j as int)),
        decreases ls@.len() - j,
    {
        assert(lv.skip(j as int).drop_first() =~= lv.skip(j + 1));
        assert(lv.skip(j as int)[0] == ls[j as int]@);
        let t = trim_chars(ls[j].as_slice());
        if t.len() > 0 {
            return string_of(t.as_slice());
        }
        j = j + 1;
    }
    assert(lv.skip(ls@.len() as int) =~= Seq::<Seq<char>>::empty());
    "Untitled Slide".to_owned()
}

/// The slide sources of `source`, cut as `slide_chunks_of` says.
fn slide_chunks(source: &[char]) -> (r: Vec<Vec<char>>)
    ensures
        r.deep_view() == slide_chunks_of(source@),
{
    let pieces = split_inclusive_chars(source);
    let ghost pv = pieces.deep_view();
    let mut chunks: Vec<Vec<char>> = Vec::new();
    let mut current: Vec<char> = Vec::new();
    let mut found = false;
    let mut i: usize = 0;
    assert(pv.take(0) =~= Seq::<Seq<char>>::empty());
    assert(chunks.deep_view() =~= Seq::<Seq<char>>::empty());
    while i < pieces.len()
        invariant
            i <= pieces@.len(),
            pv == pieces.deep_view(),
            (chunks.deep_view(), current@, found) == rule_split(pv.take(i as int)),
        decreases pieces@.len() - i,
    {
        assert(pv.take(i + 1).drop_last() =~= pv.take(i as int));
        assert(pv.take(i + 1).last() == pieces[i as int]@);
        if is_slide_rule(pieces[i].as_slice()) {
            found = true;
            if close_chunk(&mut chunks, &current) {
                current = Vec::new();
            }
        } else {
            extend_chars(&mut current, pieces[i].as_slice());
        }
        i = i + 1;
    }
    assert(pv.take(pieces@.len() as int) =~= pv);
    if found {
        close_chunk(&mut chunks, &current);
        return chunks;
    }
    let mut chunks: Vec<Vec<char>> = Vec::new();
    let mut current: Vec<char> = Vec::new();
    let mut i: usize = 0;
    assert(chunks.deep_view() =~= Seq::<Seq<char>>::empty());
    while i < pieces.len()
        invariant
            i <= pieces@.len(),
            pv == pieces.deep_view(),
            (chunks.deep_view(), current@) == heading_split(pv.take(i as int)),
        decreases pieces@.len() - i,
    {
        assert(pv.take(i + 1).drop_last() =~= pv.take(i as int));
        assert(pv.take(i + 1).last() == pieces[i as int]@);
        let line = pieces[i].as_slice();
        if is_top_level_heading(line) && !is_blank(current.as_slice()) {
            close_chunk(&mut chunks, &current);
            current = slice_chars(line, 0, line.len());
        } else {
            extend_chars(&mut current, line);
        }
        i = i + 1;
    }
    close_chunk(&mut chunks, &current);
    chunks
}

impl PresentationDeck {
    /// The slides of a Markdown document: cut at `---`, `***` or `___`
    /// lines when it has any, else before each level-one heading.
    pub fn from_markdown(source: &str) -> (deck: PresentationDeck)
        ensures
            deck@ == deck_of(source@),
    {
        let cs = chars_of(source);
        let chunks = slide_chunks(cs.as_slice());
        let ghost cv = chunks.deep_view();
        let mut slides: Vec<Slide> = Vec::new();
        let mut i: usize = 0;
        while i < chunks.len()
            invariant
                i <= chunks@.len(),
                cv == chunks.deep_view(),
                cv == slide_chunks_of(source@),
                slides.deep_view() =~= cv.take(i as int).map_values(
                    |chunk: Seq<char>| (slide_title_of(chunk), chunk),
                ),
            decreases chunks@.len() - i,
        {
            let ghost before = slides.deep_view();
            assert(cv[i as int] == chunks[i as int]@);
            let slide = Slide {
                title: slide_title(chunks[i].as_slice()),
                source: string_of(chunks[i].as_slice()),
            };
            slides.push(slide);
            assert(slides.deep_view() =~= before.push(slide.deep_view()));
            assert(cv.take(i + 1) =~= cv.take(i as int).push(cv[i as int]));
            i = i + 1;
        }
        assert(cv.take(chunks@.len() as int) =~= cv);
        PresentationDeck { slides }
    }

    /// The slides, in order.
    pub fn slides(&self) -> (r: &[Slide])
        ensures
            r.deep_view() == self@,
    {
        self.slides.as_slice()
    }

    /// The number of slides.
    pub fn len(&self) -> (r: usize)
        ensures
            r == self@.len(),
    {
        self.slides.len()
    }

    /// Whether there are no slides.
    pub fn is_empty(&self) -> (r: bool)
        ensures
            r == (self@.len() == 0),
    {
        self.slides.len() == 0
    }
}

/// The slides of a Markdown document.
pub fn presentation_deck(source: &str) -> (deck: PresentationDeck)
    ensures
        deck@ == deck_of(source@),
{
    PresentationDeck::from_markdown(source)
}


/// Chunks that all hold at least one character.
pub open spec fn all_nonempty(chunks: Seq<Seq<char>>) -> bool {
    forall|i: int| 0 <= i < chunks.len() ==> (#[trigger] chunks[i]).len() > 0
}

proof fn lemma_rule_split_nonempty(pieces: Seq<Seq<char>>)
    ensures
        all_nonempty(rule_split(pieces).0),
    decreases pieces.len(),
{
    if pieces.len() > 0 {
        lemma_rule_split_nonempty(pieces.drop_last());
    }
}

proof fn lemma_heading_split_nonempty(pieces: Seq<Seq<char>>)
    ensures
        all_nonempty(heading_split(pieces).0),
    decreases pieces.len(),
{
    if pieces.len() > 0 {
        lemma_heading_split_nonempty(pieces.drop_last());
    }
}

proof fn lemma_first_heading_nonempty(ls: Seq<Seq<char>>)
    ensures
        first_heading_title(ls) matches Some(t) ==> t.len() > 0,
    decreases ls.len(),
{
    if ls.len() > 0 {
        lemma_first_heading_nonempty(ls.drop_first());
    }
}

proof fn lemma_first_text_nonempty(ls: Seq<Seq<char>>)
    ensures
        first_text_line(ls) matches Some(t) ==> t.len() > 0,
    decreases ls.len(),
{
    if ls.len() > 0 {
        lemma_first_text_nonempty(ls.drop_first());
    }
}

/// No slide is empty: every slide of a document has a title and a source of
/// at least one character each.
pub proof fn lemma_slides_are_never_empty(source: Seq<char>)
    ensures
        forall|i: int|
            0 <= i < deck_of(source).len() ==> (#[trigger] deck_of(source)[i]).0.len() > 0 && deck_of(source)[i].1.len()
                > 0,
{
    let pieces = split_inclusive(source);
    lemma_rule_split_nonempty(pieces);
    lemma_heading_split_nonempty(pieces);
    let chunks = slide_chunks_of(source);
    assert(all_nonempty(chunks));
    reveal_strlit("Untitled Slide");
    assert forall|i: int| 0 <= i < deck_of(source).len() implies (#[trigger] deck_of(source)[i]).0.len() > 0
        && deck_of(source)[i].1.len() > 0 by {
        let chunk = chunks[i];
        lemma_first_heading_nonempty(lines(chunk));
        lemma_first_text_nonempty(lines(chunk));
        assert(deck_of(source)[i] == (slide_title_of(chunk), chunk));
    }
}

} // verus!
