use vstd::prelude::*;

use crate::parser::{HeadingLevel, ParsedDocument, TocItem, TocView, toc_of};
use crate::text::{chars_of, lines, lines_chars};

verus! {

/// Reading speed behind the reading-time estimate, in words per minute.
pub const WORDS_PER_MINUTE: usize = 200;

/// What `char::is_alphanumeric` says of `c`: Unicode's Alphabetic or Numeric.
pub uninterp spec fn char_alphanumeric(c: char) -> bool;

/// `char::is_alphanumeric`. Trusted: the Unicode tables are named, not stated.
#[verifier::external_body]
pub(crate) fn is_alphanumeric(c: char) -> (r: bool)
    ensures
        r == char_alphanumeric(c),
{
    c.is_alphanumeric()
}

/// Counts and headings of a document.
#[derive(Debug, Clone, PartialEq, Eq)]
pub struct DocumentStats {
    pub word_count: usize,
    pub line_count: usize,
    pub character_count: usize,
    pub heading_count: usize,
    pub estimated_reading_minutes: usize,
    pub headings: Vec<StatsHeading>,
}

/// A heading as the statistics list it: its depth and title.
#[derive(Debug, Clone, PartialEq, Eq)]
pub struct StatsHeading {
    pub depth: u8,
    pub title: String,
}

impl DeepView for StatsHeading {
    type V = (u8, Seq<char>);

    open spec fn deep_view(&self) -> (u8, Seq<char>) {
        (self.depth, self.title@)
    }
}

/// Whether `c` separates words: neither alphanumeric nor an apostrophe.
pub open spec fn is_word_separator(c: char) -> bool {
    !char_alphanumeric(c) && c != '\''
}

/// Words over a prefix: how many finished or open pieces hold an
/// alphanumeric character, and whether the open piece holds one.
pub open spec fn word_state(s: Seq<char>) -> (nat, bool)
    decreases s.len(),
{
    if s.len() == 0 {
        (0, false)
    } else {
        let (n, open_has_alnum) = word_state(s.drop_last());
        let c = s.last();
        if is_word_separator(c) {
            (n, false)
        } else if char_alphanumeric(c) && !open_has_alnum {
            (n + 1, true)
        } else {
            (n, open_has_alnum)
        }
    }
}

/// The number of words: pieces between separators that hold an
/// alphanumeric character.
pub open spec fn word_count_of(s: Seq<char>) -> nat {
    word_state(s).0
}

/// Minutes to read `words` words at `WORDS_PER_MINUTE`, rounded up.
pub open spec fn reading_minutes(words: nat) -> nat {
    ((words + WORDS_PER_MINUTE - 1) / WORDS_PER_MINUTE as int) as nat
}

/// The statistics heading for a table-of-contents entry.
pub open spec fn stats_heading_of(item: TocView) -> (u8, Seq<char>) {
    (item.level.depth(), item.title)
}

proof fn lemma_word_state_bound(s: Seq<char>)
    ensures
        word_state(s).0 <= s.len(),
    decreases s.len(),
{
    if s.len() > 0 {
        lemma_word_state_bound(s.drop_last());
    }
}

/// The number of words in `source`.
pub fn word_count(source: &[char]) -> (n: usize)
    ensures
        n == word_count_of(source@),
{
    let mut n: usize = 0;
    let mut open_has_alnum = false;
    let mut i: usize = 0;
    assert(source@.take(0) =~= Seq::<char>::empty());
    while i < source.len()
        invariant
            i <= source@.len(),
            (n as nat, open_has_alnum) == word_state(source@.take(i as int)),
        decreases source@.len() - i,
    {
        assert(source@.take(i + 1).drop_last() =~= source@.take(i as int));
        proof {
            lemma_word_state_bound(source@.take(i as int));
        }
        let c = source[i];
        let alnum = is_alphanumeric(c);
        if !alnum && c != '\'' {
            open_has_alnum = false;
        } else if alnum && !open_has_alnum {
            n = n + 1;
            open_has_alnum = true;
        }
        i = i + 1;
    }
    assert(source@.take(source@.len() as int) =~= source@);
    n
}

/// Minutes to read `word_count` words, rounded up; none for no words.
pub fn estimated_reading_minutes(word_count: usize) -> (m: usize)
    ensures
        m == reading_minutes(word_count as nat),
{
    let whole = word_count / WORDS_PER_MINUTE;
    if word_count % WORDS_PER_MINUTE == 0 {
        whole
    } else {
        whole + 1
    }
}

/// The statistics heading for a table-of-contents entry.
pub fn stats_heading(item: &TocItem) -> (h: StatsHeading)
    ensures
        h.deep_view() == stats_heading_of(item.deep_view()),
{
    StatsHeading { depth: item.level.as_depth(), title: item.title.clone() }
}

/// Statistics of a document: its words, lines, characters and headings,
/// and minutes to read it.
pub fn document_stats(source: &str, parsed: &ParsedDocument) -> (stats: DocumentStats)
    ensures
        stats.word_count == word_count_of(source@),
        stats.line_count == lines(source@).len(),
        stats.character_count == source@.len(),
        stats.heading_count == toc_of(parsed.deep_view()).len(),
        stats.estimated_reading_minutes == reading_minutes(word_count_of(source@)),
        stats.headings.deep_view() == toc_of(parsed.deep_view()).map_values(
            |item: TocView| stats_heading_of(item),
        ),
{
    let cs = chars_of(source);
    let words = word_count(cs.as_slice());
    let line_list = lines_chars(cs.as_slice());
    let toc = parsed.toc();
    let ghost toc_v = toc.deep_view();
    let mut headings: Vec<StatsHeading> = Vec::new();
    let mut i: usize = 0;
    while i < toc.len()
        invariant
            i <= toc@.len(),
            toc_v == toc.deep_view(),
            headings.deep_view() =~= toc_v.take(i as int).map_values(
                |item: TocView| stats_heading_of(item),
            ),
        decreases toc@.len() - i,
    {
        let ghost before = headings.deep_view();
        let h = stats_heading(&toc[i]);
        headings.push(h);
        assert(headings.deep_view() =~= before.push(h.deep_view()));
        assert(toc_v.take(i + 1) =~= toc_v.take(i as int).push(toc_v[i as int]));
        i = i + 1;
    }
    assert(toc_v.take(toc@.len() as int) =~= toc_v);
    let heading_count = headings.len();
    DocumentStats {
        word_count: words,
        line_count: line_list.len(),
        character_count: cs.len(),
        heading_count,
        estimated_reading_minutes: estimated_reading_minutes(words),
        headings,
    }
}

} // verus!
