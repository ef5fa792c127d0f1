use vstd::prelude::*;

use crate::text::{
    chars_of, find, find_chars, first_of, lines, lines_chars, push_str, slice_chars, string_of,
    trim, trim_chars, trim_str,
};

verus! {

/// What `str::to_lowercase` gives for a text: Unicode's lowercase mapping,
/// with the final-sigma rule.
pub uninterp spec fn str_lowercase(s: Seq<char>) -> Seq<char>;

/// `str::to_lowercase`. Trusted: the mapping is Unicode's and is named here,
/// not stated.
#[verifier::external_body]
pub(crate) fn to_lowercase(s: &str) -> (r: String)
    ensures
        r@ == str_lowercase(s@),
{
    s.to_lowercase()
}

/// A line of a document that holds the query.
#[derive(Debug, Clone, PartialEq, Eq)]
pub struct SearchMatch {
    pub line_index: usize,
    pub column: usize,
    pub line: String,
}

impl DeepView for SearchMatch {
    type V = (usize, usize, Seq<char>);

    open spec fn deep_view(&self) -> (usize, usize, Seq<char>) {
        (self.line_index, self.column, self.line@)
    }
}

/// The number of UTF-8 bytes of a character.
pub open spec fn utf8_width_of(c: char) -> nat {
    vstd::utf8::encode_utf8(seq![c]).len()
}

/// How many characters, from the start of `s`, lie wholly within its first
/// `b` UTF-8 bytes: where `b` falls between two characters, the number of
/// characters before it.
pub open spec fn chars_within(s: Seq<char>, b: int) -> nat
    decreases s.len(),
{
    if s.len() > 0 && utf8_width_of(s[0]) <= b {
        1 + chars_within(s.drop_first(), b - utf8_width_of(s[0]))
    } else {
        0
    }
}

/// Where a match found at character `found` of the lowercased line lies in
/// the line itself: the characters of the line before the byte offset of the
/// match in the lowercased line.
pub open spec fn match_column(line: Seq<char>, found: nat) -> nat {
    chars_within(line, crate::highlight::byte_offset(str_lowercase(line), found as int) as int)
}

/// The match on one line, if the lowercased line holds `needle`: the line's
/// index, where in the line the first occurrence lies, and the line.
pub open spec fn line_match(index: int, line: Seq<char>, needle: Seq<char>) -> Seq<(usize, usize, Seq<char>)> {
    match find(str_lowercase(line), needle) {
        Some(found) => seq![(index as usize, match_column(line, found) as usize, line)],
        None => Seq::empty(),
    }
}

/// How many characters of `cs` lie wholly within its first `b` bytes.
fn count_chars_within(cs: &[char], b: usize) -> (r: usize)
    ensures
        r == chars_within(cs@, b as int),
{
    let mut k: usize = 0;
    let mut left: usize = b;
    assert(cs@.skip(0) =~= cs@);
    while k < cs.len()
        invariant
            k <= cs@.len(),
            left <= b,
            chars_within(cs@, b as int) == k + chars_within(cs@.skip(k as int), left as int),
        decreases cs@.len() - k,
    {
        let w = crate::highlight::utf8_width(cs[k]);
        assert(cs@.skip(k as int)[0] == cs@[k as int]);
        assert(cs@.skip(k as int).drop_first() =~= cs@.skip(k + 1));
        if w > left {
            return k;
        }
        left = left - w;
        k = k + 1;
    }
    assert(cs@.skip(k as int) =~= Seq::<char>::empty());
    k
}

/// The matches over the first lines of a document, in order.
pub open spec fn matches_in(ls: Seq<Seq<char>>, needle: Seq<char>) -> Seq<(usize, usize, Seq<char>)>
    decreases ls.len(),
{
    if ls.len() == 0 {
        Seq::empty()
    } else {
        matches_in(ls.drop_last(), needle) + line_match(ls.len() - 1, ls.last(), needle)
    }
}

/// Case-insensitive search of `source` for `query`, line by line: no
/// matches for a blank query.
pub open spec fn search_of(source: Seq<char>, query: Seq<char>) -> Seq<(usize, usize, Seq<char>)> {
    if trim(query).len() == 0 {
        Seq::empty()
    } else {
        matches_in(lines(source), str_lowercase(trim(query)))
    }
}

/// The matches over lines `ls` name, in increasing order, exactly the lines
/// that hold `needle` once lowercased, each with its text and the first
/// position of `needle` in it.
proof fn lemma_matches_in_exact(ls: Seq<Seq<char>>, needle: Seq<char>)
    requires
        ls.len() <= usize::MAX,
    ensures
        ({
            let r = matches_in(ls, needle);
            &&& forall|k: int|
                0 <= k < r.len() ==> (#[trigger] r[k]).0 < ls.len() && r[k].2 == ls[r[k].0 as int] && (find(
                    str_lowercase(r[k].2),
                    needle,
                ) matches Some(c) && r[k].1 == match_column(r[k].2, c) as usize)
            &&& forall|a: int, b: int| 0 <= a < b < r.len() ==> r[a].0 < r[b].0
            &&& forall|i: int|
                0 <= i < ls.len() && find(str_lowercase(#[trigger] ls[i]), needle) is Some ==> exists|k: int|
                    0 <= k < r.len() && r[k].0 == i
        }),
    decreases ls.len(),
{
    if ls.len() > 0 {
        let init = ls.drop_last();
        lemma_matches_in_exact(init, needle);
        let before = matches_in(init, needle);
        let last = line_match(ls.len() - 1, ls.last(), needle);
        let r = matches_in(ls, needle);
        assert(r == before + last);
        assert forall|k: int| 0 <= k < r.len() implies (#[trigger] r[k]).0 < ls.len() && r[k].2 == ls[r[k].0 as int]
            && (find(str_lowercase(r[k].2), needle) matches Some(c) && r[k].1 == match_column(r[k].2, c) as usize) by {
            if k < before.len() {
                assert(r[k] == before[k]);
                assert(init[before[k].0 as int] == ls[before[k].0 as int]);
            } else {
                assert(r[k] == last[k - before.len()]);
            }
        }
        assert forall|a: int, b: int| 0 <= a < b < r.len() implies r[a].0 < r[b].0 by {
            if b < before.len() {
                assert(r[a] == before[a] && r[b] == before[b]);
            } else {
                assert(r[b] == last[b - before.len()]);
                if a < before.len() {
                    assert(r[a] == before[a]);
                } else {
                    assert(r[a] == last[a - before.len()]);
                }
            }
        }
        assert forall|i: int| 0 <= i < ls.len() && find(str_lowercase(#[trigger] ls[i]), needle) is Some implies exists|k: int|
            0 <= k < r.len() && r[k].0 == i by {
            if i < init.len() {
                assert(init[i] == ls[i]);
                let k = choose|k: int| 0 <= k < before.len() && before[k].0 == i;
                assert(r[k] == before[k]);
            } else {
                assert(r[before.len() as int] == last[0]);
            }
        }
    }
}

/// In-document search finds, in order, exactly the lines that hold the
/// query once both are lowercased (the query trimmed first): each match
/// names its line, carries that line's text and where in it the first
/// occurrence lies, and no line that holds it is left out. A blank query finds
/// nothing.
pub proof fn lemma_search_finds_exactly_matching_lines(source: Seq<char>, query: Seq<char>)
    requires
        lines(source).len() <= usize::MAX,
    ensures
        trim(query).len() == 0 ==> search_of(source, query).len() == 0,
        trim(query).len() > 0 ==> ({
            let ls = lines(source);
            let needle = str_lowercase(trim(query));
            let r = search_of(source, query);
            &&& forall|k: int|
                0 <= k < r.len() ==> (#[trigger] r[k]).0 < ls.len() && r[k].2 == ls[r[k].0 as int] && (find(
                    str_lowercase(r[k].2),
                    needle,
                ) matches Some(c) && r[k].1 == match_column(r[k].2, c) as usize)
            &&& forall|a: int, b: int| 0 <= a < b < r.len() ==> r[a].0 < r[b].0
            &&& forall|i: int|
                0 <= i < ls.len() && find(str_lowercase(#[trigger] ls[i]), needle) is Some ==> exists|k: int|
                    0 <= k < r.len() && r[k].0 == i
        }),
{
    if trim(query).len() > 0 {
        lemma_matches_in_exact(lines(source), str_lowercase(trim(query)));
    }
}

/// Search ignores the case of the query: two queries that lowercase alike,
/// once trimmed, find the same matches.
pub proof fn lemma_search_ignores_query_case(source: Seq<char>, q1: Seq<char>, q2: Seq<char>)
    requires
        trim(q1).len() > 0,
        trim(q2).len() > 0,
        str_lowercase(trim(q1)) == str_lowercase(trim(q2)),
    ensures
        search_of(source, q1) == search_of(source, q2),
{
}

/// Every line of `source` that holds `query`, ignoring case and the
/// query's surrounding whitespace; the column counts the characters of the
/// line before the first occurrence's byte offset in the lowercased line.
pub fn search_lines(source: &str, query: &str) -> (matches: Vec<SearchMatch>)
    ensures
        matches.deep_view() == search_of(source@, query@),
{
    let needle = trim_str(query);
    if needle.as_str().is_empty() {
        proof {
            broadcast use vstd::string::group_string_axioms;
        }
        return Vec::new();
    }
    proof {
        broadcast use vstd::string::group_string_axioms;
    }
    let needle = to_lowercase(needle.as_str());
    let needle_chars = chars_of(needle.as_str());
    let cs = chars_of(source);
    let ls = lines_chars(cs.as_slice());
    let ghost lv = ls.deep_view();
    let mut out: Vec<SearchMatch> = Vec::new();
    let mut i: usize = 0;
    assert(lv.take(0) =~= Seq::<Seq<char>>::empty());
    while i < ls.len()
        invariant
            i <= ls@.len(),
            lv == ls.deep_view(),
            lv == lines(source@),
            needle_chars@ == str_lowercase(trim(query@)),
            out.deep_view() == matches_in(lv.take(i as int), needle_chars@),
        decreases ls@.len() - i,
    {
        assert(lv.take(i + 1).drop_last() =~= lv.take(i as int));
        assert(ls[i as int].deep_view() =~= ls[i as int]@);
        let line = string_of(ls[i].as_slice());
        let lower = to_lowercase(line.as_str());
        let lower_chars = chars_of(lower.as_str());
        let ghost before = out.deep_view();
        match find_chars(lower_chars.as_slice(), needle_chars.as_slice()) {
            Some(found) => {
                let offsets = crate::highlight::byte_offsets(lower.as_str(), lower_chars.as_slice());
                proof {
                    crate::text::lemma_find_from(lower_chars@, needle_chars@, 0);
                }
                let column = count_chars_within(ls[i].as_slice(), offsets[found]);
                let m = SearchMatch { line_index: i, column, line };
                out.push(m);
                assert(out.deep_view() =~= before + seq![m.deep_view()]);
            },
            None => {
                assert(before + Seq::<(usize, usize, Seq<char>)>::empty() =~= before);
            },
        }
        i = i + 1;
    }
    assert(lv.take(ls@.len() as int) =~= lv);
    out
}

/// A match that `rg --vimgrep` reported: file, one-based line and column, and
/// the text after the column.
#[derive(Debug, Clone, PartialEq, Eq)]
pub struct WorkspaceSearchMatch {
    pub path: String,
    pub line_number: usize,
    pub column: usize,
    pub line: String,
}

impl DeepView for WorkspaceSearchMatch {
    type V = (Seq<char>, usize, usize, Seq<char>);

    open spec fn deep_view(&self) -> (Seq<char>, usize, usize, Seq<char>) {
        (self.path@, self.line_number, self.column, self.line@)
    }
}

/// Why a workspace search failed.
#[derive(Debug, Clone, PartialEq, Eq)]
pub enum WorkspaceSearchError {
    RipgrepFailed { message: String },
    RipgrepExited { status: String, stderr: String },
    InvalidOutput { line: String },
}

impl WorkspaceSearchError {
    /// The error as one line of text.
    pub fn message(&self) -> (r: String)
        ensures
            r@ == match self {
                WorkspaceSearchError::RipgrepFailed { message } => "failed to run rg: "@ + message@,
                WorkspaceSearchError::RipgrepExited { status, stderr } => if stderr@.len() == 0 {
                    "rg exited with "@ + status@
                } else {
                    "rg exited with "@ + status@ + ": "@ + stderr@
                },
                WorkspaceSearchError::InvalidOutput { line } => "invalid rg output line: "@ + line@,
            },
    {
        let mut out = String::new();
        match self {
            WorkspaceSearchError::RipgrepFailed { message } => {
                push_str(&mut out, "failed to run rg: ");
                push_str(&mut out, message.as_str());
            },
            WorkspaceSearchError::RipgrepExited { status, stderr } => {
                push_str(&mut out, "rg exited with ");
                push_str(&mut out, status.as_str());
                if !stderr.as_str().is_empty() {
                    push_str(&mut out, ": ");
                    push_str(&mut out, stderr.as_str());
                }
            },
            WorkspaceSearchError::InvalidOutput { line } => {
                push_str(&mut out, "invalid rg output line: ");
                push_str(&mut out, line.as_str());
            },
        }
        out
    }
}

/// The value of an ASCII digit.
pub open spec fn digit_value(c: char) -> nat {
    (c as nat - '0' as nat) as nat
}

/// Whether every character of `s` is an ASCII digit.
pub open spec fn all_digits(s: Seq<char>) -> bool {
    forall|i: int| 0 <= i < s.len() ==> '0' <= #[trigger] s[i] <= '9'
}

/// The number that the digits of `s` write, in decimal.
pub open spec fn digits_value(s: Seq<char>) -> nat
    decreases s.len(),
{
    if s.len() == 0 {
        0
    } else {
        digits_value(s.drop_last()) * 10 + digit_value(s.last())
    }
}

/// `str::parse::<usize>`: an optional `+`, then one or more ASCII digits
/// whose value fits in `usize`.
pub open spec fn parse_usize_of(s: Seq<char>) -> Option<usize> {
    let digits = if s.len() > 0 && s[0] == '+' {
        s.drop_first()
    } else {
        s
    };
    if digits.len() > 0 && all_digits(digits) && digits_value(digits) <= usize::MAX {
        Some(digits_value(digits) as usize)
    } else {
        None
    }
}

/// Parses a decimal `usize` as `str::parse` does.
pub fn parse_usize(s: &[char]) -> (r: Option<usize>)
    ensures
        r == parse_usize_of(s@),
{
    let start: usize = if s.len() > 0 && s[0] == '+' {
        1
    } else {
        0
    };
    let ghost digits = if s@.len() > 0 && s@[0] == '+' {
        s@.drop_first()
    } else {
        s@
    };
    assert(digits =~= s@.skip(start as int));
    if start == s.len() {
        return None;
    }
    let mut value: usize = 0;
    let mut i = start;
    assert(digits.take(0) =~= Seq::<char>::empty());
    while i < s.len()
        invariant
            start <= i <= s@.len(),
            digits == s@.skip(start as int),
            digits == (if s@.len() > 0 && s@[0] == '+' {
                s@.drop_first()
            } else {
                s@
            }),
            all_digits(digits.take(i - start)),
            value as nat == digits_value(digits.take(i - start)),
        decreases s@.len() - i,
    {
        let c = s[i];
        assert(digits.take(i - start + 1).drop_last() =~= digits.take(i - start));
        assert(digits[i - start] == c);
        if !('0' <= c && c <= '9') {
            assert(!all_digits(digits));
            return None;
        }
        let d = (c as u32 - '0' as u32) as usize;
        if value > (usize::MAX - d) / 10 {
            proof {
                lemma_digits_value_grows(digits, (i - start + 1) as int);
                assert(value * 10 + d > usize::MAX) by (nonlinear_arith)
                    requires
                        value > (usize::MAX - d) / 10,
                        d <= 9,
                ;
            }
            return None;
        }
        assert(value * 10 + d <= usize::MAX) by (nonlinear_arith)
            requires
                value <= (usize::MAX - d) / 10,
                d <= 9,
        ;
        value = value * 10 + d;
        proof {
            assert forall|j: int| 0 <= j < i - start + 1 implies '0' <= #[trigger] digits.take(i - start + 1)[j] <= '9' by {
                if j < i - start {
                    assert(digits.take(i - start + 1)[j] == digits.take(i - start)[j]);
                }
            }
        }
        i = i + 1;
    }
    assert(digits.take(s@.len() - start) =~= digits);
    Some(value)
}

/// Digit values only grow as digits are added.
proof fn lemma_digits_value_grows(s: Seq<char>, k: int)
    requires
        0 <= k <= s.len(),
    ensures
        digits_value(s.take(k)) <= digits_value(s),
    decreases s.len() - k,
{
    if k < s.len() {
        lemma_digits_value_grows(s, k + 1);
        assert(s.take(k + 1).drop_last() =~= s.take(k));
        assert(digits_value(s.take(k)) <= digits_value(s.take(k)) * 10) by (nonlinear_arith);
    } else {
        assert(s.take(k) =~= s);
    }
}

/// One line of `rg --vimgrep` output split as `splitn(4, ':')` splits it:
/// file, line number, column and text, or nothing when a part is missing or
/// a number does not parse.
pub open spec fn vimgrep_line_of(line: Seq<char>) -> Option<(Seq<char>, usize, usize, Seq<char>)> {
    match first_of(line, ':') {
        None => None,
        Some(a) => {
            let rest = line.skip(a + 1int);
            match first_of(rest, ':') {
                None => None,
                Some(b) => {
                    let rest2 = rest.skip(b + 1int);
                    match first_of(rest2, ':') {
                        None => None,
                        Some(c) => match (parse_usize_of(rest.take(b as int)), parse_usize_of(rest2.take(c as int))) {
                            (Some(n), Some(col)) => Some((line.take(a as int), n, col, rest2.skip(c + 1int))),
                            _ => None,
                        },
                    }
                },
            }
        },
    }
}

/// The result of parsing each line of `rg --vimgrep` output, from the
/// first line: the matches, or the first line that does not parse.
pub open spec fn vimgrep_of(ls: Seq<Seq<char>>) -> Result<Seq<(Seq<char>, usize, usize, Seq<char>)>, Seq<char>>
    decreases ls.len(),
{
    if ls.len() == 0 {
        Ok(Seq::empty())
    } else {
        match vimgrep_line_of(ls[0]) {
            None => Err(ls[0]),
            Some(m) => match vimgrep_of(ls.drop_first()) {
                Ok(rest) => Ok(seq![m] + rest),
                Err(line) => Err(line),
            },
        }
    }
}

/// The position of the first `:` in `s` at or after `from`.
fn find_colon(s: &[char], from: usize) -> (r: Option<usize>)
    requires
        from <= s@.len(),
    ensures
        match r {
            Some(i) => from <= i < s@.len() && first_of(s@.skip(from as int), ':') == Some((i - from) as nat),
            None => first_of(s@.skip(from as int), ':') is None,
        },
{
    let mut i = from;
    while i < s.len() && s[i] != ':'
        invariant
            from <= i <= s@.len(),
            forall|j: int| from <= j < i ==> s@[j] != ':',
        decreases s@.len() - i,
    {
        i = i + 1;
    }
    proof {
        let rest = s@.skip(from as int);
        assert forall|j: int| 0 <= j < i - from implies rest[j] != ':' by {
            assert(rest[j] == s@[from + j]);
        }
        crate::text::lemma_first_of(rest, ':', i - from);
    }
    if i < s.len() {
        Some(i)
    } else {
        None
    }
}

/// Parses one line of `rg --vimgrep` output.
pub fn parse_ripgrep_line(line: &[char]) -> (r: Result<WorkspaceSearchMatch, WorkspaceSearchError>)
    ensures
        match vimgrep_line_of(line@) {
            Some(m) => r matches Ok(found) && found.deep_view() == m,
            None => r matches Err(WorkspaceSearchError::InvalidOutput { line: l }) && l@ == line@,
        },
{
    let invalid = WorkspaceSearchError::InvalidOutput { line: string_of(line) };
    let len = line.len();
    let found_a = find_colon(line, 0);
    let a = match found_a {
        Some(a) => {
            assert(a < line@.len());
            a
        },
        None => {
            assert(line@.skip(0) =~= line@);
            return Err(invalid);
        },
    };
    assert(line@.skip(0) =~= line@);
    let b = match find_colon(line, a + 1) {
        Some(b) => b,
        None => return Err(invalid),
    };
    let c = match find_colon(line, b + 1) {
        Some(c) => c,
        None => {
            assert(line@.skip(a + 1).skip((b - a) as int) =~= line@.skip(b + 1));
            return Err(invalid);
        },
    };
    let ghost rest = line@.skip(a + 1);
    let ghost rest2 = rest.skip((b - a) as int);
    assert(rest2 =~= line@.skip(b + 1));
    let number_part = slice_chars(line, a + 1, b);
    let column_part = slice_chars(line, b + 1, c);
    assert(number_part@ =~= rest.take((b - a - 1) as int));
    assert(column_part@ =~= rest2.take((c - b - 1) as int));
    let line_number = match parse_usize(number_part.as_slice()) {
        Some(n) => n,
        None => return Err(invalid),
    };
    let column = match parse_usize(column_part.as_slice()) {
        Some(n) => n,
        None => return Err(invalid),
    };
    let path_part = slice_chars(line, 0, a);
    let text_part = slice_chars(line, c + 1, line.len());
    assert(path_part@ =~= line@.take(a as int));
    assert(text_part@ =~= rest2.skip((c - b) as int));
    Ok(WorkspaceSearchMatch {
        path: string_of(path_part.as_slice()),
        line_number,
        column,
        line: string_of(text_part.as_slice()),
    })
}

/// Parses the whole output of `rg --vimgrep`, line by line; the first line
/// that does not parse is the error.
pub fn parse_ripgrep_vimgrep(raw: &str) -> (r: Result<Vec<WorkspaceSearchMatch>, WorkspaceSearchError>)
    ensures
        match vimgrep_of(lines(raw@)) {
            Ok(ms) => r matches Ok(found) && found.deep_view() == ms,
            Err(bad) => r matches Err(WorkspaceSearchError::InvalidOutput { line }) && line@ == bad,
        },
{
    let cs = chars_of(raw);
    let ls = lines_chars(cs.as_slice());
    let ghost lv = ls.deep_view();
    let mut out: Vec<WorkspaceSearchMatch> = Vec::new();
    let mut i: usize = 0;
    assert(lv.skip(0) =~= lv);
    assert(out.deep_view() =~= Seq::<(Seq<char>, usize, usize, Seq<char>)>::empty());
    while i < ls.len()
        invariant
            i <= ls@.len(),
            lv == ls.deep_view(),
            lv == lines(raw@),
            vimgrep_of(lv) == match vimgrep_of(lv.skip(i as int)) {
                Ok(rest) => Ok(out.deep_view() + rest),
                Err(line) => Err(line),
            },
        decreases ls@.len() - i,
    {
        assert(lv.skip(i as int)[0] == lv[i as int]);
        assert(lv.skip(i as int).drop_first() =~= lv.skip(i + 1));
        assert(ls[i as int].deep_view() =~= ls[i as int]@);
        match parse_ripgrep_line(ls[i].as_slice()) {
            Ok(m) => {
                let ghost before = out.deep_view();
                out.push(m);
                proof {
                    assert(out.deep_view() =~= before.push(m.deep_view()));
                    match vimgrep_of(lv.skip(i + 1)) {
                        Ok(rest) => {
                            assert(before + (seq![m.deep_view()] + rest) =~= out.deep_view() + rest);
                        },
                        Err(_) => {},
                    }
                }
            },
            Err(e) => {
                return Err(e);
            },
        }
        i = i + 1;
    }
    assert(lv.skip(ls@.len() as int) =~= Seq::<Seq<char>>::empty());
    assert(out.deep_view() + Seq::<(Seq<char>, usize, usize, Seq<char>)>::empty() =~= out.deep_view());
    Ok(out)
}

/// The query that a workspace search runs: `query` trimmed, or nothing to
/// run for a blank query.
pub fn workspace_search_query(query: &str) -> (r: Option<String>)
    ensures
        trim(query@).len() == 0 ==> r is None,
        trim(query@).len() != 0 ==> (r matches Some(q) && q@ == trim(query@)),
{
    let q = trim_str(query);
    proof {
        broadcast use vstd::string::group_string_axioms;
    }
    if q.as_str().is_empty() {
        None
    } else {
        Some(q)
    }
}

/// What a finished `rg` run means: its matches when it succeeded or found
/// nothing (exit code 1), else the exit status with the trimmed error text.
pub fn workspace_search_outcome(
    success: bool,
    exit_code: Option<i32>,
    status: &str,
    stdout: &str,
    stderr: &str,
) -> (r: Result<Vec<WorkspaceSearchMatch>, WorkspaceSearchError>)
    ensures
        (success || exit_code == Some(1i32)) ==> match vimgrep_of(lines(stdout@)) {
            Ok(ms) => r matches Ok(found) && found.deep_view() == ms,
            Err(bad) => r matches Err(WorkspaceSearchError::InvalidOutput { line }) && line@ == bad,
        },
        !(success || exit_code == Some(1i32)) ==> (r matches Err(
            WorkspaceSearchError::RipgrepExited { status: s, stderr: e },
        ) && s@ == status@ && e@ == trim(stderr@)),
{
    let found_nothing = match exit_code {
        Some(code) => code == 1,
        None => false,
    };
    if success || found_nothing {
        parse_ripgrep_vimgrep(stdout)
    } else {
        Err(
            WorkspaceSearchError::RipgrepExited {
                status: status.to_owned(),
                stderr: trim_str(stderr),
            },
        )
    }
}

} // verus!
