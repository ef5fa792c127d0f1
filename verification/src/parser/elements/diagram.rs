use vstd::prelude::*;

use crate::text::{
    ascii_lower, ascii_upper, char_ascii_lower, char_ascii_upper, char_is_ws, chars_eq, chars_of,
    extend_chars, find, find_chars, is_ws, leading_ws, lemma_find_from, lines, lines_chars,
    seq_ascii_upper, slice_chars, starts_with, starts_with_chars, string_of, trim, trim_chars,
    trim_start,
};

verus! {

pub const MERMAID_LANGUAGE: &'static str = "mermaid";

pub open spec fn mermaid_seq() -> Seq<char> {
    seq!['m', 'e', 'r', 'm', 'a', 'i', 'd']
}

/// The length of the run of non-whitespace that starts `s`.
pub open spec fn word_len(s: Seq<char>) -> nat
    decreases s.len(),
{
    if s.len() == 0 || is_ws(s[0]) {
        0
    } else {
        1 + word_len(s.drop_first())
    }
}

/// The first whitespace-separated word of `s`, if there is one.
pub open spec fn first_word(s: Seq<char>) -> Option<Seq<char>> {
    let t = trim_start(s);
    if t.len() == 0 {
        None
    } else {
        Some(t.take(word_len(t) as int))
    }
}

/// Two sequences are equal when ASCII letters are compared without case.
pub open spec fn eq_ignore_ascii_case(a: Seq<char>, b: Seq<char>) -> bool {
    a.len() == b.len() && forall|i: int| 0 <= i < a.len() ==> ascii_lower(#[trigger] a[i]) == ascii_lower(b[i])
}

/// A fence info string names Mermaid when its first word is `mermaid`, in any ASCII case.
pub open spec fn is_mermaid_info(language: Option<Seq<char>>) -> bool {
    match language {
        Some(l) => match first_word(l) {
            Some(w) => eq_ignore_ascii_case(w, mermaid_seq()),
            None => false,
        },
        None => false,
    }
}

proof fn lemma_word_len_skip(s: Seq<char>, i: int)
    requires
        0 <= i <= s.len(),
        forall|j: int| 0 <= j < i ==> !is_ws(#[trigger] s[j]),
    ensures
        word_len(s) == i + word_len(s.skip(i)),
    decreases i,
{
    if i == 0 {
        assert(s.skip(0) =~= s);
    } else {
        assert(!is_ws(s[0]));
        assert(s.drop_first().skip(i - 1) =~= s.skip(i));
        assert forall|j: int| 0 <= j < i - 1 implies !is_ws(#[trigger] s.drop_first()[j]) by {
            assert(s.drop_first()[j] == s[j + 1]);
        }
        lemma_word_len_skip(s.drop_first(), i - 1);
    }
}

pub fn chars_eq_ignore_ascii_case(a: &[char], b: &[char]) -> (r: bool)
    ensures
        r == eq_ignore_ascii_case(a@, b@),
{
    if a.len() != b.len() {
        return false;
    }
    let mut i: usize = 0;
    while i < a.len()
        invariant
            i <= a@.len(),
            a@.len() == b@.len(),
            forall|j: int| 0 <= j < i ==> ascii_lower(#[trigger] a@[j]) == ascii_lower(b@[j]),
        decreases a@.len() - i,
    {
        if char_ascii_lower(a[i]) != char_ascii_lower(b[i]) {
            return false;
        }
        i = i + 1;
    }
    true
}

/// `is_mermaid` on a fence info string.
pub fn is_mermaid(language: Option<&str>) -> (r: bool)
    ensures
        r == is_mermaid_info(
            match language {
                Some(l) => Some(l@),
                None => None,
            },
        ),
{
    match language {
        None => false,
        Some(l) => {
            let cs = chars_of(l);
            let start = leading_ws(cs.as_slice());
            if start == cs.len() {
                return false;
            }
            let ghost t = cs@.skip(start as int);
            let mut end = start;
            while end < cs.len() && !char_is_ws(cs[end])
                invariant
                    start <= end <= cs@.len(),
                    forall|j: int| start <= j < end ==> !is_ws(#[trigger] cs@[j]),
                decreases cs@.len() - end,
            {
                end = end + 1;
            }
            proof {
                assert forall|j: int| 0 <= j < end - start implies !is_ws(#[trigger] t[j]) by {
                    assert(t[j] == cs@[start + j]);
                }
                lemma_word_len_skip(t, end - start);
                let rest = t.skip(end - start);
                if rest.len() > 0 {
                    assert(rest[0] == cs@[end as int]);
                }
            }
            let mut word: Vec<char> = Vec::new();
            let mut k = start;
            while k < end
                invariant
                    start <= k <= end <= cs@.len(),
                    word@ == cs@.subrange(start as int, k as int),
                decreases end - k,
            {
                word.push(cs[k]);
                assert(word@ =~= cs@.subrange(start as int, k + 1));
                k = k + 1;
            }
            assert(word@ =~= t.take(end - start));
            let m = chars_of(MERMAID_LANGUAGE);
            proof {
                reveal_strlit("mermaid");
                assert(m@ =~= mermaid_seq());
            }
            chars_eq_ignore_ascii_case(word.as_slice(), m.as_slice())
        },
    }
}

/// The source of a diagram: trimmed.
pub fn source(diagram_source: &str) -> (r: String)
    ensures
        r@ == trim(diagram_source@),
{
    let cs = chars_of(diagram_source);
    let t = trim_chars(cs.as_slice());
    string_of(t.as_slice())
}


/// The direction a flowchart is drawn in.
#[derive(Debug, Clone, Copy, PartialEq, Eq, Structural)]
pub enum FlowchartDirection {
    TopDown,
    BottomTop,
    LeftRight,
    RightLeft,
}

/// An arrow of a flowchart: the text of the two nodes, and its label.
#[derive(Debug, Clone, PartialEq, Eq)]
pub struct FlowchartEdge {
    pub from: String,
    pub to: String,
    pub label: Option<String>,
}

/// The value of a flowchart edge: its two ends and its label.
pub type EdgeView = (Seq<char>, Seq<char>, Option<Seq<char>>);

impl DeepView for FlowchartEdge {
    type V = EdgeView;

    open spec fn deep_view(&self) -> EdgeView {
        (self.from@, self.to@, self.label.deep_view())
    }
}

/// What a Mermaid flowchart shows in a plain preview: its direction and arrows.
#[derive(Debug, Clone, PartialEq, Eq)]
pub struct FlowchartPreview {
    pub direction: FlowchartDirection,
    pub edges: Vec<FlowchartEdge>,
}

/// `str::split_once`: the text before the first `pat` and the text after it.
pub open spec fn split_once_of(s: Seq<char>, pat: Seq<char>) -> Option<(Seq<char>, Seq<char>)> {
    match find(s, pat) {
        Some(i) => Some((s.take(i as int), s.skip(i + pat.len() as int))),
        None => None,
    }
}

/// `s` without the copies of `c` that end it.
pub open spec fn trim_end_char(s: Seq<char>, c: char) -> Seq<char>
    decreases s.len(),
{
    if s.len() > 0 && s.last() == c {
        trim_end_char(s.drop_last(), c)
    } else {
        s
    }
}

/// `s` without the copies of `c` that start it.
pub open spec fn trim_start_char(s: Seq<char>, c: char) -> Seq<char>
    decreases s.len(),
{
    if s.len() > 0 && s[0] == c {
        trim_start_char(s.drop_first(), c)
    } else {
        s
    }
}

/// A character that frames a node's label: brackets, braces, slashes,
/// quotes and spaces.
pub open spec fn is_shape_char(c: char) -> bool {
    c == '[' || c == ']' || c == '(' || c == ')' || c == '{' || c == '}' || c == '/' || c == '\\'
        || c == '"' || c == '\'' || c == ' '
}

/// `s` without the shape characters at either end.
pub open spec fn trim_shape(s: Seq<char>) -> Seq<char> {
    trim_shape_end(trim_shape_start(s))
}

pub open spec fn trim_shape_start(s: Seq<char>) -> Seq<char>
    decreases s.len(),
{
    if s.len() > 0 && is_shape_char(s[0]) {
        trim_shape_start(s.drop_first())
    } else {
        s
    }
}

pub open spec fn trim_shape_end(s: Seq<char>) -> Seq<char>
    decreases s.len(),
{
    if s.len() > 0 && is_shape_char(s.last()) {
        trim_shape_end(s.drop_last())
    } else {
        s
    }
}

/// A line without its comment and surrounding whitespace; nothing when no
/// text is left.
pub open spec fn clean_line_of(line: Seq<char>) -> Option<Seq<char>> {
    let t = trim(line);
    let u = match split_once_of(t, seq!['%', '%']) {
        Some((before, _)) => trim(before),
        None => t,
    };
    if u.len() > 0 {
        Some(u)
    } else {
        None
    }
}

/// The lines of a diagram that hold statements, cleaned, in order.
pub open spec fn statements_of(ls: Seq<Seq<char>>) -> Seq<Seq<char>>
    decreases ls.len(),
{
    if ls.len() == 0 {
        Seq::empty()
    } else {
        let rest = statements_of(ls.drop_last());
        match clean_line_of(ls.last()) {
            Some(c) => if c.len() > 0 && !starts_with(c, seq!['%', '%']) {
                rest.push(c)
            } else {
                rest
            },
            None => rest,
        }
    }
}

/// The second whitespace-separated word of `s`.
pub open spec fn second_word(s: Seq<char>) -> Option<Seq<char>> {
    let t = trim_start(s);
    first_word(t.skip(word_len(t) as int))
}

/// The direction that a flowchart header names; nothing for a line that
/// is no flowchart header or names no known direction.
pub open spec fn header_of(line: Seq<char>) -> Option<FlowchartDirection> {
    let l = trim_end_char(line, ';');
    match first_word(l) {
        None => None,
        Some(keyword) => if !eq_ignore_ascii_case(keyword, seq!['g', 'r', 'a', 'p', 'h'])
            && !eq_ignore_ascii_case(keyword, seq!['f', 'l', 'o', 'w', 'c', 'h', 'a', 'r', 't']) {
            None
        } else {
            match second_word(l) {
                None => Some(FlowchartDirection::TopDown),
                Some(d) => {
                    let u = seq_ascii_upper(d);
                    if u == seq!['T', 'D'] || u == seq!['T', 'B'] {
                        Some(FlowchartDirection::TopDown)
                    } else if u == seq!['B', 'T'] {
                        Some(FlowchartDirection::BottomTop)
                    } else if u == seq!['L', 'R'] {
                        Some(FlowchartDirection::LeftRight)
                    } else if u == seq!['R', 'L'] {
                        Some(FlowchartDirection::RightLeft)
                    } else {
                        None
                    }
                },
            }
        },
    }
}

/// A label between bars or dashes: trimmed, its bars dropped; nothing if empty.
pub open spec fn clean_label_of(raw: Seq<char>) -> Option<Seq<char>> {
    let label = trim(trim_start_char(trim_end_char(trim(raw), '|'), '|'));
    if label.len() > 0 {
        Some(label)
    } else {
        None
    }
}

/// The position of the first `[`, `(` or `{` in `s`, or its length.
pub open spec fn shape_start(s: Seq<char>) -> nat
    decreases s.len(),
{
    if s.len() == 0 {
        0
    } else if s[0] == '[' || s[0] == '(' || s[0] == '{' {
        0
    } else {
        1 + shape_start(s.drop_first())
    }
}

/// The text a node shows: its label inside its shape, else its id; a class
/// after `:::` is dropped.
pub open spec fn node_of(raw: Seq<char>) -> Seq<char> {
    let r0 = trim(raw);
    let r = match split_once_of(r0, seq![':', ':', ':']) {
        Some((node, _)) => trim(node),
        None => r0,
    };
    let k = shape_start(r);
    let id = trim(r.take(k as int));
    let label = trim_shape(trim(r.skip(k as int)));
    if label.len() == 0 {
        id
    } else {
        label
    }
}

/// An edge written with its label inside the arrow: `A -- label --> B`.
pub open spec fn labeled_try_of(line: Seq<char>, start: Seq<char>, end: Seq<char>) -> Option<EdgeView> {
    match split_once_of(line, start) {
        None => None,
        Some((left, rest)) => match split_once_of(rest, end) {
            None => None,
            Some((label, right)) => if trim(label).len() == 0 {
                None
            } else {
                Some((node_of(left), node_of(right), clean_label_of(label)))
            },
        },
    }
}

/// The first of the three labelled arrow forms that fits the line.
pub open spec fn labeled_edge_of(line: Seq<char>) -> Option<EdgeView> {
    match labeled_try_of(line, seq!['-', '-'], seq!['-', '-', '>']) {
        Some(e) => Some(e),
        None => match labeled_try_of(line, seq!['-', '.'], seq!['.', '-', '>']) {
            Some(e) => Some(e),
            None => labeled_try_of(line, seq!['=', '='], seq!['=', '=', '>']),
        },
    }
}

/// The arrows a plain edge may use, tried in this order.
pub open spec fn arrows() -> Seq<Seq<char>> {
    seq![
        seq!['-', '-', '>'], seq!['-', '-', '-'], seq!['-', '.', '-', '>'], seq!['-', '.', '-'],
        seq!['=', '=', '>'], seq!['=', '=', '='], seq!['~', '~', '~'], seq!['-', '-'],
    ]
}

/// The first arrow from `k` on that occurs in the line, with the trimmed
/// text on each side of it.
pub open spec fn split_edge_from(line: Seq<char>, k: int) -> Option<(Seq<char>, Seq<char>, Seq<char>)>
    decreases 8 - k,
{
    if k < 0 || k >= 8 {
        None
    } else {
        match split_once_of(line, arrows()[k]) {
            Some((left, right)) => Some((arrows()[k], trim(left), trim(right))),
            None => split_edge_from(line, k + 1),
        }
    }
}

/// The label and target after a plain arrow: `|label| B`, or a second arrow
/// with the label before it.
pub open spec fn edge_label_of(arrow: Seq<char>, right: Seq<char>) -> (Option<Seq<char>>, Seq<char>) {
    let barred = if right.len() > 0 && right[0] == '|' {
        split_once_of(right.drop_first(), seq!['|'])
    } else {
        None
    };
    match barred {
        Some((label, to)) => (clean_label_of(label), trim(to)),
        None => match split_once_of(right, seq!['-', '-', '>']) {
            Some((label, to)) => (clean_label_of(label), trim(to)),
            None => match split_once_of(right, seq!['-', '.', '-', '>']) {
                Some((label, to)) => (clean_label_of(label), trim(to)),
                None => match split_once_of(right, seq!['=', '=', '>']) {
                    Some((label, to)) => (clean_label_of(label), trim(to)),
                    None => if arrow == seq!['-', '-', '-'] || arrow == seq!['-', '-'] {
                        match split_once_of(right, seq!['-', '-', '-']) {
                            Some((label, to)) => (clean_label_of(label), trim(to)),
                            None => match split_once_of(right, seq!['-', '-']) {
                                Some((label, to)) => (clean_label_of(label), trim(to)),
                                None => (None, right),
                            },
                        }
                    } else {
                        (None, right)
                    },
                },
            },
        },
    }
}

/// The edge a statement line describes, if it is one.
pub open spec fn edge_of(line: Seq<char>) -> Option<EdgeView> {
    let l = trim(trim_end_char(line, ';'));
    match labeled_edge_of(l) {
        Some(e) => Some(e),
        None => match split_edge_from(l, 0) {
            None => None,
            Some((arrow, left, right)) => {
                let (label, to) = edge_label_of(arrow, right);
                Some((node_of(left), node_of(to), label))
            },
        },
    }
}

/// The edges among statement lines, in order.
pub open spec fn edges_of(ls: Seq<Seq<char>>) -> Seq<EdgeView>
    decreases ls.len(),
{
    if ls.len() == 0 {
        Seq::empty()
    } else {
        match edge_of(ls.last()) {
            Some(e) => edges_of(ls.drop_last()).push(e),
            None => edges_of(ls.drop_last()),
        }
    }
}

/// The preview of a Mermaid flowchart: the direction from its header line
/// and the edges after it; nothing for other diagrams or one without edges.
pub open spec fn flowchart_of(source: Seq<char>) -> Option<(FlowchartDirection, Seq<EdgeView>)> {
    let st = statements_of(lines(source));
    if st.len() == 0 {
        None
    } else {
        match header_of(st[0]) {
            None => None,
            Some(d) => {
                let es = edges_of(st.drop_first());
                if es.len() == 0 {
                    None
                } else {
                    Some((d, es))
                }
            },
        }
    }
}

fn split_once(s: &[char], pat: &[char]) -> (r: Option<(Vec<char>, Vec<char>)>)
    ensures
        match split_once_of(s@, pat@) {
            Some((a, b)) => r matches Some((x, y)) && x@ == a && y@ == b,
            None => r is None,
        },
{
    let n = s.len();
    match find_chars(s, pat) {
        Some(i) => {
            proof {
                lemma_find_from(s@, pat@, 0);
            }
            Some((slice_chars(s, 0, i), slice_chars(s, i + pat.len(), n)))
        },
        None => None,
    }
}

fn strip_end_char(s: &[char], c: char) -> (r: Vec<char>)
    ensures
        r@ == trim_end_char(s@, c),
{
    let mut n = s.len();
    assert(s@.take(n as int) =~= s@);
    while n > 0 && s[n - 1] == c
        invariant
            n <= s@.len(),
            trim_end_char(s@, c) == trim_end_char(s@.take(n as int), c),
        decreases n,
    {
        assert(s@.take(n as int).drop_last() =~= s@.take(n - 1));
        n = n - 1;
    }
    slice_chars(s, 0, n)
}

fn strip_start_char(s: &[char], c: char) -> (r: Vec<char>)
    ensures
        r@ == trim_start_char(s@, c),
{
    let mut i: usize = 0;
    assert(s@.skip(0) =~= s@);
    while i < s.len() && s[i] == c
        invariant
            i <= s@.len(),
            trim_start_char(s@, c) == trim_start_char(s@.skip(i as int), c),
        decreases s@.len() - i,
    {
        assert(s@.skip(i as int).drop_first() =~= s@.skip(i + 1));
        i = i + 1;
    }
    slice_chars(s, i, s.len())
}

fn shape_char(c: char) -> (r: bool)
    ensures
        r == is_shape_char(c),
{
    c == '[' || c == ']' || c == '(' || c == ')' || c == '{' || c == '}' || c == '/' || c == '\\'
        || c == '"' || c == '\'' || c == ' '
}

fn strip_shape(s: &[char]) -> (r: Vec<char>)
    ensures
        r@ == trim_shape(s@),
{
    let mut i: usize = 0;
    assert(s@.skip(0) =~= s@);
    while i < s.len() && shape_char(s[i])
        invariant
            i <= s@.len(),
            trim_shape_start(s@) == trim_shape_start(s@.skip(i as int)),
        decreases s@.len() - i,
    {
        assert(s@.skip(i as int).drop_first() =~= s@.skip(i + 1));
        i = i + 1;
    }
    let front = slice_chars(s, i, s.len());
    proof {
        if front@.len() > 0 {
            assert(front@[0] == s@[i as int]);
        }
        assert(trim_shape_start(front@) == front@);
    }
    let mut n = front.len();
    assert(front@.take(n as int) =~= front@);
    while n > 0 && shape_char(front[n - 1])
        invariant
            n <= front@.len(),
            trim_shape_end(front@) == trim_shape_end(front@.take(n as int)),
        decreases n,
    {
        assert(front@.take(n as int).drop_last() =~= front@.take(n - 1));
        n = n - 1;
    }
    slice_chars(front.as_slice(), 0, n)
}

fn clean_label(raw: &[char]) -> (r: Option<Vec<char>>)
    ensures
        match clean_label_of(raw@) {
            Some(l) => r matches Some(v) && v@ == l,
            None => r is None,
        },
{
    let a = trim_chars(raw);
    let b = strip_end_char(a.as_slice(), '|');
    let c = strip_start_char(b.as_slice(), '|');
    let d = trim_chars(c.as_slice());
    if d.len() > 0 {
        Some(d)
    } else {
        None
    }
}

fn find_shape_start(s: &[char]) -> (k: usize)
    ensures
        k == shape_start(s@),
        k <= s@.len(),
{
    let mut k: usize = 0;
    assert(s@.skip(0) =~= s@);
    while k < s.len() && !(s[k] == '[' || s[k] == '(' || s[k] == '{')
        invariant
            k <= s@.len(),
            shape_start(s@) == k + shape_start(s@.skip(k as int)),
        decreases s@.len() - k,
    {
        assert(s@.skip(k as int).drop_first() =~= s@.skip(k + 1));
        k = k + 1;
    }
    proof {
        if k < s@.len() {
            assert(s@.skip(k as int)[0] == s@[k as int]);
        }
    }
    k
}

fn node(raw: &[char]) -> (r: Vec<char>)
    ensures
        r@ == node_of(raw@),
{
    let r0 = trim_chars(raw);
    let r = match split_once(r0.as_slice(), &[':', ':', ':']) {
        Some((n, _)) => trim_chars(n.as_slice()),
        None => r0,
    };
    let k = find_shape_start(r.as_slice());
    let head = slice_chars(r.as_slice(), 0, k);
    let id = trim_chars(head.as_slice());
    let tail = slice_chars(r.as_slice(), k, r.len());
    let t = trim_chars(tail.as_slice());
    let label = strip_shape(t.as_slice());
    assert(head@ =~= r@.take(k as int));
    assert(tail@ =~= r@.skip(k as int));
    if label.len() == 0 {
        id
    } else {
        label
    }
}

fn make_edge(from: Vec<char>, to: Vec<char>, label: Option<Vec<char>>) -> (e: FlowchartEdge)
    ensures
        e.deep_view() == (from@, to@, match label {
            Some(l) => Some(l@),
            None => None::<Seq<char>>,
        }),
{
    let label = match label {
        Some(l) => Some(string_of(l.as_slice())),
        None => None,
    };
    FlowchartEdge { from: string_of(from.as_slice()), to: string_of(to.as_slice()), label }
}

fn labeled_try(line: &[char], start: &[char], end: &[char]) -> (r: Option<FlowchartEdge>)
    ensures
        match labeled_try_of(line@, start@, end@) {
            Some(e) => r matches Some(x) && x.deep_view() == e,
            None => r is None,
        },
{
    let (left, rest) = match split_once(line, start) {
        None => return None,
        Some(parts) => parts,
    };
    let (label, right) = match split_once(rest.as_slice(), end) {
        None => return None,
        Some(parts) => parts,
    };
    let t = trim_chars(label.as_slice());
    if t.len() == 0 {
        return None;
    }
    let cleaned = clean_label(label.as_slice());
    Some(make_edge(node(left.as_slice()), node(right.as_slice()), cleaned))
}

fn labeled_edge(line: &[char]) -> (r: Option<FlowchartEdge>)
    ensures
        match labeled_edge_of(line@) {
            Some(e) => r matches Some(x) && x.deep_view() == e,
            None => r is None,
        },
{
    match labeled_try(line, &['-', '-'], &['-', '-', '>']) {
        Some(e) => return Some(e),
        None => {},
    }
    match labeled_try(line, &['-', '.'], &['.', '-', '>']) {
        Some(e) => return Some(e),
        None => {},
    }
    labeled_try(line, &['=', '='], &['=', '=', '>'])
}

fn try_arrow(line: &[char], arrow: &[char]) -> (r: Option<(Vec<char>, Vec<char>, Vec<char>)>)
    ensures
        match split_once_of(line@, arrow@) {
            Some((left, right)) => r matches Some((x, y, z)) && x@ == arrow@ && y@ == trim(left) && z@ == trim(right),
            None => r is None,
        },
{
    match split_once(line, arrow) {
        Some((left, right)) => Some((slice_chars(arrow, 0, arrow.len()), trim_chars(left.as_slice()), trim_chars(right.as_slice()))),
        None => None,
    }
}

fn split_edge(line: &[char]) -> (r: Option<(Vec<char>, Vec<char>, Vec<char>)>)
    ensures
        match split_edge_from(line@, 0) {
            Some((a, l, rt)) => r matches Some((x, y, z)) && x@ == a && y@ == l && z@ == rt,
            None => r is None,
        },
{
    proof {
        reveal_with_fuel(split_edge_from, 9);
    }
    let p0 = ['-', '-', '>'];
    assert(p0@ =~= arrows()[0]);
    match try_arrow(line, &p0) {
        Some(t) => return Some(t),
        None => {},
    }
    let p1 = ['-', '-', '-'];
    assert(p1@ =~= arrows()[1]);
    match try_arrow(line, &p1) {
        Some(t) => return Some(t),
        None => {},
    }
    let p2 = ['-', '.', '-', '>'];
    assert(p2@ =~= arrows()[2]);
    match try_arrow(line, &p2) {
        Some(t) => return Some(t),
        None => {},
    }
    let p3 = ['-', '.', '-'];
    assert(p3@ =~= arrows()[3]);
    match try_arrow(line, &p3) {
        Some(t) => return Some(t),
        None => {},
    }
    let p4 = ['=', '=', '>'];
    assert(p4@ =~= arrows()[4]);
    match try_arrow(line, &p4) {
        Some(t) => return Some(t),
        None => {},
    }
    let p5 = ['=', '=', '='];
    assert(p5@ =~= arrows()[5]);
    match try_arrow(line, &p5) {
        Some(t) => return Some(t),
        None => {},
    }
    let p6 = ['~', '~', '~'];
    assert(p6@ =~= arrows()[6]);
    match try_arrow(line, &p6) {
        Some(t) => return Some(t),
        None => {},
    }
    let p7 = ['-', '-'];
    assert(p7@ =~= arrows()[7]);
    match try_arrow(line, &p7) {
        Some(t) => return Some(t),
        None => {},
    }
    None
}

fn edge_label(arrow: &[char], right: Vec<char>) -> (r: (Option<Vec<char>>, Vec<char>))
    ensures
        (match r.0 {
            Some(l) => Some(l@),
            None => None::<Seq<char>>,
        }, r.1@) == edge_label_of(arrow@, right@),
{
    let q1 = ['|'];
    assert(q1@ =~= seq!['|']);
    let q2 = ['-', '-', '>'];
    assert(q2@ =~= seq!['-', '-', '>']);
    let q3 = ['-', '.', '-', '>'];
    assert(q3@ =~= seq!['-', '.', '-', '>']);
    let q4 = ['=', '=', '>'];
    assert(q4@ =~= seq!['=', '=', '>']);
    let q5 = ['-', '-', '-'];
    assert(q5@ =~= seq!['-', '-', '-']);
    let q6 = ['-', '-'];
    assert(q6@ =~= seq!['-', '-']);
    let barred = if right.len() > 0 && right[0] == '|' {
        let rest = slice_chars(right.as_slice(), 1, right.len());
        assert(rest@ =~= right@.drop_first());
        split_once(rest.as_slice(), &q1)
    } else {
        None
    };
    let found = match barred {
        Some(parts) => Some(parts),
        None => match split_once(right.as_slice(), &q2) {
            Some(parts) => Some(parts),
            None => match split_once(right.as_slice(), &q3) {
                Some(parts) => Some(parts),
                None => match split_once(right.as_slice(), &q4) {
                    Some(parts) => Some(parts),
                    None => if chars_eq(arrow, &q5) || chars_eq(arrow, &q6) {
                        match split_once(right.as_slice(), &q5) {
                            Some(parts) => Some(parts),
                            None => split_once(right.as_slice(), &q6),
                        }
                    } else {
                        None
                    },
                },
            },
        },
    };
    match found {
        Some((label, to)) => (clean_label(label.as_slice()), trim_chars(to.as_slice())),
        None => (None, right),
    }
}

fn edge(line: &[char]) -> (r: Option<FlowchartEdge>)
    ensures
        match edge_of(line@) {
            Some(e) => r matches Some(x) && x.deep_view() == e,
            None => r is None,
        },
{
    let a = strip_end_char(line, ';');
    let l = trim_chars(a.as_slice());
    match labeled_edge(l.as_slice()) {
        Some(e) => return Some(e),
        None => {},
    }
    let (arrow, left, right) = match split_edge(l.as_slice()) {
        None => return None,
        Some(parts) => parts,
    };
    let (label, to) = edge_label(arrow.as_slice(), right);
    Some(make_edge(node(left.as_slice()), node(to.as_slice()), label))
}

fn clean_line(line: &[char]) -> (r: Option<Vec<char>>)
    ensures
        match clean_line_of(line@) {
            Some(c) => r matches Some(v) && v@ == c,
            None => r is None,
        },
{
    let t = trim_chars(line);
    let u = match split_once(t.as_slice(), &['%', '%']) {
        Some((before, _)) => trim_chars(before.as_slice()),
        None => t,
    };
    if u.len() > 0 {
        Some(u)
    } else {
        None
    }
}

/// The first word of `s` and where the text after it starts.
fn first_word_at(s: &[char]) -> (r: Option<(Vec<char>, usize)>)
    ensures
        match first_word(s@) {
            Some(w) => r matches Some((v, end)) && v@ == w && end <= s@.len() && s@.skip(end as int)
                == trim_start(s@).skip(word_len(trim_start(s@)) as int),
            None => r is None,
        },
{
    let start = leading_ws(s);
    if start == s.len() {
        return None;
    }
    let ghost t = s@.skip(start as int);
    let mut end = start;
    while end < s.len() && !char_is_ws(s[end])
        invariant
            start <= end <= s@.len(),
            forall|j: int| start <= j < end ==> !is_ws(#[trigger] s@[j]),
        decreases s@.len() - end,
    {
        end = end + 1;
    }
    proof {
        assert forall|j: int| 0 <= j < end - start implies !is_ws(#[trigger] t[j]) by {
            assert(t[j] == s@[start + j]);
        }
        lemma_word_len_skip(t, end - start);
        let rest = t.skip(end - start);
        if rest.len() > 0 {
            assert(rest[0] == s@[end as int]);
        }
        assert(t.skip(end - start) =~= s@.skip(end as int));
    }
    let w = slice_chars(s, start, end);
    assert(w@ =~= t.take(end - start));
    Some((w, end))
}

fn ascii_uppercase(s: &[char]) -> (out: Vec<char>)
    ensures
        out@ == seq_ascii_upper(s@),
{
    let mut out: Vec<char> = Vec::new();
    let mut i: usize = 0;
    while i < s.len()
        invariant
            i <= s@.len(),
            out@ == seq_ascii_upper(s@.take(i as int)),
        decreases s@.len() - i,
    {
        out.push(char_ascii_upper(s[i]));
        assert(out@ =~= seq_ascii_upper(s@.take(i + 1)));
        i = i + 1;
    }
    assert(s@.take(s@.len() as int) =~= s@);
    out
}

fn header(line: &[char]) -> (r: Option<FlowchartDirection>)
    ensures
        r == header_of(line@),
{
    let l = strip_end_char(line, ';');
    let (keyword, end) = match first_word_at(l.as_slice()) {
        None => return None,
        Some(found) => found,
    };
    if !chars_eq_ignore_ascii_case(keyword.as_slice(), &['g', 'r', 'a', 'p', 'h'])
        && !chars_eq_ignore_ascii_case(keyword.as_slice(), &['f', 'l', 'o', 'w', 'c', 'h', 'a', 'r', 't']) {
        return None;
    }
    let rest = slice_chars(l.as_slice(), end, l.len());
    assert(rest@ =~= l@.skip(end as int));
    match first_word_at(rest.as_slice()) {
        None => Some(FlowchartDirection::TopDown),
        Some((d, _)) => {
            let u = ascii_uppercase(d.as_slice());
            if chars_eq(u.as_slice(), &['T', 'D']) || chars_eq(u.as_slice(), &['T', 'B']) {
                Some(FlowchartDirection::TopDown)
            } else if chars_eq(u.as_slice(), &['B', 'T']) {
                Some(FlowchartDirection::BottomTop)
            } else if chars_eq(u.as_slice(), &['L', 'R']) {
                Some(FlowchartDirection::LeftRight)
            } else if chars_eq(u.as_slice(), &['R', 'L']) {
                Some(FlowchartDirection::RightLeft)
            } else {
                None
            }
        },
    }
}

/// A plain preview of a Mermaid flowchart: its direction and its edges.
/// Nothing for other diagrams, unknown directions, or no edges.
pub fn flowchart_preview(source: &str) -> (r: Option<FlowchartPreview>)
    ensures
        match flowchart_of(source@) {
            Some((d, es)) => r matches Some(p) && p.direction == d && p.edges.deep_view() == es,
            None => r is None,
        },
{
    let cs = chars_of(source);
    let ls = lines_chars(cs.as_slice());
    let ghost lv = ls.deep_view();
    let mut statements: Vec<Vec<char>> = Vec::new();
    let mut i: usize = 0;
    assert(lv.take(0) =~= Seq::<Seq<char>>::empty());
    assert(statements.deep_view() =~= Seq::<Seq<char>>::empty());
    while i < ls.len()
        invariant
            i <= ls@.len(),
            lv == ls.deep_view(),
            lv == lines(source@),
            statements.deep_view() == statements_of(lv.take(i as int)),
        decreases ls@.len() - i,
    {
        assert(lv.take(i + 1).drop_last() =~= lv.take(i as int));
        assert(lv.take(i + 1).last() == ls[i as int]@);
        let ghost before = statements.deep_view();
        match clean_line(ls[i].as_slice()) {
            Some(c) => {
                if c.len() > 0 && !starts_with_chars(c.as_slice(), &['%', '%']) {
                    assert(c.deep_view() =~= c@);
                    statements.push(c);
                    assert(statements.deep_view() =~= before.push(c@));
                }
            },
            None => {},
        }
        i = i + 1;
    }
    assert(lv.take(ls@.len() as int) =~= lv);
    let ghost sv = statements.deep_view();
    if statements.len() == 0 {
        return None;
    }
    assert(sv[0] == statements[0]@);
    let direction = match header(statements[0].as_slice()) {
        None => return None,
        Some(d) => d,
    };
    let ghost rest = sv.drop_first();
    let mut edges: Vec<FlowchartEdge> = Vec::new();
    let mut k: usize = 1;
    assert(rest.take(0) =~= Seq::<Seq<char>>::empty());
    while k < statements.len()
        invariant
            1 <= k <= statements@.len(),
            sv == statements.deep_view(),
            rest == sv.drop_first(),
            edges.deep_view() == edges_of(rest.take(k - 1)),
        decreases statements@.len() - k,
    {
        assert(rest.take(k as int).drop_last() =~= rest.take(k - 1));
        assert(rest.take(k as int).last() == statements[k as int]@);
        let ghost before = edges.deep_view();
        match edge(statements[k].as_slice()) {
            Some(e) => {
                edges.push(e);
                assert(edges.deep_view() =~= before.push(e.deep_view()));
            },
            None => {},
        }
        k = k + 1;
    }
    assert(rest.take(statements@.len() - 1) =~= rest);
    if edges.len() == 0 {
        return None;
    }
    Some(FlowchartPreview { direction, edges })
}

} // verus!
