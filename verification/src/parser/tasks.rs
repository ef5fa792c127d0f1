use vstd::prelude::*;

use crate::parser::{Block, BlockView, ItemView, ListItem};
use crate::text::{is_ascii_digit, leading_ws, lines, lines_chars, trim_start};

verus! {

/// The length of the run of ASCII digits that starts `s`.
pub open spec fn digits_len(s: Seq<char>) -> nat
    decreases s.len(),
{
    if s.len() > 0 && is_ascii_digit(s[0]) {
        1 + digits_len(s.drop_first())
    } else {
        0
    }
}

pub open spec fn is_blank_char(c: char) -> bool {
    c == ' ' || c == '\t'
}

/// The length of the run of spaces and tabs that starts `s`.
pub open spec fn blanks_len(s: Seq<char>) -> nat
    decreases s.len(),
{
    if s.len() > 0 && is_blank_char(s[0]) {
        1 + blanks_len(s.drop_first())
    } else {
        0
    }
}

/// Where a list marker (`-`, `+`, `*`, or digits then `.` or `)`) that starts
/// `line` after its indentation ends.
pub open spec fn list_marker_end(line: Seq<char>) -> Option<nat> {
    let i0 = (line.len() - trim_start(line).len()) as nat;
    if i0 >= line.len() {
        None
    } else {
        let c = line[i0 as int];
        if c == '-' || c == '+' || c == '*' {
            Some(i0 + 1)
        } else if is_ascii_digit(c) {
            let j = i0 + digits_len(line.skip(i0 as int));
            if j < line.len() && (line[j as int] == '.' || line[j as int] == ')') {
                Some(j + 1)
            } else {
                None
            }
        } else {
            None
        }
    }
}

/// A task checkbox on a list line: the position of its mark and whether it is
/// checked. The marker must be followed by spaces or tabs and then `[ ]`,
/// `[x]` or `[X]`.
pub open spec fn task_marker_at(line: Seq<char>) -> Option<(nat, bool)> {
    match list_marker_end(line) {
        None => None,
        Some(k) => if k < line.len() && is_blank_char(line[k as int]) {
            let m = k + blanks_len(line.skip(k as int));
            if m + 3 <= line.len() {
                let w = line.subrange(m as int, m + 3int);
                if w == seq!['[', ' ', ']'] {
                    Some(((m + 1) as nat, false))
                } else if w == seq!['[', 'x', ']'] || w == seq!['[', 'X', ']'] {
                    Some(((m + 1) as nat, true))
                } else {
                    None
                }
            } else {
                None
            }
        } else {
            None
        },
    }
}

proof fn lemma_trim_start_update(s: Seq<char>, p: int, c: char)
    requires
        s.len() - trim_start(s).len() < p < s.len(),
    ensures
        trim_start(s.update(p, c)).len() == trim_start(s).len(),
    decreases s.len(),
{
    lemma_trim_start_bound(s);
    let u = s.update(p, c);
    assert(u[0] == s[0]);
    if s.len() > 0 && crate::text::is_ws(s[0]) {
        assert(u.drop_first() =~= s.drop_first().update(p - 1, c));
        lemma_trim_start_update(s.drop_first(), p - 1, c);
    }
}

proof fn lemma_digits_len_update(s: Seq<char>, p: int, c: char)
    requires
        digits_len(s) < p < s.len(),
    ensures
        digits_len(s.update(p, c)) == digits_len(s),
    decreases s.len(),
{
    let u = s.update(p, c);
    assert(u[0] == s[0]);
    if s.len() > 0 && is_ascii_digit(s[0]) {
        assert(u.drop_first() =~= s.drop_first().update(p - 1, c));
        lemma_digits_len_update(s.drop_first(), p - 1, c);
    }
}

proof fn lemma_blanks_len_update(s: Seq<char>, p: int, c: char)
    requires
        blanks_len(s) < p < s.len(),
    ensures
        blanks_len(s.update(p, c)) == blanks_len(s),
    decreases s.len(),
{
    let u = s.update(p, c);
    assert(u[0] == s[0]);
    if s.len() > 0 && is_blank_char(s[0]) {
        assert(u.drop_first() =~= s.drop_first().update(p - 1, c));
        lemma_blanks_len_update(s.drop_first(), p - 1, c);
    }
}

proof fn lemma_blanks_len_bound(s: Seq<char>)
    ensures
        blanks_len(s) <= s.len(),
    decreases s.len(),
{
    if s.len() > 0 && is_blank_char(s[0]) {
        lemma_blanks_len_bound(s.drop_first());
    }
}

proof fn lemma_digits_len_bound(s: Seq<char>)
    ensures
        digits_len(s) <= s.len(),
    decreases s.len(),
{
    if s.len() > 0 && is_ascii_digit(s[0]) {
        lemma_digits_len_bound(s.drop_first());
    }
}

proof fn lemma_trim_start_bound(s: Seq<char>)
    ensures
        trim_start(s).len() <= s.len(),
    decreases s.len(),
{
    if s.len() > 0 && crate::text::is_ws(s[0]) {
        lemma_trim_start_bound(s.drop_first());
    }
}

/// Writing a space or an `x` between a task checkbox's brackets leaves the
/// checkbox where it was, unchecked or checked as written.
pub proof fn lemma_task_marker_update(line: Seq<char>, c: char)
    requires
        task_marker_at(line) is Some,
        c == ' ' || c == 'x',
    ensures
        task_marker_at(line.update(task_marker_at(line).unwrap().0 as int, c)) == Some(
            (task_marker_at(line).unwrap().0, c == 'x'),
        ),
{
    let m1 = task_marker_at(line).unwrap().0 as int;
    let u = line.update(m1, c);
    lemma_trim_start_bound(line);
    let i0 = line.len() - trim_start(line).len();
    let k = list_marker_end(line).unwrap() as int;
    lemma_blanks_len_bound(line.skip(k));
    let m = k + blanks_len(line.skip(k));
    assert(m1 == m + 1);
    assert(line.subrange(m, m + 3)[0] == line[m]);
    assert(i0 < k);
    lemma_trim_start_update(line, m1, c);
    assert(u[i0] == line[i0]);
    if is_ascii_digit(line[i0]) && !(line[i0] == '-' || line[i0] == '+' || line[i0] == '*') {
        lemma_digits_len_bound(line.skip(i0));
        let j = i0 + digits_len(line.skip(i0));
        assert(u.skip(i0) =~= line.skip(i0).update(m1 - i0, c));
        lemma_digits_len_update(line.skip(i0), m1 - i0, c);
        assert(u[j] == line[j]);
    }
    assert(list_marker_end(u) == list_marker_end(line));
    assert(u[k] == line[k]);
    assert(u.skip(k) =~= line.skip(k).update(m1 - k, c));
    assert(line.skip(k)[m - k] == line[m]);
    lemma_blanks_len_update(line.skip(k), m1 - k, c);
    assert(u.subrange(m, m + 3) =~= seq!['[', c, ']']) by {
        assert(line.subrange(m, m + 3)[2] == line[m + 2]);
    }
}

proof fn lemma_digits_len(s: Seq<char>, i: int)
    requires
        0 <= i <= s.len(),
        forall|j: int| 0 <= j < i ==> is_ascii_digit(#[trigger] s[j]),
        i == s.len() || !is_ascii_digit(s[i]),
    ensures
        digits_len(s) == i,
    decreases i,
{
    if i > 0 {
        assert(is_ascii_digit(s[0]));
        assert forall|j: int| 0 <= j < i - 1 implies is_ascii_digit(#[trigger] s.drop_first()[j]) by {
            assert(s.drop_first()[j] == s[j + 1]);
        }
        if i < s.len() {
            assert(s.drop_first()[i - 1] == s[i]);
        }
        lemma_digits_len(s.drop_first(), i - 1);
    }
}

proof fn lemma_blanks_len(s: Seq<char>, i: int)
    requires
        0 <= i <= s.len(),
        forall|j: int| 0 <= j < i ==> is_blank_char(#[trigger] s[j]),
        i == s.len() || !is_blank_char(s[i]),
    ensures
        blanks_len(s) == i,
    decreases i,
{
    if i > 0 {
        assert(is_blank_char(s[0]));
        assert forall|j: int| 0 <= j < i - 1 implies is_blank_char(#[trigger] s.drop_first()[j]) by {
            assert(s.drop_first()[j] == s[j + 1]);
        }
        if i < s.len() {
            assert(s.drop_first()[i - 1] == s[i]);
        }
        lemma_blanks_len(s.drop_first(), i - 1);
    }
}

fn list_marker_end_exec(line: &[char]) -> (r: Option<usize>)
    ensures
        r matches Some(k) ==> list_marker_end(line@) == Some(k as nat),
        r is None ==> list_marker_end(line@) is None,
{
    let i0 = leading_ws(line);
    if i0 >= line.len() {
        return None;
    }
    let c = line[i0];
    if c == '-' || c == '+' || c == '*' {
        return Some(i0 + 1);
    }
    if !('0' <= c && c <= '9') {
        return None;
    }
    let mut j = i0;
    while j < line.len() && '0' <= line[j] && line[j] <= '9'
        invariant
            i0 <= j <= line@.len(),
            forall|k: int| i0 <= k < j ==> is_ascii_digit(#[trigger] line@[k]),
        decreases line@.len() - j,
    {
        j = j + 1;
    }
    proof {
        let t = line@.skip(i0 as int);
        assert forall|k: int| 0 <= k < j - i0 implies is_ascii_digit(#[trigger] t[k]) by {
            assert(t[k] == line@[i0 + k]);
        }
        if j < line.len() {
            assert(t[j - i0] == line@[j as int]);
        }
        lemma_digits_len(t, j - i0);
    }
    if j < line.len() && (line[j] == '.' || line[j] == ')') {
        Some(j + 1)
    } else {
        None
    }
}

/// `task_marker_at` on a line of characters.
pub fn task_marker_range(line: &[char]) -> (r: Option<(usize, bool)>)
    ensures
        r matches Some((i, checked)) ==> task_marker_at(line@) == Some((i as nat, checked)),
        r is None ==> task_marker_at(line@) is None,
{
    let k = match list_marker_end_exec(line) {
        Some(k) => k,
        None => return None,
    };
    if !(k < line.len() && (line[k] == ' ' || line[k] == '\t')) {
        return None;
    }
    let mut m = k;
    while m < line.len() && (line[m] == ' ' || line[m] == '\t')
        invariant
            k <= m <= line@.len(),
            forall|j: int| k <= j < m ==> is_blank_char(#[trigger] line@[j]),
        decreases line@.len() - m,
    {
        m = m + 1;
    }
    proof {
        let t = line@.skip(k as int);
        assert forall|j: int| 0 <= j < m - k implies is_blank_char(#[trigger] t[j]) by {
            assert(t[j] == line@[k + j]);
        }
        if m < line.len() {
            assert(t[m - k] == line@[m as int]);
        }
        lemma_blanks_len(t, m - k);
    }
    if m >= line.len() || line.len() - m < 3 {
        return None;
    }
    let ghost w = line@.subrange(m as int, m + 3);
    assert(w[0] == line@[m as int] && w[1] == line@[m + 1] && w[2] == line@[m + 2]);
    if line[m] != '[' || line[m + 2] != ']' {
        assert(w != seq!['[', ' ', ']'] && w != seq!['[', 'x', ']'] && w != seq!['[', 'X', ']']) by {
            if w == seq!['[', ' ', ']'] || w == seq!['[', 'x', ']'] || w == seq!['[', 'X', ']'] {
                assert(w[0] == '[' && w[2] == ']');
            }
        }
        return None;
    }
    let mark = line[m + 1];
    if mark == ' ' {
        assert(w =~= seq!['[', ' ', ']']);
        Some((m + 1, false))
    } else if mark == 'x' || mark == 'X' {
        assert(w =~= seq!['[', 'x', ']'] || w =~= seq!['[', 'X', ']']);
        Some((m + 1, true))
    } else {
        assert(w != seq!['[', ' ', ']'] && w != seq!['[', 'x', ']'] && w != seq!['[', 'X', ']']) by {
            if w == seq!['[', ' ', ']'] || w == seq!['[', 'x', ']'] || w == seq!['[', 'X', ']'] {
                assert(w[1] == mark);
            }
        }
        None
    }
}

/// The indices of the lines that hold a task checkbox, in order.
pub open spec fn task_line_indices(ls: Seq<Seq<char>>) -> Seq<nat>
    decreases ls.len(),
{
    if ls.len() == 0 {
        Seq::empty()
    } else {
        let earlier = task_line_indices(ls.drop_last());
        if task_marker_at(ls.last()) is Some {
            earlier.push((ls.len() - 1) as nat)
        } else {
            earlier
        }
    }
}

/// The `k`-th task line, if there is one.
pub open spec fn nth_line(task_lines: Seq<nat>, k: nat) -> Option<usize> {
    if k < task_lines.len() {
        Some(task_lines[k as int] as usize)
    } else {
        None
    }
}

/// Task items in order take the task lines in order, from the `k`-th on;
/// returns the items and how many task lines were taken.
pub open spec fn assign_items(items: Seq<ItemView>, task_lines: Seq<nat>, k: nat) -> (Seq<ItemView>, nat)
    decreases items.len(),
{
    if items.len() == 0 {
        (Seq::empty(), k)
    } else {
        let (earlier, k1) = assign_items(items.drop_last(), task_lines, k);
        let it = items.last();
        if it.checked is Some {
            (
                earlier.push(ItemView { source_line: nth_line(task_lines, k1), ..it }),
                if k1 < task_lines.len() {
                    k1 + 1
                } else {
                    k1
                },
            )
        } else {
            (earlier.push(it), k1)
        }
    }
}

pub open spec fn assign_blocks(blocks: Seq<BlockView>, task_lines: Seq<nat>) -> (Seq<BlockView>, nat)
    decreases blocks.len(),
{
    if blocks.len() == 0 {
        (Seq::empty(), 0)
    } else {
        let (earlier, k) = assign_blocks(blocks.drop_last(), task_lines);
        match blocks.last() {
            BlockView::List { ordered, items } => {
                let (assigned, k1) = assign_items(items, task_lines, k);
                (earlier.push(BlockView::List { ordered, items: assigned }), k1)
            },
            other => (earlier.push(other), k),
        }
    }
}

/// Each task item of the document's lists gets the line of its checkbox: the
/// task items in order take the lines with a checkbox in order.
pub open spec fn with_task_lines(blocks: Seq<BlockView>, source: Seq<char>) -> Seq<BlockView> {
    assign_blocks(blocks, task_line_indices(lines(source))).0
}

fn task_lines_of(source: &[char]) -> (r: Vec<usize>)
    ensures
        r@.len() == task_line_indices(lines(source@)).len(),
        forall|i: int| 0 <= i < r@.len() ==> r@[i] == task_line_indices(lines(source@))[i],
{
    let ls = lines_chars(source);
    let ghost views = ls.deep_view();
    let mut out: Vec<usize> = Vec::new();
    let mut i: usize = 0;
    assert(views.take(0) =~= Seq::<Seq<char>>::empty());
    while i < ls.len()
        invariant
            i <= ls@.len(),
            views == ls.deep_view(),
            views == lines(source@),
            out@.len() == task_line_indices(views.take(i as int)).len(),
            forall|j: int| 0 <= j < out@.len() ==> out@[j] == task_line_indices(views.take(i as int))[j],
        decreases ls@.len() - i,
    {
        assert(views.take(i + 1).drop_last() =~= views.take(i as int));
        assert(ls[i as int].deep_view() =~= ls[i as int]@);
        assert(views.take(i + 1).last() == ls[i as int]@);
        if task_marker_range(ls[i].as_slice()).is_some() {
            out.push(i);
        }
        i = i + 1;
    }
    assert(views.take(ls@.len() as int) =~= views);
    out
}

fn assign_list_items(items: Vec<ListItem>, task_lines: &Vec<usize>, k: usize) -> (r: (Vec<ListItem>, usize))
    requires
        k <= task_lines@.len(),
    ensures
        (r.0.deep_view(), r.1 as nat) == assign_items(
            items.deep_view(),
            task_lines@.map_values(|n: usize| n as nat),
            k as nat,
        ),
        r.1 <= task_lines@.len(),
{
    let ghost views = items.deep_view();
    let ghost ln = task_lines@.map_values(|n: usize| n as nat);
    let ghost its = items@;
    let mut out: Vec<ListItem> = Vec::new();
    let mut taken = k;
    assert(views.take(0) =~= Seq::<ItemView>::empty());
    assert(out.deep_view() =~= Seq::<ItemView>::empty());
    for item in iter: items
        invariant
            iter.seq() == its,
            views.len() == its.len(),
            forall|j: int| 0 <= j < its.len() ==> #[trigger] views[j] == its[j].deep_view(),
            iter.index() <= its.len(),
            ln == task_lines@.map_values(|n: usize| n as nat),
            k <= taken <= task_lines@.len(),
            (out.deep_view(), taken as nat) == assign_items(views.take(iter.index() as int), ln, k as nat),
    {
        let ghost idx = iter.index() as int;
        assert(views.take(idx + 1).drop_last() =~= views.take(idx));
        assert(views.take(idx + 1).last() == views[idx]);
        let ghost before = out.deep_view();
        assert(item.deep_view() == views[idx]);
        let ghost taken_before = taken as nat;
        let mut item = item;
        if item.checked.is_some() {
            if taken < task_lines.len() {
                assert(ln[taken as int] == task_lines@[taken as int] as nat);
                assert(nth_line(ln, taken_before) == Some(task_lines@[taken as int]));
                item.source_line = Some(task_lines[taken]);
                taken = taken + 1;
            } else {
                item.source_line = None;
            }
        }
        out.push(item);
        assert(out.deep_view() =~= before.push(item.deep_view()));
        proof {
            let it = views[idx];
            let next = assign_items(views.take(idx + 1), ln, k as nat);
            assert(views.take(idx + 1).last() == it);
            if it.checked is Some {
                assert(item.deep_view() == ItemView { source_line: nth_line(ln, taken_before), ..it });
            } else {
                assert(next == (before.push(it), taken_before));
            }
        }
    }
    assert(views.take(views.len() as int) =~= views);
    (out, taken)
}

/// Gives each task item the index of the source line of its checkbox.
pub fn assign_task_source_lines(blocks: Vec<Block>, source: &[char]) -> (r: Vec<Block>)
    ensures
        r.deep_view() == with_task_lines(blocks.deep_view(), source@),
{
    let task_lines = task_lines_of(source);
    let ghost ln = task_lines@.map_values(|n: usize| n as nat);
    assert(ln =~= task_line_indices(lines(source@)));
    let ghost views = blocks.deep_view();
    let ghost bs = blocks@;
    let mut out: Vec<Block> = Vec::new();
    let mut taken: usize = 0;
    assert(views.take(0) =~= Seq::<BlockView>::empty());
    assert(out.deep_view() =~= Seq::<BlockView>::empty());
    for block in iter: blocks
        invariant
            iter.seq() == bs,
            views.len() == bs.len(),
            forall|j: int| 0 <= j < bs.len() ==> #[trigger] views[j] == bs[j].deep_view(),
            iter.index() <= bs.len(),
            ln == task_lines@.map_values(|n: usize| n as nat),
            taken <= task_lines@.len(),
            (out.deep_view(), taken as nat) == assign_blocks(views.take(iter.index() as int), ln),
    {
        let ghost idx = iter.index() as int;
        assert(views.take(idx + 1).drop_last() =~= views.take(idx));
        assert(views.take(idx + 1).last() == views[idx]);
        let ghost before = out.deep_view();
        match block {
            Block::List { ordered, items } => {
                let (assigned, k) = assign_list_items(items, &task_lines, taken);
                taken = k;
                let b = Block::List { ordered, items: assigned };
                out.push(b);
                assert(out.deep_view() =~= before.push(b.deep_view()));
            },
            other => {
                out.push(other);
                assert(out.deep_view() =~= before.push(other.deep_view()));
            },
        }
    }
    assert(views.take(views.len() as int) =~= views);
    out
}

proof fn lemma_trim_start_ws_prefix(indent: Seq<char>, s: Seq<char>)
    requires
        forall|k: int| 0 <= k < indent.len() ==> crate::text::is_ws(#[trigger] indent[k]),
        s.len() > 0,
        !crate::text::is_ws(s[0]),
    ensures
        trim_start(indent + s) == s,
    decreases indent.len(),
{
    if indent.len() == 0 {
        assert(indent + s =~= s);
    } else {
        assert((indent + s)[0] == indent[0]);
        assert((indent + s).drop_first() =~= indent.drop_first() + s);
        assert forall|k: int| 0 <= k < indent.drop_first().len() implies crate::text::is_ws(
            #[trigger] indent.drop_first()[k],
        ) by {
            assert(indent.drop_first()[k] == indent[k + 1]);
        }
        lemma_trim_start_ws_prefix(indent.drop_first(), s);
    }
}

proof fn lemma_blanks_prefix(gap: Seq<char>, s: Seq<char>)
    requires
        forall|k: int| 0 <= k < gap.len() ==> is_blank_char(#[trigger] gap[k]),
        s.len() > 0,
        !is_blank_char(s[0]),
    ensures
        blanks_len(gap + s) == gap.len(),
    decreases gap.len(),
{
    if gap.len() == 0 {
        assert(gap + s =~= s);
    } else {
        assert((gap + s)[0] == gap[0]);
        assert((gap + s).drop_first() =~= gap.drop_first() + s);
        assert forall|k: int| 0 <= k < gap.drop_first().len() implies is_blank_char(#[trigger] gap.drop_first()[k]) by {
            assert(gap.drop_first()[k] == gap[k + 1]);
        }
        lemma_blanks_prefix(gap.drop_first(), s);
    }
}

/// A bullet task line is a task line whichever bullet it uses: after any
/// indentation, a `-`, `+` or `*`, one or more spaces or tabs, then `[ ]`,
/// `[x]` or `[X]`, the checkbox's mark sits between the brackets, checked
/// unless it is a space.
pub proof fn lemma_bullet_task_lines(indent: Seq<char>, bullet: char, gap: Seq<char>, mark: char, rest: Seq<char>)
    requires
        forall|k: int| 0 <= k < indent.len() ==> crate::text::is_ws(#[trigger] indent[k]),
        bullet == '-' || bullet == '+' || bullet == '*',
        gap.len() > 0,
        forall|k: int| 0 <= k < gap.len() ==> is_blank_char(#[trigger] gap[k]),
        mark == ' ' || mark == 'x' || mark == 'X',
    ensures
        task_marker_at(indent + seq![bullet] + gap + seq!['[', mark, ']'] + rest) == Some(
            ((indent.len() + 1 + gap.len() + 1) as nat, mark != ' '),
        ),
{
    let tail = seq![bullet] + gap + seq!['[', mark, ']'] + rest;
    let line = indent + seq![bullet] + gap + seq!['[', mark, ']'] + rest;
    assert(line =~= indent + tail);
    assert(tail[0] == bullet);
    lemma_trim_start_ws_prefix(indent, tail);
    let i0 = indent.len();
    assert(line[i0 as int] == bullet);
    let k = i0 + 1;
    let after = seq!['[', mark, ']'] + rest;
    assert(line.skip(k as int) =~= gap + after);
    assert(after[0] == '[');
    lemma_blanks_prefix(gap, after);
    assert(line[k as int] == gap[0]);
    let m = k + gap.len();
    assert(line.subrange(m as int, m + 3int) =~= seq!['[', mark, ']']);
}

} // verus!
