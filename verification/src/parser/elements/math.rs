use vstd::prelude::*;

use crate::text::{
    chars_of, collapse_whitespace, collapse_ws, extend_chars, find, find_chars, lemma_find_from,
    matches_at, slice_chars, string_of, trim, trim_chars,
};

verus! {

/// Inline math as it reads in text: its source, trimmed, between dollars.
pub open spec fn inline_text_of(source: Seq<char>) -> Seq<char> {
    seq!['$'] + trim(source) + seq!['$']
}

pub fn inline_text(source: &str) -> (r: String)
    ensures
        r@ == inline_text_of(source@),
{
    let cs = chars_of(source);
    let t = trim_chars(cs.as_slice());
    let mut out: Vec<char> = Vec::new();
    out.push('$');
    extend_chars(&mut out, t.as_slice());
    out.push('$');
    string_of(out.as_slice())
}

/// The source of a display-math block: trimmed.
pub fn display_source(source: &str) -> (r: String)
    ensures
        r@ == trim(source@),
{
    let cs = chars_of(source);
    let t = trim_chars(cs.as_slice());
    string_of(t.as_slice())
}


/// Where the group opened before `i` closes, `depth` groups deep: the
/// position of its closing brace.
pub open spec fn close_brace_from(s: Seq<char>, i: int, depth: nat) -> Option<int>
    decreases s.len() - i,
{
    if i < 0 || i >= s.len() {
        None
    } else if s[i] == '{' {
        close_brace_from(s, i + 1, depth + 1)
    } else if s[i] == '}' {
        if depth <= 1 {
            Some(i)
        } else {
            close_brace_from(s, i + 1, (depth - 1) as nat)
        }
    } else {
        close_brace_from(s, i + 1, depth)
    }
}

/// The braced group that opens at `p`: its contents, and the position just
/// past its closing brace.
pub open spec fn group_of(s: Seq<char>, p: int) -> Option<(Seq<char>, int)> {
    if 0 <= p < s.len() && s[p] == '{' {
        match close_brace_from(s, p + 1, 1) {
            Some(j) => Some((s.subrange(p + 1, j), j + 1)),
            None => None,
        }
    } else {
        None
    }
}

pub proof fn lemma_close_brace(s: Seq<char>, i: int, depth: nat)
    ensures
        close_brace_from(s, i, depth) matches Some(j) ==> 0 <= i <= j < s.len(),
    decreases s.len() - i,
{
    if 0 <= i < s.len() {
        if s[i] == '{' {
            lemma_close_brace(s, i + 1, depth + 1);
        } else if s[i] == '}' {
            if depth > 1 {
                lemma_close_brace(s, i + 1, (depth - 1) as nat);
            }
        } else {
            lemma_close_brace(s, i + 1, depth);
        }
    }
}

pub proof fn lemma_group(s: Seq<char>, p: int)
    ensures
        group_of(s, p) matches Some((g, e)) ==> p + 2 <= e <= s.len() && g.len() == e - p - 2,
{
    if 0 <= p < s.len() && s[p] == '{' {
        lemma_close_brace(s, p + 1, 1);
    }
}

/// `\frac{`, which starts a fraction.
pub open spec fn frac_pattern() -> Seq<char> {
    seq!['\\', 'f', 'r', 'a', 'c', '{']
}

/// `\sqrt{`, which starts a square root.
pub open spec fn sqrt_pattern() -> Seq<char> {
    seq!['\\', 's', 'q', 'r', 't', '{']
}

/// A fraction from `st` to `e` written as `(numerator) / (denominator)`.
pub open spec fn frac_replaced(s: Seq<char>, st: int, num: Seq<char>, den: Seq<char>, e: int) -> Seq<char> {
    s.take(st) + seq!['('] + num + seq![')', ' ', '/', ' ', '('] + den + seq![')'] + s.skip(e)
}

/// Every `\frac{a}{b}` written as `(a) / (b)`, from the front, until one
/// lacks its groups.
pub open spec fn replace_frac_of(s: Seq<char>) -> Seq<char>
    decreases s.len(),
{
    match find(s, frac_pattern()) {
        None => s,
        Some(st) => match group_of(s, st + 5int) {
            None => s,
            Some((num, a)) => match group_of(s, a) {
                None => s,
                Some((den, e)) => {
                    proof {
                        lemma_find_from(s, frac_pattern(), 0);
                        lemma_group(s, st + 5int);
                        lemma_group(s, a);
                    }
                    replace_frac_of(frac_replaced(s, st as int, num, den, e))
                },
            },
        },
    }
}

/// A square root from `st` to `e` written as `√(radicand)`.
pub open spec fn sqrt_replaced(s: Seq<char>, st: int, g: Seq<char>, e: int) -> Seq<char> {
    s.take(st) + seq!['√', '('] + g + seq![')'] + s.skip(e)
}

/// Every `\sqrt{a}` written as `√(a)`, from the front, until one lacks its
/// group.
pub open spec fn replace_sqrt_of(s: Seq<char>) -> Seq<char>
    decreases s.len(),
{
    match find(s, sqrt_pattern()) {
        None => s,
        Some(st) => match group_of(s, st + 5int) {
            None => s,
            Some((g, e)) => {
                proof {
                    lemma_find_from(s, sqrt_pattern(), 0);
                    lemma_group(s, st + 5int);
                }
                replace_sqrt_of(sqrt_replaced(s, st as int, g, e))
            },
        },
    }
}

/// `str::replace`: every occurrence of `from`, left to right, replaced by `to`.
pub open spec fn replace_all_of(s: Seq<char>, from: Seq<char>, to: Seq<char>) -> Seq<char>
    decreases s.len(),
{
    if from.len() == 0 {
        s
    } else {
        match find(s, from) {
            None => s,
            Some(i) => {
                proof {
                    lemma_find_from(s, from, 0);
                }
                s.take(i as int) + to + replace_all_of(s.skip(i + from.len() as int), from, to)
            },
        }
    }
}

/// The TeX commands shown as symbols, in the order they are replaced.
pub open spec fn symbol_table() -> Seq<(Seq<char>, Seq<char>)> {
    seq![
        ("\\alpha"@, "α"@), ("\\beta"@, "β"@), ("\\gamma"@, "γ"@), ("\\delta"@, "δ"@),
        ("\\epsilon"@, "ε"@), ("\\theta"@, "θ"@), ("\\lambda"@, "λ"@), ("\\mu"@, "μ"@),
        ("\\pi"@, "π"@), ("\\sigma"@, "σ"@), ("\\phi"@, "φ"@), ("\\omega"@, "ω"@),
        ("\\times"@, "×"@), ("\\cdot"@, "·"@), ("\\leq"@, "≤"@), ("\\geq"@, "≥"@),
        ("\\neq"@, "≠"@), ("\\approx"@, "≈"@), ("\\infty"@, "∞"@), ("\\sum"@, "Σ"@),
        ("\\int"@, "∫"@), ("\\rightarrow"@, "→"@), ("\\to"@, "→"@),
    ]
}

/// The replacements of `table` applied one after another.
pub open spec fn apply_symbols(s: Seq<char>, table: Seq<(Seq<char>, Seq<char>)>) -> Seq<char>
    decreases table.len(),
{
    if table.len() == 0 {
        s
    } else {
        apply_symbols(replace_all_of(s, table[0].0, table[0].1), table.drop_first())
    }
}

/// The superscript form of a digit.
pub open spec fn superscript_of(c: char) -> Option<char> {
    if c == '0' { Some('⁰') } else if c == '1' { Some('¹') } else if c == '2' { Some('²') }
    else if c == '3' { Some('³') } else if c == '4' { Some('⁴') } else if c == '5' { Some('⁵') }
    else if c == '6' { Some('⁶') } else if c == '7' { Some('⁷') } else if c == '8' { Some('⁸') }
    else if c == '9' { Some('⁹') } else { None }
}

/// The subscript form of a digit.
pub open spec fn subscript_of(c: char) -> Option<char> {
    if c == '0' { Some('₀') } else if c == '1' { Some('₁') } else if c == '2' { Some('₂') }
    else if c == '3' { Some('₃') } else if c == '4' { Some('₄') } else if c == '5' { Some('₅') }
    else if c == '6' { Some('₆') } else if c == '7' { Some('₇') } else if c == '8' { Some('₈') }
    else if c == '9' { Some('₉') } else { None }
}

/// The script form of a digit: superscript or subscript.
pub open spec fn script_of(c: char, superscript: bool) -> Option<char> {
    if superscript {
        superscript_of(c)
    } else {
        subscript_of(c)
    }
}

/// Each `marker` followed by a digit written as that digit in script form.
pub open spec fn replace_scripts_of(s: Seq<char>, marker: char, superscript: bool) -> Seq<char>
    decreases s.len(),
{
    if s.len() == 0 {
        s
    } else if s.len() >= 2 && s[0] == marker && script_of(s[1], superscript) is Some {
        seq![script_of(s[1], superscript).unwrap()] + replace_scripts_of(s.skip(2), marker, superscript)
    } else {
        seq![s[0]] + replace_scripts_of(s.drop_first(), marker, superscript)
    }
}

/// `s` without braces.
pub open spec fn without_braces(s: Seq<char>) -> Seq<char>
    decreases s.len(),
{
    if s.len() == 0 {
        s
    } else if s.last() == '{' || s.last() == '}' {
        without_braces(s.drop_last())
    } else {
        without_braces(s.drop_last()).push(s.last())
    }
}

/// A plain-text reading of TeX math: fractions, roots, common symbols and
/// digit scripts written out, braces dropped, whitespace collapsed. Nothing
/// when the source is blank or the reading adds nothing.
pub open spec fn readable_preview_of(source: Seq<char>) -> Option<Seq<char>> {
    let d = trim(source);
    if d.len() == 0 {
        None
    } else {
        let symbols = apply_symbols(replace_sqrt_of(replace_frac_of(d)), symbol_table());
        let scripts = replace_scripts_of(replace_scripts_of(symbols, '^', true), '_', false);
        let out = collapse_ws(without_braces(scripts));
        if out != d {
            Some(out)
        } else {
            None
        }
    }
}

fn close_brace(s: &[char], from: usize) -> (r: Option<usize>)
    requires
        from >= 1,
    ensures
        match close_brace_from(s@, from as int, 1) {
            Some(j) => r == Some(j as usize),
            None => r is None,
        },
{
    let n = s.len();
    let mut i = from;
    let mut depth: usize = 1;
    proof {
        lemma_close_brace(s@, from as int, 1);
    }
    while i < n
        invariant
            n == s@.len(),
            1 <= from <= i,
            1 <= depth <= i - from + 1,
            close_brace_from(s@, from as int, 1) == close_brace_from(s@, i as int, depth as nat),
        decreases n - i,
    {
        proof {
            lemma_close_brace(s@, i as int, depth as nat);
        }
        if s[i] == '{' {
            depth = depth + 1;
        } else if s[i] == '}' {
            if depth <= 1 {
                return Some(i);
            }
            depth = depth - 1;
        }
        i = i + 1;
    }
    None
}

fn group_at(s: &[char], p: usize) -> (r: Option<(Vec<char>, usize)>)
    ensures
        match group_of(s@, p as int) {
            Some((g, e)) => r matches Some((v, f)) && v@ == g && f == e,
            None => r is None,
        },
{
    if p >= s.len() || s[p] != '{' {
        return None;
    }
    proof {
        lemma_close_brace(s@, p + 1, 1);
    }
    match close_brace(s, p + 1) {
        Some(j) => Some((slice_chars(s, p + 1, j), j + 1)),
        None => None,
    }
}

fn replace_frac(s: Vec<char>) -> (r: Vec<char>)
    ensures
        r@ == replace_frac_of(s@),
{
    let pat = vec!['\\', 'f', 'r', 'a', 'c', '{'];
    let mut cur = s;
    loop
        invariant
            pat@ == frac_pattern(),
            replace_frac_of(s@) == replace_frac_of(cur@),
        decreases cur@.len(),
    {
        let len = cur.len();
        let st = match find_chars(cur.as_slice(), pat.as_slice()) {
            None => return cur,
            Some(st) => st,
        };
        proof {
            lemma_find_from(cur@, frac_pattern(), 0);
            lemma_group(cur@, st + 5);
        }
        let (num, a) = match group_at(cur.as_slice(), st + 5) {
            None => return cur,
            Some(found) => found,
        };
        proof {
            lemma_group(cur@, a as int);
        }
        let (den, e) = match group_at(cur.as_slice(), a) {
            None => return cur,
            Some(found) => found,
        };
        let mut next = slice_chars(cur.as_slice(), 0, st);
        next.push('(');
        extend_chars(&mut next, num.as_slice());
        next.push(')');
        next.push(' ');
        next.push('/');
        next.push(' ');
        next.push('(');
        extend_chars(&mut next, den.as_slice());
        next.push(')');
        let tail = slice_chars(cur.as_slice(), e, cur.len());
        extend_chars(&mut next, tail.as_slice());
        assert(next@ =~= frac_replaced(cur@, st as int, num@, den@, e as int));
        cur = next;
    }
}

fn replace_sqrt(s: Vec<char>) -> (r: Vec<char>)
    ensures
        r@ == replace_sqrt_of(s@),
{
    let pat = vec!['\\', 's', 'q', 'r', 't', '{'];
    let mut cur = s;
    loop
        invariant
            pat@ == sqrt_pattern(),
            replace_sqrt_of(s@) == replace_sqrt_of(cur@),
        decreases cur@.len(),
    {
        let len = cur.len();
        let st = match find_chars(cur.as_slice(), pat.as_slice()) {
            None => return cur,
            Some(st) => st,
        };
        proof {
            lemma_find_from(cur@, sqrt_pattern(), 0);
            lemma_group(cur@, st + 5);
        }
        let (g, e) = match group_at(cur.as_slice(), st + 5) {
            None => return cur,
            Some(found) => found,
        };
        let mut next = slice_chars(cur.as_slice(), 0, st);
        next.push('√');
        next.push('(');
        extend_chars(&mut next, g.as_slice());
        next.push(')');
        let tail = slice_chars(cur.as_slice(), e, cur.len());
        extend_chars(&mut next, tail.as_slice());
        assert(next@ =~= sqrt_replaced(cur@, st as int, g@, e as int));
        cur = next;
    }
}

fn replace_all(s: Vec<char>, from: &[char], to: &[char]) -> (r: Vec<char>)
    ensures
        r@ == replace_all_of(s@, from@, to@),
{
    if from.len() == 0 {
        return s;
    }
    let mut out: Vec<char> = Vec::new();
    let mut rest = s;
    loop
        invariant
            from@.len() > 0,
            replace_all_of(s@, from@, to@) == out@ + replace_all_of(rest@, from@, to@),
        decreases rest@.len(),
    {
        match find_chars(rest.as_slice(), from) {
            None => {
                extend_chars(&mut out, rest.as_slice());
                return out;
            },
            Some(i) => {
                let rl = rest.len();
                proof {
                    lemma_find_from(rest@, from@, 0);
                }
                let head = slice_chars(rest.as_slice(), 0, i);
                extend_chars(&mut out, head.as_slice());
                extend_chars(&mut out, to);
                let next = slice_chars(rest.as_slice(), i + from.len(), rest.len());
                assert(head@ =~= rest@.take(i as int));
                assert(next@ =~= rest@.skip(i + from@.len()));
                rest = next;
            },
        }
    }
}

fn superscript_digit(c: char) -> (r: Option<char>)
    ensures
        r == superscript_of(c),
{
    match c {
        '0' => Some('⁰'),
        '1' => Some('¹'),
        '2' => Some('²'),
        '3' => Some('³'),
        '4' => Some('⁴'),
        '5' => Some('⁵'),
        '6' => Some('⁶'),
        '7' => Some('⁷'),
        '8' => Some('⁸'),
        '9' => Some('⁹'),
        _ => None,
    }
}

fn subscript_digit(c: char) -> (r: Option<char>)
    ensures
        r == subscript_of(c),
{
    match c {
        '0' => Some('₀'),
        '1' => Some('₁'),
        '2' => Some('₂'),
        '3' => Some('₃'),
        '4' => Some('₄'),
        '5' => Some('₅'),
        '6' => Some('₆'),
        '7' => Some('₇'),
        '8' => Some('₈'),
        '9' => Some('₉'),
        _ => None,
    }
}

fn replace_scripts(s: &[char], marker: char, superscript: bool) -> (r: Vec<char>)
    ensures
        r@ == replace_scripts_of(s@, marker, superscript),
{
    let mut out: Vec<char> = Vec::new();
    let mut i: usize = 0;
    let n = s.len();
    assert(s@.skip(0) =~= s@);
    while i < n
        invariant
            n == s@.len(),
            i <= n,
            replace_scripts_of(s@, marker, superscript) == out@ + replace_scripts_of(s@.skip(i as int), marker, superscript),
        decreases n - i,
    {
        let ghost rest = s@.skip(i as int);
        let converted = if i + 1 < n && s[i] == marker {
            if superscript {
                superscript_digit(s[i + 1])
            } else {
                subscript_digit(s[i + 1])
            }
        } else {
            None
        };
        match converted {
            Some(c) => {
                assert(rest[0] == s@[i as int] && rest[1] == s@[i + 1]);
                assert(rest.skip(2) =~= s@.skip(i + 2));
                out.push(c);
                i = i + 2;
            },
            None => {
                proof {
                    assert(rest[0] == s@[i as int]);
                    if rest.len() >= 2 {
                        assert(rest[1] == s@[i + 1]);
                    }
                    assert(rest.drop_first() =~= s@.skip(i + 1));
                }
                out.push(s[i]);
                i = i + 1;
            },
        }
    }
    assert(s@.skip(i as int) =~= Seq::<char>::empty());
    assert(out@ + Seq::<char>::empty() =~= out@);
    out
}

fn remove_braces(s: &[char]) -> (r: Vec<char>)
    ensures
        r@ == without_braces(s@),
{
    let mut out: Vec<char> = Vec::new();
    let mut i: usize = 0;
    while i < s.len()
        invariant
            i <= s@.len(),
            out@ == without_braces(s@.take(i as int)),
        decreases s@.len() - i,
    {
        assert(s@.take(i + 1).drop_last() =~= s@.take(i as int));
        if s[i] != '{' && s[i] != '}' {
            out.push(s[i]);
        }
        i = i + 1;
    }
    assert(s@.take(s@.len() as int) =~= s@);
    out
}

/// The symbol replacements, in order.
fn symbol_pairs() -> (r: Vec<(Vec<char>, Vec<char>)>)
    ensures
        r@.len() == symbol_table().len(),
        forall|i: int| 0 <= i < r@.len() ==> (#[trigger] r@[i]).0@ == symbol_table()[i].0 && r@[i].1@ == symbol_table()[i].1,
{
    let mut r: Vec<(Vec<char>, Vec<char>)> = Vec::new();
    r.push((chars_of("\\alpha"), chars_of("α")));
    r.push((chars_of("\\beta"), chars_of("β")));
    r.push((chars_of("\\gamma"), chars_of("γ")));
    r.push((chars_of("\\delta"), chars_of("δ")));
    r.push((chars_of("\\epsilon"), chars_of("ε")));
    r.push((chars_of("\\theta"), chars_of("θ")));
    r.push((chars_of("\\lambda"), chars_of("λ")));
    r.push((chars_of("\\mu"), chars_of("μ")));
    r.push((chars_of("\\pi"), chars_of("π")));
    r.push((chars_of("\\sigma"), chars_of("σ")));
    r.push((chars_of("\\phi"), chars_of("φ")));
    r.push((chars_of("\\omega"), chars_of("ω")));
    r.push((chars_of("\\times"), chars_of("×")));
    r.push((chars_of("\\cdot"), chars_of("·")));
    r.push((chars_of("\\leq"), chars_of("≤")));
    r.push((chars_of("\\geq"), chars_of("≥")));
    r.push((chars_of("\\neq"), chars_of("≠")));
    r.push((chars_of("\\approx"), chars_of("≈")));
    r.push((chars_of("\\infty"), chars_of("∞")));
    r.push((chars_of("\\sum"), chars_of("Σ")));
    r.push((chars_of("\\int"), chars_of("∫")));
    r.push((chars_of("\\rightarrow"), chars_of("→")));
    r.push((chars_of("\\to"), chars_of("→")));
    r
}

fn replace_symbols(s: Vec<char>) -> (r: Vec<char>)
    ensures
        r@ == apply_symbols(s@, symbol_table()),
{
    let table = symbol_pairs();
    let ghost t = symbol_table();
    let mut cur = s;
    let mut i: usize = 0;
    assert(t.skip(0) =~= t);
    while i < table.len()
        invariant
            i <= table@.len(),
            table@.len() == t.len(),
            t == symbol_table(),
            forall|k: int| 0 <= k < table@.len() ==> (#[trigger] table@[k]).0@ == t[k].0 && table@[k].1@ == t[k].1,
            apply_symbols(s@, t) == apply_symbols(cur@, t.skip(i as int)),
        decreases table@.len() - i,
    {
        assert(t.skip(i as int)[0] == t[i as int]);
        assert(t.skip(i as int).drop_first() =~= t.skip(i + 1));
        cur = replace_all(cur, table[i].0.as_slice(), table[i].1.as_slice());
        i = i + 1;
    }
    assert(t.skip(table@.len() as int) =~= Seq::<(Seq<char>, Seq<char>)>::empty());
    cur
}

/// A plain-text reading of TeX math, when it differs from the source.
pub fn readable_preview(source: &str) -> (r: Option<String>)
    ensures
        match readable_preview_of(source@) {
            Some(t) => r matches Some(v) && v@ == t,
            None => r is None,
        },
{
    let cs = chars_of(source);
    let d = trim_chars(cs.as_slice());
    if d.len() == 0 {
        return None;
    }
    let fracs = replace_frac(d.clone());
    let roots = replace_sqrt(fracs);
    let symbols = replace_symbols(roots);
    let sup = replace_scripts(symbols.as_slice(), '^', true);
    let sub = replace_scripts(sup.as_slice(), '_', false);
    let plain = remove_braces(sub.as_slice());
    let out = collapse_whitespace(plain.as_slice());
    if crate::text::chars_eq(out.as_slice(), d.as_slice()) {
        None
    } else {
        Some(string_of(out.as_slice()))
    }
}

} // verus!
