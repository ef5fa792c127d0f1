use vstd::prelude::*;

use crate::text::{chars_of, string_of};

verus! {

/// How many lines of the editor are on screen.
pub const EDIT_VIEWPORT_LINES: usize = 16;

/// How many lines a page key moves.
pub const EDIT_PAGE_LINES: usize = 12;

/// The line and column, counted in characters, after the text `s`.
pub open spec fn line_col_of(s: Seq<char>) -> (nat, nat)
    decreases s.len(),
{
    if s.len() == 0 {
        (0, 0)
    } else {
        let (l, c) = line_col_of(s.drop_last());
        if s.last() == '\n' {
            (l + 1, 0)
        } else {
            (l, c + 1)
        }
    }
}

/// Where the cursor lands for a line and column, scanning from position `i`
/// at line `line` and column `col`: at the column, or at the end of the
/// line when it is shorter, or at the end of the text when the line does
/// not exist.
pub open spec fn offset_scan(s: Seq<char>, i: nat, line: nat, col: nat, tl: nat, tc: nat) -> nat
    decreases s.len() - i,
{
    if i >= s.len() {
        s.len()
    } else if line == tl && col == tc {
        i
    } else if line == tl && s[i as int] == '\n' {
        i
    } else if s[i as int] == '\n' {
        if line + 1 > tl {
            i
        } else {
            offset_scan(s, i + 1, line + 1, 0, tl, tc)
        }
    } else {
        offset_scan(s, i + 1, line, col + 1, tl, tc)
    }
}

/// Where line `tl` ends, scanning from position `i` at line `line`.
pub open spec fn line_end_scan(s: Seq<char>, i: nat, line: nat, tl: nat) -> nat
    decreases s.len() - i,
{
    if i >= s.len() {
        s.len()
    } else if line == tl && s[i as int] == '\n' {
        i
    } else if s[i as int] == '\n' {
        line_end_scan(s, i + 1, line + 1, tl)
    } else {
        line_end_scan(s, i + 1, line, tl)
    }
}

/// How many newlines a text has.
pub open spec fn newline_count(s: Seq<char>) -> nat
    decreases s.len(),
{
    if s.len() == 0 {
        0
    } else {
        newline_count(s.drop_last()) + if s.last() == '\n' {
            1nat
        } else {
            0nat
        }
    }
}

/// How many lines a text has: one more than its newlines.
pub open spec fn line_count_of(s: Seq<char>) -> nat {
    newline_count(s) + 1
}

/// How far the editor can scroll, in lines, at most `u16::MAX`.
pub open spec fn max_scroll_of(s: Seq<char>) -> u16 {
    let over = if line_count_of(s) > EDIT_VIEWPORT_LINES {
        (line_count_of(s) - EDIT_VIEWPORT_LINES) as nat
    } else {
        0
    };
    if over > u16::MAX {
        u16::MAX
    } else {
        over as u16
    }
}

/// The scroll that shows the cursor's line, kept within the maximum.
pub open spec fn visible_scroll(s: Seq<char>, cursor: nat, scroll: u16) -> u16 {
    let line = line_col_of(s.take(cursor as int)).0;
    let moved: u16 = if line < scroll {
        line as u16
    } else if line >= scroll + EDIT_VIEWPORT_LINES {
        (if line >= EDIT_VIEWPORT_LINES - 1 {
            (line - (EDIT_VIEWPORT_LINES - 1)) as nat
        } else {
            0nat
        }) as u16
    } else {
        scroll
    };
    if moved < max_scroll_of(s) {
        moved
    } else {
        max_scroll_of(s)
    }
}

/// An editor buffer as a value: its text, the cursor as a character
/// position, and the first line on screen.
pub struct EditorView {
    pub text: Seq<char>,
    pub cursor: nat,
    pub scroll: u16,
}

/// The text of a document being edited, with a cursor and a scroll
/// position that keeps the cursor's line on screen.
#[derive(Debug)]
pub struct EditorBuffer {
    text: Vec<char>,
    cursor: usize,
    scroll: u16,
}

impl View for EditorBuffer {
    type V = EditorView;

    closed spec fn view(&self) -> EditorView {
        EditorView { text: self.text@, cursor: self.cursor as nat, scroll: self.scroll }
    }
}

/// The editor after moving the cursor to `cursor` and scrolling to it.
pub open spec fn moved_to(e: EditorView, cursor: nat) -> EditorView {
    EditorView { text: e.text, cursor, scroll: visible_scroll(e.text, cursor, e.scroll) }
}

/// The line the cursor is on, and its column.
pub open spec fn cursor_line_col(e: EditorView) -> (nat, nat) {
    line_col_of(e.text.take(e.cursor as int))
}

fn line_col(text: &Vec<char>, cursor: usize) -> (r: (usize, usize))
    requires
        cursor <= text@.len(),
    ensures
        r.0 as nat == line_col_of(text@.take(cursor as int)).0,
        r.1 as nat == line_col_of(text@.take(cursor as int)).1,
{
    let mut line: usize = 0;
    let mut col: usize = 0;
    let mut i: usize = 0;
    assert(text@.take(0) =~= Seq::<char>::empty());
    while i < cursor
        invariant
            i <= cursor <= text@.len(),
            line as nat == line_col_of(text@.take(i as int)).0,
            col as nat == line_col_of(text@.take(i as int)).1,
            line <= i,
            col <= i,
        decreases cursor - i,
    {
        assert(text@.take(i + 1).drop_last() =~= text@.take(i as int));
        if text[i] == '\n' {
            line = line + 1;
            col = 0;
        } else {
            col = col + 1;
        }
        i = i + 1;
    }
    (line, col)
}

fn offset_for(text: &Vec<char>, tl: usize, tc: usize) -> (r: usize)
    ensures
        r as nat == offset_scan(text@, 0, 0, 0, tl as nat, tc as nat),
        r <= text@.len(),
{
    let mut line: usize = 0;
    let mut col: usize = 0;
    let mut i: usize = 0;
    while i < text.len()
        invariant
            i <= text@.len(),
            line <= i,
            col <= i,
            offset_scan(text@, 0, 0, 0, tl as nat, tc as nat) == offset_scan(
                text@,
                i as nat,
                line as nat,
                col as nat,
                tl as nat,
                tc as nat,
            ),
        decreases text@.len() - i,
    {
        if line == tl && col == tc {
            return i;
        }
        if line == tl && text[i] == '\n' {
            return i;
        }
        if text[i] == '\n' {
            if line + 1 > tl {
                return i;
            }
            line = line + 1;
            col = 0;
        } else {
            col = col + 1;
        }
        i = i + 1;
    }
    text.len()
}

fn line_end(text: &Vec<char>, tl: usize) -> (r: usize)
    ensures
        r as nat == line_end_scan(text@, 0, 0, tl as nat),
        r <= text@.len(),
{
    let mut line: usize = 0;
    let mut i: usize = 0;
    while i < text.len()
        invariant
            i <= text@.len(),
            line <= i,
            line_end_scan(text@, 0, 0, tl as nat) == line_end_scan(text@, i as nat, line as nat, tl as nat),
        decreases text@.len() - i,
    {
        if line == tl && text[i] == '\n' {
            return i;
        }
        if text[i] == '\n' {
            line = line + 1;
        }
        i = i + 1;
    }
    text.len()
}

fn newlines(text: &Vec<char>) -> (r: usize)
    ensures
        r as nat == newline_count(text@),
        r <= text@.len(),
{
    let mut n: usize = 0;
    let mut i: usize = 0;
    assert(text@.take(0) =~= Seq::<char>::empty());
    while i < text.len()
        invariant
            i <= text@.len(),
            n as nat == newline_count(text@.take(i as int)),
            n <= i,
        decreases text@.len() - i,
    {
        assert(text@.take(i + 1).drop_last() =~= text@.take(i as int));
        if text[i] == '\n' {
            n = n + 1;
        }
        i = i + 1;
    }
    assert(text@.take(text@.len() as int) =~= text@);
    n
}

fn max_scroll(text: &Vec<char>) -> (r: u16)
    ensures
        r == max_scroll_of(text@),
{
    let lines = newlines(text) as u128 + 1;
    let over: u128 = if lines > 16 {
        lines - 16
    } else {
        0
    };
    if over > 65535 {
        65535
    } else {
        over as u16
    }
}

fn scroll_for(text: &Vec<char>, cursor: usize, scroll: u16) -> (r: u16)
    requires
        cursor <= text@.len(),
    ensures
        r == visible_scroll(text@, cursor as nat, scroll),
{
    let (line, _) = line_col(text, cursor);
    let moved: u16 = if line < scroll as usize {
        line as u16
    } else if line as u128 >= scroll as u128 + 16 {
        (if line >= 15 {
            line - 15
        } else {
            0
        }) as u16
    } else {
        scroll
    };
    let most = max_scroll(text);
    if moved < most {
        moved
    } else {
        most
    }
}


/// The line the cursor moves to for a vertical move of `delta` lines: up to
/// the first line, down to the last.
pub open spec fn target_line_of(e: EditorView, delta: int) -> nat {
    let line = cursor_line_col(e).0;
    if delta < 0 {
        if line + delta >= 0 {
            (line + delta) as nat
        } else {
            0
        }
    } else if line + delta <= newline_count(e.text) {
        (line + delta) as nat
    } else {
        newline_count(e.text)
    }
}

/// A page move of `direction` pages, in lines, as `isize` arithmetic gives it.
pub open spec fn page_delta(direction: isize) -> int {
    let d = direction * EDIT_PAGE_LINES;
    if d < isize::MIN {
        isize::MIN as int
    } else if d > isize::MAX {
        isize::MAX as int
    } else {
        d
    }
}

impl EditorBuffer {
    #[verifier::type_invariant]
    spec fn cursor_in_text(self) -> bool {
        self.cursor <= self.text@.len()
    }

    /// The editor for a text, with the cursor at its end and its line on
    /// screen.
    pub fn from_text(text: &str) -> (r: EditorBuffer)
        ensures
            r@ == moved_to(EditorView { text: text@, cursor: 0, scroll: 0 }, text@.len()),
    {
        let chars = chars_of(text);
        let cursor = chars.len();
        let scroll = scroll_for(&chars, cursor, 0);
        EditorBuffer { text: chars, cursor, scroll }
    }

    /// The text.
    pub fn text(&self) -> (r: String)
        ensures
            r@ == self@.text,
    {
        string_of(self.text.as_slice())
    }

    /// The cursor, as a character position.
    pub fn cursor(&self) -> (r: usize)
        ensures
            r == self@.cursor,
            r <= self@.text.len(),
    {
        proof {
            use_type_invariant(self);
        }
        self.cursor
    }

    /// The first line on screen.
    pub fn scroll(&self) -> (r: u16)
        ensures
            r == self@.scroll,
    {
        self.scroll
    }

    /// The cursor's line and column, counted from zero in characters.
    pub fn cursor_line_column(&self) -> (r: (usize, usize))
        ensures
            r.0 as nat == cursor_line_col(self@).0,
            r.1 as nat == cursor_line_col(self@).1,
    {
        proof {
            use_type_invariant(self);
        }
        line_col(&self.text, self.cursor)
    }

    fn take_text(&mut self) -> (r: Vec<char>)
        ensures
            r@ == old(self)@.text,
    {
        let mut taken = EditorBuffer { text: Vec::new(), cursor: 0, scroll: 0 };
        std::mem::swap(&mut taken, self);
        let EditorBuffer { text, .. } = taken;
        text
    }

    fn move_cursor(&mut self, cursor: usize)
        requires
            cursor <= old(self)@.text.len(),
        ensures
            final(self)@ == moved_to(old(self)@, cursor as nat),
    {
        let scroll = scroll_for(&self.text, cursor, self.scroll);
        self.cursor = cursor;
        self.scroll = scroll;
    }

    /// Types a character at the cursor, which moves past it.
    pub fn insert_char(&mut self, c: char)
        ensures
            final(self)@ == moved_to(
                EditorView { text: old(self)@.text.insert(old(self)@.cursor as int, c), ..old(self)@ },
                old(self)@.cursor + 1,
            ),
    {
        proof {
            use_type_invariant(&*self);
        }
        let cursor = self.cursor;
        let scroll = self.scroll;
        let mut text = self.take_text();
        text.insert(cursor, c);
        let n = text.len();
        assert(cursor + 1 <= n);
        let scroll = scroll_for(&text, cursor + 1, scroll);
        *self = EditorBuffer { text, cursor: cursor + 1, scroll };
    }

    /// Deletes the character before the cursor, if there is one.
    pub fn backspace(&mut self)
        ensures
            old(self)@.cursor > 0 ==> final(self)@ == moved_to(
                EditorView { text: old(self)@.text.remove(old(self)@.cursor - 1), ..old(self)@ },
                (old(self)@.cursor - 1) as nat,
            ),
            old(self)@.cursor == 0 ==> final(self)@ == old(self)@,
    {
        proof {
            use_type_invariant(&*self);
        }
        if self.cursor == 0 {
            return;
        }
        let cursor = self.cursor - 1;
        let scroll = self.scroll;
        let mut text = self.take_text();
        text.remove(cursor);
        let scroll = scroll_for(&text, cursor, scroll);
        *self = EditorBuffer { text, cursor, scroll };
    }

    /// Deletes the character at the cursor, if there is one.
    pub fn delete(&mut self)
        ensures
            old(self)@.cursor < old(self)@.text.len() ==> final(self)@ == moved_to(
                EditorView { text: old(self)@.text.remove(old(self)@.cursor as int), ..old(self)@ },
                old(self)@.cursor,
            ),
            old(self)@.cursor == old(self)@.text.len() ==> final(self)@ == old(self)@,
    {
        proof {
            use_type_invariant(&*self);
        }
        if self.cursor == self.text.len() {
            return;
        }
        let cursor = self.cursor;
        let scroll = self.scroll;
        let mut text = self.take_text();
        text.remove(cursor);
        let scroll = scroll_for(&text, cursor, scroll);
        *self = EditorBuffer { text, cursor, scroll };
    }

    /// Moves the cursor one character back, if it can.
    pub fn move_left(&mut self)
        ensures
            old(self)@.cursor > 0 ==> final(self)@ == moved_to(old(self)@, (old(self)@.cursor - 1) as nat),
            old(self)@.cursor == 0 ==> final(self)@ == old(self)@,
    {
        proof {
            use_type_invariant(&*self);
        }
        if self.cursor > 0 {
            self.move_cursor(self.cursor - 1);
        }
    }

    /// Moves the cursor one character on, if it can.
    pub fn move_right(&mut self)
        ensures
            old(self)@.cursor < old(self)@.text.len() ==> final(self)@ == moved_to(old(self)@, old(self)@.cursor + 1),
            old(self)@.cursor == old(self)@.text.len() ==> final(self)@ == old(self)@,
    {
        proof {
            use_type_invariant(&*self);
        }
        if self.cursor < self.text.len() {
            self.move_cursor(self.cursor + 1);
        }
    }

    /// Moves the cursor to the start of its line.
    pub fn move_to_line_start(&mut self)
        ensures
            final(self)@ == moved_to(old(self)@, offset_scan(old(self)@.text, 0, 0, 0, cursor_line_col(old(self)@).0, 0)),
    {
        proof {
            use_type_invariant(&*self);
        }
        let (line, _) = line_col(&self.text, self.cursor);
        let target = offset_for(&self.text, line, 0);
        self.move_cursor(target);
    }

    /// Moves the cursor to the end of its line.
    pub fn move_to_line_end(&mut self)
        ensures
            final(self)@ == moved_to(old(self)@, line_end_scan(old(self)@.text, 0, 0, cursor_line_col(old(self)@).0)),
    {
        proof {
            use_type_invariant(&*self);
        }
        let (line, _) = line_col(&self.text, self.cursor);
        let target = line_end(&self.text, line);
        self.move_cursor(target);
    }

    /// Moves the cursor `delta` lines up or down, keeping its column where
    /// the line is long enough.
    pub fn move_vertical(&mut self, delta: isize)
        ensures
            final(self)@ == moved_to(
                old(self)@,
                offset_scan(old(self)@.text, 0, 0, 0, target_line_of(old(self)@, delta as int), cursor_line_col(old(self)@).1),
            ),
    {
        proof {
            use_type_invariant(&*self);
        }
        let (line, column) = line_col(&self.text, self.cursor);
        let last = newlines(&self.text);
        let target: usize = if delta < 0 {
            let up: u128 = (-(delta as i128)) as u128;
            if line as u128 >= up {
                line - up as usize
            } else {
                0
            }
        } else {
            let down = delta as u128;
            if line as u128 + down <= last as u128 {
                line + delta as usize
            } else {
                last
            }
        };
        let offset = offset_for(&self.text, target, column);
        self.move_cursor(offset);
    }

    /// Moves the cursor a page of lines up (negative) or down (positive).
    pub fn page(&mut self, direction: isize)
        ensures
            final(self)@ == moved_to(
                old(self)@,
                offset_scan(old(self)@.text, 0, 0, 0, target_line_of(old(self)@, page_delta(direction)), cursor_line_col(old(self)@).1),
            ),
    {
        let d = direction as i128 * 12;
        let delta: isize = if d < isize::MIN as i128 {
            isize::MIN
        } else if d > isize::MAX as i128 {
            isize::MAX
        } else {
            d as isize
        };
        self.move_vertical(delta);
    }
}


proof fn lemma_line_at_most_newlines(s: Seq<char>)
    ensures
        line_col_of(s).0 == newline_count(s),
    decreases s.len(),
{
    if s.len() > 0 {
        lemma_line_at_most_newlines(s.drop_last());
    }
}

proof fn lemma_newlines_prefix(s: Seq<char>, k: int)
    requires
        0 <= k <= s.len(),
    ensures
        newline_count(s.take(k)) <= newline_count(s),
    decreases s.len() - k,
{
    if k < s.len() {
        lemma_newlines_prefix(s, k + 1);
        assert(s.take(k + 1).drop_last() =~= s.take(k));
    } else {
        assert(s.take(k) =~= s);
    }
}

/// After any move, the cursor's line is on screen: it is at most a screen
/// below the first line shown. This holds while line numbers fit in the
/// scroll position's sixteen bits.
pub proof fn lemma_cursor_line_visible(text: Seq<char>, cursor: nat, scroll: u16)
    requires
        cursor <= text.len(),
        newline_count(text) < u16::MAX,
    ensures
        visible_scroll(text, cursor, scroll) <= line_col_of(text.take(cursor as int)).0,
        line_col_of(text.take(cursor as int)).0 < visible_scroll(text, cursor, scroll) + EDIT_VIEWPORT_LINES,
        visible_scroll(text, cursor, scroll) <= max_scroll_of(text),
{
    lemma_line_at_most_newlines(text.take(cursor as int));
    lemma_newlines_prefix(text, cursor as int);
}

/// Deleting back after typing a character gives the text and cursor back.
pub proof fn lemma_backspace_undoes_insert(e: EditorView, c: char)
    requires
        e.cursor <= e.text.len(),
    ensures
        ({
            let typed = moved_to(EditorView { text: e.text.insert(e.cursor as int, c), ..e }, e.cursor + 1);
            &&& typed.cursor > 0
            &&& typed.text.remove(typed.cursor - 1) == e.text
            &&& (typed.cursor - 1) as nat == e.cursor
        }),
{
    assert(e.text.insert(e.cursor as int, c).remove(e.cursor as int) =~= e.text);
}

} // verus!
