use vstd::prelude::*;

verus! {

/// Which way to move the divider of the split view.
#[derive(Debug, Clone, Copy, PartialEq, Eq, Structural)]
pub enum SplitResize {
    GrowPrimary,
    ShrinkPrimary,
}

/// The split view: the document shown beside the active one, if any, and
/// the share of the width, in percent, that the active one takes.
#[derive(Debug, Clone, Copy, PartialEq, Eq, Structural)]
pub struct SplitViewState {
    secondary_index: Option<usize>,
    primary_width: u16,
}

/// The primary pane's width when nothing else is asked for, in percent.
pub const DEFAULT_PRIMARY_WIDTH: u16 = 50;
/// The narrowest the primary pane may be, in percent.
pub const MIN_PRIMARY_WIDTH: u16 = 30;
/// The widest the primary pane may be, in percent.
pub const MAX_PRIMARY_WIDTH: u16 = 70;
/// How far one resize moves the divider, in percent.
pub const RESIZE_STEP: u16 = 10;

/// `width` brought into the allowed range.
pub open spec fn clamped_width(width: u16) -> u16 {
    if width < MIN_PRIMARY_WIDTH {
        MIN_PRIMARY_WIDTH
    } else if width > MAX_PRIMARY_WIDTH {
        MAX_PRIMARY_WIDTH
    } else {
        width
    }
}

/// The width after one resize step, kept in the allowed range.
pub open spec fn resized_width_of(width: u16, direction: SplitResize) -> u16 {
    match direction {
        SplitResize::GrowPrimary => if width + RESIZE_STEP > MAX_PRIMARY_WIDTH {
            MAX_PRIMARY_WIDTH
        } else {
            (width + RESIZE_STEP) as u16
        },
        SplitResize::ShrinkPrimary => if width < MIN_PRIMARY_WIDTH + RESIZE_STEP {
            MIN_PRIMARY_WIDTH
        } else {
            (width - RESIZE_STEP) as u16
        },
    }
}

/// The first document other than the active one, when one is active.
pub open spec fn first_secondary_of(active_index: Option<usize>, document_count: usize) -> Option<usize> {
    match active_index {
        None => None,
        Some(active) => if active != 0 {
            if document_count > 0 {
                Some(0usize)
            } else {
                None
            }
        } else if document_count > 1 {
            Some(1usize)
        } else {
            None
        },
    }
}

/// How many documents can be shown beside the active one.
pub open spec fn candidate_count(active: usize, document_count: usize) -> int {
    if active < document_count {
        document_count - 1
    } else {
        document_count as int
    }
}

/// The `k`-th document, counting from zero, other than the active one.
pub open spec fn candidate_at(active: usize, k: int) -> int {
    if k < active {
        k
    } else {
        k + 1
    }
}

/// Where `current` stands among the documents other than the active one;
/// the front when it is not one of them.
pub open spec fn candidate_position(active: usize, document_count: usize, current: Option<usize>) -> int {
    match current {
        Some(c) => if c != active && c < document_count {
            if c < active {
                c as int
            } else {
                c - 1
            }
        } else {
            0
        },
        None => 0,
    }
}

/// `primary_offset`'s share of `primary_max`, applied to `secondary_max`
/// and rounded to the nearest line, halves away from zero.
pub open spec fn scroll_offset_of(primary_offset: u16, primary_max: u16, secondary_max: u16) -> int {
    if primary_max == 0 || secondary_max == 0 {
        0
    } else {
        let p = if primary_offset < primary_max {
            primary_offset
        } else {
            primary_max
        };
        (2 * p * secondary_max + primary_max) / (2 * primary_max as int)
    }
}

/// The offset in the secondary pane that matches `primary_offset` in the
/// primary one, by relative progress.
pub fn synced_scroll_offset(primary_offset: u16, primary_max: u16, secondary_max: u16) -> (r: u16)
    ensures
        r == scroll_offset_of(primary_offset, primary_max, secondary_max),
        r <= secondary_max,
{
    if primary_max == 0 || secondary_max == 0 {
        return 0;
    }
    let p: u64 = if primary_offset < primary_max {
        primary_offset as u64
    } else {
        primary_max as u64
    };
    let s = secondary_max as u64;
    let m = primary_max as u64;
    assert(2 * p * s + m <= 2 * 65535 * 65535 + 65535) by (nonlinear_arith)
        requires
            p <= 65535,
            s <= 65535,
            m <= 65535,
    ;
    let r = (2 * p * s + m) / (2 * m);
    assert(p * s <= m * s) by (nonlinear_arith)
        requires
            p <= m,
            s >= 0,
    ;
    assert(2 * p * s + m < (2 * m) * (s + 1)) by (nonlinear_arith)
        requires
            p * s <= m * s,
            m > 0,
    ;
    assert(r <= s) by (nonlinear_arith)
        requires
            r == (2 * p * s + m) / (2 * m),
            2 * p * s + m < (2 * m) * (s + 1),
            m > 0,
    ;
    r as u16
}

impl View for SplitViewState {
    type V = (Option<usize>, u16);

    closed spec fn view(&self) -> (Option<usize>, u16) {
        (self.secondary_index, self.primary_width)
    }
}

impl SplitViewState {
    /// The primary width stays in the allowed range.
    #[verifier::type_invariant]
    spec fn width_in_range(self) -> bool {
        MIN_PRIMARY_WIDTH <= self.primary_width <= MAX_PRIMARY_WIDTH
    }

    /// A split view with nothing beside the active document, its primary
    /// width brought into range.
    pub fn new(primary_width: u16) -> (r: SplitViewState)
        ensures
            r@ == (None::<usize>, clamped_width(primary_width)),
    {
        SplitViewState { secondary_index: None, primary_width: clamp_primary_width(primary_width) }
    }

    /// The document shown beside the active one.
    pub fn secondary_index(&self) -> (r: Option<usize>)
        ensures
            r == self@.0,
    {
        self.secondary_index
    }

    /// Whether a document is shown beside the active one.
    pub fn is_enabled(&self) -> (r: bool)
        ensures
            r == self@.0 is Some,
    {
        self.secondary_index.is_some()
    }

    /// The primary pane's width, in percent.
    pub fn primary_width(&self) -> (r: u16)
        ensures
            r == self@.1,
            MIN_PRIMARY_WIDTH <= r <= MAX_PRIMARY_WIDTH,
    {
        proof {
            use_type_invariant(self);
        }
        self.primary_width
    }

    /// The widths of the two panes, in percent; they add up to a hundred.
    pub fn widths(&self) -> (r: (u16, u16))
        ensures
            r.0 == self@.1,
            r.0 + r.1 == 100,
    {
        proof {
            use_type_invariant(self);
        }
        (self.primary_width, 100 - self.primary_width)
    }

    /// Turns the split off if it is on; else shows the first document other
    /// than the active one beside it, if there is one.
    pub fn toggle(&mut self, active_index: Option<usize>, document_count: usize)
        ensures
            final(self)@.1 == old(self)@.1,
            old(self)@.0 is Some ==> final(self)@.0 is None,
            old(self)@.0 is None ==> final(self)@.0 == first_secondary_of(active_index, document_count),
    {
        proof {
            use_type_invariant(&*self);
        }
        if self.secondary_index.is_none() {
            self.secondary_index = first_secondary_index(active_index, document_count);
        } else {
            self.secondary_index = None;
        }
    }

    /// Turns the split off.
    pub fn disable(&mut self)
        ensures
            final(self)@ == (None::<usize>, old(self)@.1),
    {
        proof {
            use_type_invariant(&*self);
        }
        self.secondary_index = None;
    }

    /// Shows document `index` beside the active one, when the split is on and
    /// `index` is another document that exists.
    pub fn select_secondary(&mut self, index: usize, active_index: Option<usize>, len: usize)
        ensures
            final(self)@.1 == old(self)@.1,
            final(self)@.0 == if old(self)@.0 is Some && active_index != Some(index) && index < len {
                Some(index)
            } else {
                old(self)@.0
            },
    {
        proof {
            use_type_invariant(&*self);
        }
        let is_active = match active_index {
            Some(a) => a == index,
            None => false,
        };
        if self.is_enabled() && !is_active && index < len {
            self.secondary_index = Some(index);
        }
    }

    /// After the documents or the active one changed: a secondary that is now
    /// the active document, or gone, moves to the first other document.
    pub fn retarget(&mut self, active_index: Option<usize>, document_count: usize)
        ensures
            final(self)@.1 == old(self)@.1,
            final(self)@.0 == match old(self)@.0 {
                Some(index) => if active_index == Some(index) || index >= document_count {
                    first_secondary_of(active_index, document_count)
                } else {
                    Some(index)
                },
                None => None,
            },
    {
        proof {
            use_type_invariant(&*self);
        }
        match self.secondary_index {
            Some(index) => {
                let is_active = match active_index {
                    Some(a) => a == index,
                    None => false,
                };
                if is_active || index >= document_count {
                    self.secondary_index = first_secondary_index(active_index, document_count);
                }
            },
            None => {},
        }
    }

    /// Moves the divider one step, when the split is on; says whether it did.
    pub fn resize(&mut self, direction: SplitResize) -> (r: bool)
        ensures
            r == old(self)@.0 is Some,
            final(self)@.0 == old(self)@.0,
            final(self)@.1 == if r {
                resized_width_of(old(self)@.1, direction)
            } else {
                old(self)@.1
            },
    {
        if !self.is_enabled() {
            return false;
        }
        proof {
            use_type_invariant(&*self);
        }
        self.primary_width = resized_width(self.primary_width, direction);
        true
    }

    /// Sets the primary width, brought into range.
    pub fn set_primary_width(&mut self, width: u16)
        ensures
            final(self)@ == (old(self)@.0, clamped_width(width)),
    {
        self.primary_width = clamp_primary_width(width);
    }

    /// The document `offset` places away from the secondary one among those
    /// other than the active one, wrapping around; the secondary itself when
    /// the split is off.
    pub fn cycle_secondary(&self, active_index: Option<usize>, document_count: usize, offset: isize) -> (r: Option<usize>)
        ensures
            r == match (self@.0, active_index) {
                (None, _) => None::<usize>,
                (Some(_), None) => None::<usize>,
                (Some(current), Some(active)) => if candidate_count(active, document_count) == 0 {
                    None::<usize>
                } else {
                    Some(candidate_at(active, (candidate_position(active, document_count, Some(current)) + offset) % candidate_count(active, document_count)) as usize)
                },
            },
    {
        let current = match self.secondary_index {
            None => return None,
            Some(c) => c,
        };
        let active = match active_index {
            None => return None,
            Some(a) => a,
        };
        let count: usize = if active < document_count {
            document_count - 1
        } else {
            document_count
        };
        if count == 0 {
            return None;
        }
        let position: usize = if current != active && current < document_count {
            if current < active {
                current
            } else {
                current - 1
            }
        } else {
            0
        };
        let ghost target = (position + offset) % (count as int);
        let next: usize = if offset >= 0 {
            ((position as u128 + offset as u128) % (count as u128)) as usize
        } else {
            let back = ((-(offset as i128)) as u128 % (count as u128)) as usize;
            proof {
                lemma_wrap_back(position as int, -(offset as int), count as int);
            }
            (((position as u128) + (count as u128) - (back as u128)) % (count as u128)) as usize
        };
        assert(next == target);
        assert(next < count);
        if next < active {
            Some(next)
        } else {
            Some(next + 1)
        }
    }
}

/// Stepping back `b` from `p` around a circle of `m` places.
proof fn lemma_wrap_back(p: int, b: int, m: int)
    requires
        0 <= p < m,
        b > 0,
    ensures
        (p + m - b % m) % m == (p - b) % m,
{
    let q = b / m;
    let r = b % m;
    vstd::arithmetic::div_mod::lemma_fundamental_div_mod(b, m);
    assert(p - b == m * (-(q + 1)) + (p + m - r)) by (nonlinear_arith)
        requires
            b == m * q + r,
    ;
    vstd::arithmetic::div_mod::lemma_mod_multiples_vanish(-(q + 1), p + m - r, m);
}

impl Default for SplitViewState {
    /// The split off, at the default width.
    fn default() -> (r: SplitViewState)
        ensures
            r@ == (None::<usize>, DEFAULT_PRIMARY_WIDTH),
    {
        SplitViewState::new(DEFAULT_PRIMARY_WIDTH)
    }
}

fn resized_width(width: u16, direction: SplitResize) -> (r: u16)
    requires
        MIN_PRIMARY_WIDTH <= width <= MAX_PRIMARY_WIDTH,
    ensures
        r == resized_width_of(width, direction),
        MIN_PRIMARY_WIDTH <= r <= MAX_PRIMARY_WIDTH,
{
    match direction {
        SplitResize::GrowPrimary => {
            if width + RESIZE_STEP > MAX_PRIMARY_WIDTH {
                MAX_PRIMARY_WIDTH
            } else {
                width + RESIZE_STEP
            }
        },
        SplitResize::ShrinkPrimary => {
            if width < MIN_PRIMARY_WIDTH + RESIZE_STEP {
                MIN_PRIMARY_WIDTH
            } else {
                width - RESIZE_STEP
            }
        },
    }
}

fn first_secondary_index(active_index: Option<usize>, document_count: usize) -> (r: Option<usize>)
    ensures
        r == first_secondary_of(active_index, document_count),
{
    let active = match active_index {
        None => return None,
        Some(a) => a,
    };
    if active != 0 {
        if document_count > 0 {
            Some(0)
        } else {
            None
        }
    } else if document_count > 1 {
        Some(1)
    } else {
        None
    }
}

fn clamp_primary_width(width: u16) -> (r: u16)
    ensures
        r == clamped_width(width),
{
    if width < MIN_PRIMARY_WIDTH {
        MIN_PRIMARY_WIDTH
    } else if width > MAX_PRIMARY_WIDTH {
        MAX_PRIMARY_WIDTH
    } else {
        width
    }
}

/// The secondary document, whenever one is chosen for a given active one,
/// is another document that exists.
pub proof fn lemma_first_secondary_is_other(active_index: Option<usize>, document_count: usize)
    ensures
        first_secondary_of(active_index, document_count) matches Some(i) ==> (i < document_count
            && active_index != Some(i)),
{
}

/// Resizing keeps the primary width in the allowed range, and the two panes
/// always share the whole width.
pub proof fn lemma_resize_in_range(width: u16, direction: SplitResize)
    requires
        MIN_PRIMARY_WIDTH <= width <= MAX_PRIMARY_WIDTH,
    ensures
        MIN_PRIMARY_WIDTH <= resized_width_of(width, direction) <= MAX_PRIMARY_WIDTH,
{
}

} // verus!
