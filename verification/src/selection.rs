use vstd::prelude::*;

verus! {

/// A selection kept inside a list of `len` entries: none when the list is
/// empty, else the selected entry, or the first one when nothing was
/// selected, moved back to the last entry when it lies past the end.
pub open spec fn clamped_selection(selection: Option<usize>, len: usize) -> Option<usize> {
    if len == 0 {
        None
    } else {
        let wanted = match selection {
            Some(i) => i,
            None => 0,
        };
        Some(
            if wanted < len {
                wanted
            } else {
                (len - 1) as usize
            },
        )
    }
}

fn clamp_selection(selection: Option<usize>, len: usize) -> (r: Option<usize>)
    ensures
        r == clamped_selection(selection, len),
{
    if len == 0 {
        None
    } else {
        let wanted = match selection {
            Some(i) => i,
            None => 0,
        };
        Some(
            if wanted < len {
                wanted
            } else {
                len - 1
            },
        )
    }
}

/// The table-of-contents selection after the headings changed.
pub fn clamp_toc_selection(selection: Option<usize>, len: usize) -> (r: Option<usize>)
    ensures
        r == clamped_selection(selection, len),
{
    clamp_selection(selection, len)
}

/// The search-match selection after the matches changed.
pub fn clamp_search_selection(selection: Option<usize>, len: usize) -> (r: Option<usize>)
    ensures
        r == clamped_selection(selection, len),
{
    clamp_selection(selection, len)
}

/// The bookmark selection after the bookmarks changed.
pub fn clamp_bookmark_selection(selection: Option<usize>, len: usize) -> (r: Option<usize>)
    ensures
        r == clamped_selection(selection, len),
{
    clamp_selection(selection, len)
}

/// The entry after the selected one, wrapping to the first; the first when
/// nothing is selected; none in an empty list.
pub open spec fn next_wrapping_of(selection: Option<usize>, len: usize) -> Option<usize> {
    if len == 0 {
        None
    } else {
        match selection {
            Some(i) => Some(((i + 1) % (len as int)) as usize),
            None => Some(0),
        }
    }
}

/// The entry before the selected one, wrapping to the last; the first when
/// nothing is selected; none in an empty list.
pub open spec fn previous_wrapping_of(selection: Option<usize>, len: usize) -> Option<usize> {
    if len == 0 {
        None
    } else {
        match selection {
            Some(i) => Some(
                if i == 0 {
                    (len - 1) as usize
                } else {
                    (i - 1) as usize
                },
            ),
            None => Some(0),
        }
    }
}

/// Moves a selection to the next entry of a list, wrapping around.
pub fn select_next_wrapping(selection: Option<usize>, len: usize) -> (r: Option<usize>)
    ensures
        r == next_wrapping_of(selection, len),
{
    if len == 0 {
        return None;
    }
    match selection {
        Some(i) => Some(((i as u128 + 1) % (len as u128)) as usize),
        None => Some(0),
    }
}

/// Moves a selection to the previous entry of a list, wrapping around.
pub fn select_previous_wrapping(selection: Option<usize>, len: usize) -> (r: Option<usize>)
    ensures
        r == previous_wrapping_of(selection, len),
{
    if len == 0 {
        return None;
    }
    match selection {
        Some(i) => Some(
            if i == 0 {
                len - 1
            } else {
                i - 1
            },
        ),
        None => Some(0),
    }
}

/// Whatever the list, a kept selection names one of its entries.
pub proof fn lemma_clamped_selection_in_range(selection: Option<usize>, len: usize)
    ensures
        clamped_selection(selection, len) matches Some(i) ==> i < len,
        clamped_selection(selection, len) is None <==> len == 0,
        (selection matches Some(i) && i < len) ==> clamped_selection(selection, len) == selection,
{
}

/// Stepping forward and then back returns to a selected entry of the list.
pub proof fn lemma_next_then_previous(i: usize, len: usize)
    requires
        i < len,
    ensures
        previous_wrapping_of(next_wrapping_of(Some(i), len), len) == Some(i),
{
    assert(len > 0);
    if i + 1 < len {
        vstd::arithmetic::div_mod::lemma_small_mod((i + 1) as nat, len as nat);
    } else {
        vstd::arithmetic::div_mod::lemma_mod_self_0(len as int);
    }
}

/// The entry below the selected one in a picker, stopping at the last; the
/// first when nothing is selected; an empty list keeps the selection.
pub open spec fn next_bounded_of(selection: Option<usize>, len: usize) -> Option<usize> {
    if len == 0 {
        selection
    } else {
        match selection {
            Some(i) => Some(if i + 1 < len { (i + 1) as usize } else { (len - 1) as usize }),
            None => Some(0),
        }
    }
}

/// The entry above the selected one in a picker, stopping at the first; the
/// first when nothing is selected; an empty list keeps the selection.
pub open spec fn previous_bounded_of(selection: Option<usize>, len: usize) -> Option<usize> {
    if len == 0 {
        selection
    } else {
        match selection {
            Some(i) => Some(if i > 0 { (i - 1) as usize } else { 0 }),
            None => Some(0),
        }
    }
}

/// Moves a picker's selection down, stopping at the last entry.
pub fn select_next_bounded(selection: Option<usize>, len: usize) -> (r: Option<usize>)
    ensures
        r == next_bounded_of(selection, len),
{
    if len == 0 {
        return selection;
    }
    match selection {
        Some(i) => Some(if i < len - 1 { i + 1 } else { len - 1 }),
        None => Some(0),
    }
}

/// Moves a picker's selection up, stopping at the first entry.
pub fn select_previous_bounded(selection: Option<usize>, len: usize) -> (r: Option<usize>)
    ensures
        r == previous_bounded_of(selection, len),
{
    if len == 0 {
        return selection;
    }
    match selection {
        Some(i) => Some(i.saturating_sub(1)),
        None => Some(0),
    }
}

} // verus!
