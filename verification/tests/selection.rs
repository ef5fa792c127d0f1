use paperview::selection::{
    clamp_bookmark_selection, clamp_search_selection, clamp_toc_selection, select_next_wrapping,
    select_previous_wrapping,
};

#[test]
fn toc_selection_clamps_after_reload() {
    assert_eq!(clamp_toc_selection(Some(3), 2), Some(1));
    assert_eq!(clamp_toc_selection(Some(0), 0), None);
    assert_eq!(clamp_toc_selection(None, 2), Some(0));
}

#[test]
fn search_selection_clamps_after_reload() {
    assert_eq!(clamp_search_selection(Some(3), 2), Some(1));
    assert_eq!(clamp_search_selection(Some(0), 0), None);
    assert_eq!(clamp_search_selection(None, 2), Some(0));
}

#[test]
fn bookmark_selection_is_bounded() {
    assert_eq!(clamp_bookmark_selection(Some(3), 2), Some(1));
    assert_eq!(clamp_bookmark_selection(Some(0), 0), None);
    assert_eq!(clamp_bookmark_selection(None, 2), Some(0));
}

#[test]
fn clamping_keeps_a_selection_in_range() {
    assert_eq!(clamp_toc_selection(Some(1), 2), Some(1));
    assert_eq!(clamp_toc_selection(None, 0), None);
}

#[test]
fn selection_steps_wrap_around() {
    assert_eq!(select_next_wrapping(Some(0), 2), Some(1));
    assert_eq!(select_next_wrapping(Some(1), 2), Some(0));
    assert_eq!(select_next_wrapping(None, 2), Some(0));
    assert_eq!(select_next_wrapping(Some(0), 0), None);
    assert_eq!(select_previous_wrapping(Some(0), 2), Some(1));
    assert_eq!(select_previous_wrapping(Some(1), 2), Some(0));
    assert_eq!(select_previous_wrapping(None, 3), Some(0));
    assert_eq!(select_next_wrapping(Some(usize::MAX - 1), usize::MAX), Some(0));
}
