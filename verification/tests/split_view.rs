use paperview::{synced_scroll_offset, SplitResize, SplitViewState};

#[test]
fn toggles_to_first_non_active_document() {
    let mut split = SplitViewState::default();

    split.toggle(Some(0), 2);
    assert_eq!(split.secondary_index(), Some(1));

    split.toggle(Some(0), 2);
    assert_eq!(split.secondary_index(), None);
}

#[test]
fn retargets_invalid_or_active_secondary() {
    let mut split = SplitViewState::default();
    split.toggle(Some(0), 3);

    split.retarget(Some(1), 3);
    assert_eq!(split.secondary_index(), Some(0));

    split.retarget(Some(0), 1);
    assert_eq!(split.secondary_index(), None);
}

#[test]
fn resizes_with_bounds() {
    let mut split = SplitViewState::default();
    assert!(!split.resize(SplitResize::GrowPrimary));

    split.toggle(Some(0), 2);
    split.resize(SplitResize::GrowPrimary);
    assert_eq!(split.widths(), (60, 40));

    for _ in 0..8 {
        split.resize(SplitResize::ShrinkPrimary);
    }
    assert_eq!(split.widths(), (30, 70));
}

#[test]
fn cycles_secondary_indices() {
    let mut split = SplitViewState::default();
    split.toggle(Some(0), 3);

    assert_eq!(split.cycle_secondary(Some(0), 3, 1), Some(2));
    assert_eq!(split.cycle_secondary(Some(0), 3, -1), Some(2));
}

#[test]
fn maps_synced_scroll_offset_by_relative_progress() {
    assert_eq!(synced_scroll_offset(0, 100, 50), 0);
    assert_eq!(synced_scroll_offset(50, 100, 20), 10);
    assert_eq!(synced_scroll_offset(100, 100, 50), 50);
    assert_eq!(synced_scroll_offset(150, 100, 50), 50);
    assert_eq!(synced_scroll_offset(50, 0, 50), 0);
    assert_eq!(synced_scroll_offset(50, 100, 0), 0);
}

#[test]
fn widths_are_clamped_and_cycling_wraps_far() {
    assert_eq!(SplitViewState::new(5).widths(), (30, 70));
    assert_eq!(SplitViewState::new(95).primary_width(), 70);
    let mut split = SplitViewState::new(65);
    split.set_primary_width(10);
    assert_eq!(split.primary_width(), 30);
    split.toggle(Some(1), 4);
    assert_eq!(split.secondary_index(), Some(0));
    assert_eq!(split.cycle_secondary(Some(1), 4, 7), Some(2));
    assert_eq!(split.cycle_secondary(Some(1), 4, -7), Some(3));
    assert_eq!(split.cycle_secondary(None, 4, 1), None);
    split.select_secondary(1, Some(1), 4);
    assert_eq!(split.secondary_index(), Some(0));
    split.select_secondary(2, Some(1), 4);
    assert_eq!(split.secondary_index(), Some(2));
    assert_eq!(synced_scroll_offset(1, 4, 2), 1);
    split.disable();
    assert!(!split.is_enabled());
}
