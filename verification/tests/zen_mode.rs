use paperview::ZenModeState;

#[test]
fn toggles_zen_mode() {
    let mut zen = ZenModeState::default();
    assert!(!zen.is_enabled());

    zen.toggle();

    assert!(zen.is_enabled());
}

#[test]
fn can_start_enabled_and_be_set() {
    let mut zen = ZenModeState::new(true);
    assert!(zen.is_enabled());

    zen.set_enabled(false);

    assert!(!zen.is_enabled());
}

#[test]
fn toggling_twice_returns_to_the_start() {
    let mut zen = ZenModeState::new(true);
    zen.toggle();
    zen.toggle();
    assert!(zen.is_enabled());
}
