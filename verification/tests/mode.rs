use qingjian_shell::mode::{english_mode, toggle_mode, InputMode};

#[test]
fn shortcut_and_caps_lock_each_toggle_the_current_mode() {
    let mut mode = InputMode::default();
    assert!(!mode.english(false));
    assert!(mode.english(true));
    mode.toggle();
    assert!(mode.english(false));
    assert!(!mode.english(true));
    mode.toggle();
    assert!(!mode.english(false));
    assert!(mode.english(true));
}

#[test]
fn process_wide_mode_follows_caps_lock_and_the_shortcut() {
    let mut mode = InputMode::new();
    assert!(!english_mode(&mode, false));
    assert!(english_mode(&mode, true));
    toggle_mode(&mut mode);
    assert!(english_mode(&mode, false));
    assert!(!english_mode(&mode, true));
}

#[test]
fn two_toggles_give_back_the_starting_mode() {
    for caps in [false, true] {
        let mut mode = InputMode::new();
        let before = mode.english(caps);
        mode.toggle();
        assert_ne!(mode.english(caps), before);
        mode.toggle();
        assert_eq!(mode.english(caps), before);
    }
}
