use quicklaunch::hotkey::{
    first_success, format_shortcut, hotkey_candidates, register_outcome, HotkeyStatus, KeyCode,
    ModSet,
};

const CTRL_SHIFT: ModSet = ModSet { control: true, alt: false, shift: true, win: false };

#[test]
fn third_candidate_wins_when_first_two_are_bound() {
    let results = vec![false, false, true];
    match register_outcome(&results) {
        HotkeyStatus::Registered(i, label) => {
            assert_eq!(i, 2);
            assert_eq!(label, "Ctrl+Shift+Q");
        }
        HotkeyStatus::Failed(_) => panic!("expected a registration"),
    }
}

#[test]
fn exhaustion_notifies_failure() {
    let results = vec![false, false, false];
    match register_outcome(&results) {
        HotkeyStatus::Registered(_, _) => panic!("expected a failure"),
        HotkeyStatus::Failed(message) => {
            assert_eq!(message, "All hotkeys are taken; open the launcher from the tray icon");
        }
    }
}

#[test]
fn first_candidate_wins_when_free() {
    let results = vec![true, false, false];
    match register_outcome(&results) {
        HotkeyStatus::Registered(i, label) => {
            assert_eq!(i, 0);
            assert_eq!(label, "Ctrl+Shift+Space");
        }
        HotkeyStatus::Failed(_) => panic!("expected a registration"),
    }
}

#[test]
fn first_success_finds_earliest() {
    assert_eq!(first_success(&vec![]), None);
    assert_eq!(first_success(&vec![false, true, true]), Some(1));
    assert_eq!(first_success(&vec![false, false]), None);
    assert_eq!(first_success(&vec![true]), Some(0));
}

#[test]
fn labels_join_modifiers_with_plus() {
    assert_eq!(format_shortcut(Some(CTRL_SHIFT), KeyCode::F1), "Ctrl+Shift+F1");
    assert_eq!(format_shortcut(None, KeyCode::Space), "Space");
    assert_eq!(
        format_shortcut(
            Some(ModSet { control: true, alt: true, shift: true, win: true }),
            KeyCode::KeyQ,
        ),
        "Ctrl+Alt+Shift+Win+Q",
    );
    assert_eq!(format_shortcut(None, KeyCode::Other), "?");
}

#[test]
fn candidates_avoid_the_system_modifier() {
    let cands = hotkey_candidates();
    assert_eq!(cands.len(), 3);
    for c in &cands {
        let mods = c.mods.expect("every candidate carries modifiers");
        assert!(!mods.win);
        assert!(mods.control && mods.shift);
    }
}
