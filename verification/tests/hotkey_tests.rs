use winbend::hotkey::{parse_hotkey, MOD_NOREPEAT};

#[test]
fn picker_tokens_and_invalid_chords() {
    for key in [
        "A", "5", "F1", "F24", "Space", "Tab", "Enter", "Backspace", "Pause", "Home", "End", "Insert", "Delete",
        "PageUp", "PageDown", "Up", "Down", "Left", "Right", "Grave", "Minus", "Equals",
    ] {
        assert!(parse_hotkey(&format!("Ctrl+Alt+{key}")).is_some(), "{key}");
    }
    for key in ["Ctrl+A+B", "Ctrl+", "F25", "Ctrl+Numpad1"] {
        assert!(parse_hotkey(key).is_none());
    }
}

#[test]
fn default_hotkey_codes() {
    assert_eq!(parse_hotkey("Ctrl+Alt+B"), Some((MOD_NOREPEAT | 2 | 1, 0x42)));
    assert_eq!(parse_hotkey("Ctrl+Alt+C"), Some((MOD_NOREPEAT | 2 | 1, 0x43)));
}

#[test]
fn hotkey_parts_are_trimmed_and_case_blind() {
    assert_eq!(parse_hotkey(" ctrl + SHIFT + f12 "), Some((MOD_NOREPEAT | 2 | 4, 0x70 + 11)));
    assert_eq!(parse_hotkey("Win+Alt+L"), Some((MOD_NOREPEAT | 8 | 1, 0x4c)));
    assert_eq!(parse_hotkey("Control+Esc"), Some((MOD_NOREPEAT | 2, 0x1b)));
    assert_eq!(parse_hotkey("Ctrl+b"), Some((MOD_NOREPEAT | 2, 0x42)));
}

#[test]
fn hotkey_without_key_is_refused() {
    assert_eq!(parse_hotkey("Ctrl+Alt"), None);
    assert_eq!(parse_hotkey(""), None);
    assert_eq!(parse_hotkey("F0"), None);
    assert_eq!(parse_hotkey("Ctrl+AB"), None);
}

#[test]
fn lone_key_has_no_modifier() {
    assert_eq!(parse_hotkey("B"), Some((MOD_NOREPEAT, 0x42)));
    assert_eq!(parse_hotkey("F5"), Some((MOD_NOREPEAT, 0x74)));
}

#[test]
fn letter_f_is_a_key() {
    assert_eq!(parse_hotkey("Ctrl+Alt+F"), Some((0x4003, 0x46)));
    assert_eq!(parse_hotkey("Win+f"), Some((0x4008, 0x46)));
}

#[test]
fn function_keys_are_read_as_decimal_numbers() {
    assert_eq!(parse_hotkey("Ctrl+F1"), Some((MOD_NOREPEAT | 2, 0x70)));
    assert_eq!(parse_hotkey("Ctrl+F10"), Some((MOD_NOREPEAT | 2, 0x79)));
    assert_eq!(parse_hotkey("Ctrl+F24"), Some((MOD_NOREPEAT | 2, 0x87)));
    assert_eq!(parse_hotkey("Ctrl+F01"), Some((MOD_NOREPEAT | 2, 0x70)));
    assert_eq!(parse_hotkey("Ctrl+f024"), Some((MOD_NOREPEAT | 2, 0x87)));
    for bad in ["Ctrl+f+1", "Ctrl+F25", "Ctrl+F0", "Ctrl+F00", "Ctrl+F100", "Ctrl+Fx", "Ctrl+F-1", "Ctrl+F 1"] {
        assert_eq!(parse_hotkey(bad), None, "{bad}");
    }
}

#[test]
fn reordered_hotkey_parts_name_the_same_hotkey() {
    let plain = parse_hotkey("Ctrl+Shift+F12");
    assert_eq!(plain, Some((MOD_NOREPEAT | 2 | 4, 0x7b)));
    assert_eq!(parse_hotkey(" f12 +SHIFT+ control "), plain);
    assert_eq!(parse_hotkey("shift+F12+Ctrl"), plain);
    assert_eq!(parse_hotkey("f + ALT + ctrl"), parse_hotkey("Ctrl+Alt+F"));
    assert_eq!(parse_hotkey("A+ctrl+B"), None);
    assert_eq!(parse_hotkey("ctrl+B+a"), None);
}
