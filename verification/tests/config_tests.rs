use winbend::config::{
    after_fold_from, clamp_fold_ms, clamp_idle_minutes, d_after_fold, d_bg, d_camera_hotkey, d_fold_ms, d_hotkey,
    d_style, d_true, dedicated_setting, migrate_after_fold, parse_hex_rgb, validate_text_fields, AfterFold,
    ConfigError,
};

#[test]
fn defaults() {
    assert_eq!(d_style(), "silk");
    assert_eq!(d_fold_ms(), 1100);
    assert_eq!(d_hotkey(), "Ctrl+Alt+B");
    assert_eq!(d_camera_hotkey(), "Ctrl+Alt+C");
    assert!(d_true());
    assert_eq!(d_bg(), "#000000");
    assert_eq!(d_after_fold(), "none");
}

#[test]
fn defaults_are_valid() {
    assert_eq!(validate_text_fields(&d_style(), &d_after_fold(), &d_bg(), &d_hotkey(), &d_camera_hotkey()), Ok(()));
}

#[test]
fn each_text_rule_has_its_error() {
    let ok = |style: &str, after: &str, bg: &str, hk: &str, cam: &str| validate_text_fields(style, after, bg, hk, cam);
    assert_eq!(ok("invalid", "none", "#000000", "Ctrl+Alt+B", "Ctrl+Alt+C"), Err(ConfigError::UnknownStyle));
    assert_eq!(ok("shade", "reboot", "#000000", "Ctrl+Alt+B", "Ctrl+Alt+C"), Err(ConfigError::UnknownAfterFold));
    assert_eq!(ok("frost", "lock", "invalid", "Ctrl+Alt+B", "Ctrl+Alt+C"), Err(ConfigError::BadColor));
    assert_eq!(ok("custom", "sleep", "#102030", "Ctrl+Alt+", "Ctrl+Alt+C"), Err(ConfigError::InvalidHotkey));
    assert_eq!(ok("silk", "display_off", "#102030", "B", "Ctrl+Alt+C"), Err(ConfigError::HotkeyNeedsModifier));
    assert_eq!(ok("silk", "none", "#102030", "Shift+B", "Ctrl+Alt+C"), Err(ConfigError::HotkeyNeedsModifier));
    assert_eq!(ok("silk", "none", "#102030", "Ctrl+B", "Ctrl+F25"), Err(ConfigError::InvalidTrackingShortcut));
    assert_eq!(ok("silk", "none", "#102030", "Ctrl+B", "Shift+C"), Err(ConfigError::TrackingShortcutNeedsModifier));
    assert_eq!(ok("silk", "none", "#102030", "Ctrl+Alt+B", "alt+ctrl+b"), Err(ConfigError::SameShortcuts));
    assert_eq!(ok("silk", "none", "102030", "Win+B", "Ctrl+C"), Ok(()));
}

#[test]
fn the_first_broken_rule_is_reported() {
    assert_eq!(validate_text_fields("nope", "nope", "nope", "", ""), Err(ConfigError::UnknownStyle));
    assert_eq!(validate_text_fields("silk", "none", "nope", "", ""), Err(ConfigError::BadColor));
}

#[test]
fn error_messages() {
    assert_eq!(ConfigError::UnknownStyle.message(), "Unknown style.");
    assert_eq!(ConfigError::BadColor.message(), "Use a six-digit color such as #102030.");
    assert_eq!(ConfigError::HotkeyNeedsModifier.message(), "Include Ctrl, Alt, or Win in the hotkey.");
    assert_eq!(ConfigError::SameShortcuts.message(), "The fold and tracking shortcuts must be different.");
}

#[test]
fn hex_colors() {
    assert_eq!(parse_hex_rgb("#102030"), Some((0x10, 0x20, 0x30)));
    assert_eq!(parse_hex_rgb("  #ffFFfe "), Some((0xff, 0xff, 0xfe)));
    assert_eq!(parse_hex_rgb("abcdef"), Some((0xab, 0xcd, 0xef)));
    assert_eq!(parse_hex_rgb("##000000"), Some((0, 0, 0)));
    assert_eq!(parse_hex_rgb("#12345"), None);
    assert_eq!(parse_hex_rgb("#1234567"), None);
    assert_eq!(parse_hex_rgb("#12345g"), None);
    assert_eq!(parse_hex_rgb(""), None);
    // `from_str_radix` takes one leading plus sign; the length counts UTF-8 bytes.
    assert_eq!(parse_hex_rgb("+12345"), Some((0x01, 0x23, 0x45)));
    assert_eq!(parse_hex_rgb("#\u{e9}\u{e9}\u{e9}"), None);
}

#[test]
fn after_fold_names() {
    assert_eq!(after_fold_from("lock"), AfterFold::Lock);
    assert_eq!(after_fold_from("sleep"), AfterFold::Sleep);
    assert_eq!(after_fold_from("display_off"), AfterFold::DisplayOff);
    assert_eq!(after_fold_from("none"), AfterFold::Stay);
    assert_eq!(after_fold_from("anything"), AfterFold::Stay);
}

#[test]
fn legacy_lock_flag_migrates() {
    assert_eq!(migrate_after_fold(true, "none".to_string()), "lock");
    assert_eq!(migrate_after_fold(true, "sleep".to_string()), "sleep");
    assert_eq!(migrate_after_fold(false, "none".to_string()), "none");
}

#[test]
fn dedicated_settings_are_not_generic_fields() {
    for key in ["lock_after_fold", "accel_calibration", "first_run_done", "handle_lid"] {
        assert!(dedicated_setting(key), "{key}");
    }
    for key in ["style", "fold_ms", "custom.blur", "handle_lid2", ""] {
        assert!(!dedicated_setting(key), "{key}");
    }
}

#[test]
fn fold_ms_and_idle_are_clamped() {
    assert_eq!(clamp_fold_ms(1), 150);
    assert_eq!(clamp_fold_ms(150), 150);
    assert_eq!(clamp_fold_ms(1100), 1100);
    assert_eq!(clamp_fold_ms(9000), 5000);
    assert_eq!(clamp_idle_minutes(0), 0);
    assert_eq!(clamp_idle_minutes(1440), 1440);
    assert_eq!(clamp_idle_minutes(5000), 1440);
}
