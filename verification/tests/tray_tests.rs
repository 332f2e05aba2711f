use winbend::menu::{tray_menu, MenuLine, MenuState, CMD_AFTER_LOCK, CMD_FLAT_BASE, CMD_FOLD, CMD_FOLLOW_ACCEL, CMD_FOLLOW_CAMERA, CMD_QUIT, CMD_SETTINGS, CMD_STYLE_FROST};

fn state() -> MenuState {
    MenuState {
        style: "frost".to_string(),
        hotkey: "Ctrl+Alt+B".to_string(),
        after_fold: "lock".to_string(),
        camera_hotkey: "Ctrl+Alt+C".to_string(),
        camera_available: true,
        flat_deg: 40,
        accel_available: true,
        follow_accel: true,
        ..MenuState::default()
    }
}

fn find(lines: &[MenuLine], want: u32) -> (String, bool, bool) {
    for line in lines {
        if let MenuLine::Item { id, label, checked, enabled } = line {
            if *id == want {
                return (label.clone(), *checked, *enabled);
            }
        }
    }
    panic!("no item {want}");
}

#[test]
fn tray_menu_shape() {
    let lines = tray_menu(&state());
    assert!(matches!(&lines[0], MenuLine::Item { id, .. } if *id == CMD_SETTINGS));
    assert!(matches!(lines.last(), Some(MenuLine::Item { id, .. }) if *id == CMD_QUIT));
    let opened = lines.iter().filter(|l| matches!(l, MenuLine::Submenu(_))).count();
    let closed = lines.iter().filter(|l| matches!(l, MenuLine::End)).count();
    assert_eq!((opened, closed), (5, 5));
}

#[test]
fn tray_menu_reflects_the_settings() {
    let lines = tray_menu(&state());
    assert_eq!(find(&lines, CMD_FOLD), ("Fold now\tCtrl+Alt+B".to_string(), false, true));
    assert_eq!(find(&lines, CMD_STYLE_FROST).1, true);
    assert_eq!(find(&lines, CMD_AFTER_LOCK).1, true);
    assert_eq!(find(&lines, CMD_FLAT_BASE + 2), ("Last 40\u{b0} before shut".to_string(), true, true));
    assert_eq!(find(&lines, CMD_FLAT_BASE + 5).0, "Whole closing motion");
    assert_eq!(find(&lines, CMD_FOLLOW_CAMERA).0, "Follow the lid (webcam motion, camera light stays on)\tCtrl+Alt+C");
    // Accelerometer tracking needs a calibration before it can be switched on.
    assert_eq!(find(&lines, CMD_FOLLOW_ACCEL), ("Follow the lid (accelerometer)".to_string(), false, false));
}

#[test]
fn tray_menu_without_sensors() {
    let lines = tray_menu(&MenuState::default());
    assert_eq!(find(&lines, CMD_FOLLOW_CAMERA), ("Follow the lid (no webcam found)".to_string(), false, false));
    assert_eq!(find(&lines, CMD_FLAT_BASE).2, false);
}
