use winbend::links::{DONATE_URL, GITHUB_URL};
use winbend::page::{
    allows_navigation, blocked_in_check, change_refusal, destination, message_fits, page_action, power_plan, yes, ChangeContext,
    ChangeRefusal, ChangeRequest, PageAction, PowerPlan, SIGNIN_URL, WEBVIEW2_URL,
};
use winbend::power::Setting;

#[test]
fn preview_is_visible_by_default() {
    assert!(yes());
}

#[test]
fn oversized_messages_are_dropped() {
    assert!(message_fits(0));
    assert!(message_fits(65536));
    assert!(!message_fits(65537));
}

#[test]
fn page_actions_by_name() {
    assert_eq!(page_action("fold_now"), PageAction::FoldNow);
    assert_eq!(page_action("calibrate_cancel"), PageAction::CalibrateCancel);
    assert_eq!(page_action("open_url"), PageAction::OpenUrl);
    assert_eq!(page_action("copy"), PageAction::Copy);
    assert_eq!(page_action("close"), PageAction::Close);
    assert_eq!(page_action("Close"), PageAction::Unknown);
    assert_eq!(page_action(""), PageAction::Unknown);
}

#[test]
fn ui_check_blocks_outside_effects() {
    for name in ["fold_now", "calibrate_start", "calibrate_accel", "calibrate_set_zone", "reload_settings", "open_url", "open_settings_file"] {
        assert!(blocked_in_check(page_action(name)), "{name}");
    }
    for name in ["calibrate_cancel", "copy", "first_run_done", "navigate", "close", "other"] {
        assert!(!blocked_in_check(page_action(name)), "{name}");
    }
}

#[test]
fn only_known_destinations_open() {
    assert_eq!(destination("github"), Some(GITHUB_URL));
    assert_eq!(destination("donate"), Some(DONATE_URL));
    assert_eq!(destination("signin"), Some(SIGNIN_URL));
    assert_eq!(destination("webview2"), Some(WEBVIEW2_URL));
    assert_eq!(SIGNIN_URL, "ms-settings:signinoptions");
    assert_eq!(destination("https://example.com"), None);
}

fn request() -> ChangeRequest {
    ChangeRequest { startup_changed: false, follow_camera: false, follow_accelerometer: false, accelerometer_calibrated: false }
}

fn context() -> ChangeContext {
    ChangeContext { ui_check: false, calibrating: false, camera_available: true }
}

#[test]
fn settings_changes_are_refused_in_order() {
    assert_eq!(change_refusal(request(), context()), None);
    let check = ChangeContext { ui_check: true, ..context() };
    assert_eq!(change_refusal(request(), check), None);
    let startup = ChangeRequest { startup_changed: true, ..request() };
    assert_eq!(change_refusal(startup, check), Some(ChangeRefusal::SystemChangesInCheck));
    let calibrating = ChangeContext { calibrating: true, ..context() };
    assert_eq!(change_refusal(request(), calibrating), Some(ChangeRefusal::Calibrating));
    let camera = ChangeRequest { follow_camera: true, ..request() };
    let no_camera = ChangeContext { camera_available: false, ..context() };
    assert_eq!(change_refusal(camera, no_camera), Some(ChangeRefusal::NoWebcam));
    assert_eq!(change_refusal(camera, context()), None);
    let accel = ChangeRequest { follow_accelerometer: true, ..request() };
    assert_eq!(change_refusal(accel, context()), Some(ChangeRefusal::AccelerometerUncalibrated));
    let calibrated = ChangeRequest { accelerometer_calibrated: true, ..accel };
    assert_eq!(change_refusal(calibrated, context()), None);
}

#[test]
fn refusal_messages() {
    assert_eq!(ChangeRefusal::SystemChangesInCheck.message(), "System changes are disabled during the UI check.");
    assert_eq!(ChangeRefusal::Calibrating.message(), "Finish or cancel calibration before changing settings.");
    assert_eq!(ChangeRefusal::NoWebcam.message(), "No webcam is available.");
    assert_eq!(ChangeRefusal::AccelerometerUncalibrated.message(), "Calibrate the accelerometer first.");
}

#[test]
fn power_changes_are_planned() {
    assert_eq!(power_plan(true, true, false, true, true), PowerPlan::DisabledInCheck);
    assert_eq!(power_plan(true, false, true, true, false), PowerPlan::Unchanged);
    assert_eq!(power_plan(true, false, false, true, false), PowerPlan::NeedsConfirmation);
    assert_eq!(power_plan(true, false, false, true, true), PowerPlan::Write(Setting::LidAction, 0));
    assert_eq!(power_plan(false, false, false, true, true), PowerPlan::Write(Setting::LockOnWake, 0));
    // Switching off needs no confirmation.
    assert_eq!(power_plan(true, false, true, false, false), PowerPlan::Write(Setting::LidAction, 1));
    assert_eq!(PowerPlan::DisabledInCheck.refusal().unwrap(), "Power changes are disabled during the UI check.");
    assert_eq!(PowerPlan::NeedsConfirmation.refusal().unwrap(), "Confirm this Windows integration change first.");
    assert_eq!(PowerPlan::Unchanged.refusal(), None);
}

#[test]
fn only_the_first_navigation_to_the_page_goes_on() {
    assert!(allows_navigation(true, "about:blank"));
    assert!(allows_navigation(true, "data:text/html;charset=utf-8,<html></html>"));
    assert!(allows_navigation(true, "data:text/html"));
    assert!(!allows_navigation(false, "about:blank"));
    assert!(!allows_navigation(false, "data:text/html,x"));
    assert!(!allows_navigation(true, "https://github.com/"));
    assert!(!allows_navigation(true, "data:text/htm"));
    assert!(!allows_navigation(true, "about:blank#x"));
    assert!(!allows_navigation(true, "DATA:text/html,x"));
    assert!(!allows_navigation(true, ""));
}
