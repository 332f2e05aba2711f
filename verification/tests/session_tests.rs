use winbend::config::AfterFold;
use winbend::session::{
    calibration_timed_out,
    Calib, Context, Effect, Kind, Mode, Pending, Session, ADOPT_MUTE, CAMERA_SILENCE, LOCK_DELAY, LOW_STILL,
    MILLI, OVERRIDE_MUTE, PARK_GRACE, SECOND, SLEEP_FOLD, STALE_LID,
};

fn ctx() -> Context {
    Context {
        calib: Calib::Off,
        fold_ms: 1100,
        fold_on_sleep: true,
        unfold_on_lid_open: true,
        unfold_on_wake: true,
        lid_owned: false,
        after_fold: AfterFold::Stay,
        camera_live: false,
    }
}

/// Opens the session the first effect asks for, as the app does.
fn begin(s: &mut Session, e: &[Effect], c: &Context, now: u64) -> Vec<Effect> {
    match e.first() {
        Some(Effect::Begin(p)) => s.begun(*p, true, c, now),
        _ => panic!("expected a Begin effect, got {e:?}"),
    }
}

#[test]
fn hotkey_folds_then_holds() {
    let c = ctx();
    let mut s = Session::new(false);
    let e = s.toggle_fold(&c, 0);
    assert_eq!(e, vec![Effect::Begin(Pending::ManualFold)]);
    let e = begin(&mut s, &e, &c, 0);
    assert_eq!(e, vec![Effect::SetFlat, Effect::Animate]);
    assert_eq!(s.mode, Mode::Anim { folding: true, start: 0, dur: 1100 * MILLI });
    assert_eq!(s.kind, Kind::Manual);
    assert_eq!(s.tick(false, &c, 500 * MILLI), vec![Effect::Ease, Effect::Draw]);
    assert_eq!(s.tick(false, &c, 1100 * MILLI), vec![Effect::SetFolded, Effect::Draw]);
    assert_eq!(s.mode, Mode::Hold);
    assert_eq!(s.tick(false, &c, 5 * SECOND), vec![Effect::Draw]);
    assert_eq!(s.mode, Mode::Hold);
}

#[test]
fn hotkey_again_unfolds_and_ends() {
    let c = ctx();
    let mut s = Session::new(false);
    let e = s.toggle_fold(&c, 0);
    begin(&mut s, &e, &c, 0);
    s.tick(false, &c, 2 * SECOND);
    let e = s.toggle_fold(&c, 3 * SECOND);
    assert_eq!(e, vec![Effect::ResetCamera, Effect::Animate]);
    assert_eq!(s.mode, Mode::Anim { folding: false, start: 3 * SECOND, dur: 1100 * MILLI });
    assert_eq!(s.sensor_muted_until, Some(3 * SECOND + OVERRIDE_MUTE));
    assert_eq!(s.tick(false, &c, 5 * SECOND), vec![Effect::SetFlat, Effect::EndSession]);
    assert_eq!(s.mode, Mode::Idle);
    assert!(!s.active());
}

#[test]
fn hotkey_during_fold_reverses_it() {
    let c = ctx();
    let mut s = Session::new(false);
    let e = s.toggle_fold(&c, 0);
    begin(&mut s, &e, &c, 0);
    let e = s.toggle_fold(&c, 300 * MILLI);
    assert_eq!(e, vec![Effect::ResetCamera, Effect::Animate]);
    assert_eq!(s.mode, Mode::Anim { folding: false, start: 300 * MILLI, dur: 1100 * MILLI });
    // And pressing it once more folds again, without opening a new session.
    let e = s.toggle_fold(&c, 400 * MILLI);
    assert_eq!(e, vec![Effect::Animate]);
    assert_eq!(s.mode, Mode::Anim { folding: true, start: 400 * MILLI, dur: 1100 * MILLI });
}

#[test]
fn fold_duration_is_clamped() {
    let mut c = ctx();
    c.fold_ms = 10;
    let mut s = Session::new(false);
    let e = s.toggle_fold(&c, 0);
    begin(&mut s, &e, &c, 0);
    assert_eq!(s.mode, Mode::Anim { folding: true, start: 0, dur: 150 * MILLI });
    c.fold_ms = 60_000;
    let mut s = Session::new(false);
    let e = s.toggle_fold(&c, 0);
    begin(&mut s, &e, &c, 0);
    assert_eq!(s.mode, Mode::Anim { folding: true, start: 0, dur: 5000 * MILLI });
}

#[test]
fn refused_session_changes_nothing() {
    let c = ctx();
    let mut s = Session::new(false);
    assert_eq!(s.begun(Pending::ManualFold, false, &c, 0), vec![]);
    assert_eq!(s.mode, Mode::Idle);
    // When the overlay cannot open for a lid close, the PC still sleeps.
    assert_eq!(s.begun(Pending::LidFold, false, &c, 0), vec![Effect::SleepPc]);
}

#[test]
fn dismiss_lifts_and_mutes_sensors() {
    let c = ctx();
    let mut s = Session::new(false);
    assert_eq!(s.dismiss(&c, 0), vec![]);
    assert_eq!(s.sensor_reading(true, true, true, &c, 0), vec![Effect::Begin(Pending::SensorFollow)]);
    assert_eq!(s.begun(Pending::SensorFollow, true, &c, 0), vec![Effect::SetFlat, Effect::Track]);
    assert_eq!(s.kind, Kind::Sensor);
    let e = s.dismiss(&c, SECOND);
    assert_eq!(e, vec![Effect::ResetCamera, Effect::Animate]);
    assert_eq!(s.kind, Kind::Unfold);
    // Muted: a sensor reading does nothing until the mute ends.
    assert_eq!(s.sensor_reading(true, true, true, &c, 2 * SECOND), vec![]);
    assert_eq!(s.sensor_reading(true, true, true, &c, SECOND + OVERRIDE_MUTE), vec![Effect::Track]);
}

#[test]
fn disabled_sensor_or_calibration_ignores_readings() {
    let mut c = ctx();
    let mut s = Session::new(false);
    assert_eq!(s.sensor_reading(false, true, true, &c, 0), vec![]);
    c.calib = Calib::Travel;
    assert_eq!(s.sensor_reading(true, true, true, &c, 0), vec![]);
    assert_eq!(s.toggle_fold(&c, 0), vec![]);
    c.calib = Calib::Zone;
    assert_eq!(s.toggle_fold(&c, 0), vec![Effect::FinishCalibrationZone]);
}

#[test]
fn sensor_needs_real_folding_to_take_over() {
    let c = ctx();
    let mut s = Session::new(false);
    let e = s.toggle_fold(&c, 0);
    begin(&mut s, &e, &c, 0);
    assert_eq!(s.sensor_reading(true, true, false, &c, 10 * MILLI), vec![]);
    assert_eq!(s.kind, Kind::Manual);
    assert_eq!(s.sensor_reading(true, true, true, &c, 20 * MILLI), vec![Effect::Track]);
    assert_eq!(s.kind, Kind::Sensor);
    assert_eq!(s.mode, Mode::Follow { zero_since: None });
}

#[test]
fn followed_fold_ends_after_resting_flat() {
    let c = ctx();
    let mut s = Session::new(false);
    s.sensor_reading(true, true, true, &c, 0);
    s.begun(Pending::SensorFollow, true, &c, 0);
    assert_eq!(s.tick(true, &c, SECOND), vec![Effect::Draw]);
    assert_eq!(s.mode, Mode::Follow { zero_since: Some(SECOND) });
    assert_eq!(s.tick(true, &c, SECOND + 100 * MILLI), vec![Effect::Draw]);
    assert_eq!(s.tick(true, &c, SECOND + 200 * MILLI), vec![Effect::EndSession]);
    assert_eq!(s.mode, Mode::Idle);
}

#[test]
fn stale_lid_close_after_wake_is_ignored() {
    let mut c = ctx();
    c.unfold_on_wake = false;
    let mut s = Session::new(false);
    s.wake(&c, 10 * SECOND);
    assert_eq!(s.lid(false, &c, 10 * SECOND + STALE_LID - 1), vec![]);
    assert_eq!(s.lid(false, &c, 10 * SECOND + STALE_LID), vec![Effect::Begin(Pending::SleepFold)]);
}

#[test]
fn sleep_folds_quickly_from_idle() {
    let c = ctx();
    let mut s = Session::new(false);
    let e = s.sleeping(&c, 0);
    assert_eq!(e, vec![Effect::Begin(Pending::SleepFold)]);
    assert_eq!(s.begun(Pending::SleepFold, true, &c, 0), vec![Effect::SetFlat, Effect::Animate]);
    assert_eq!(s.kind, Kind::Unfold);
    assert_eq!(s.mode, Mode::Anim { folding: true, start: 0, dur: SLEEP_FOLD });
}

#[test]
fn owned_lid_folds_then_sleeps() {
    let mut c = ctx();
    c.lid_owned = true;
    let mut s = Session::new(false);
    let e = s.lid(false, &c, 0);
    assert_eq!(e, vec![Effect::Begin(Pending::LidFold)]);
    assert_eq!(s.begun(Pending::LidFold, true, &c, 0), vec![Effect::SetFlat, Effect::Animate]);
    assert_eq!(s.mode, Mode::Anim { folding: true, start: 0, dur: 900 * MILLI });
    assert_eq!(s.tick(false, &c, SECOND), vec![Effect::SetFolded, Effect::SleepPc, Effect::Draw]);
    assert!(!s.sleep_after_fold);
}

#[test]
fn wake_waits_for_sign_in() {
    let c = ctx();
    let mut s = Session::new(false);
    s.lock();
    assert_eq!(s.wake(&c, SECOND), vec![]);
    assert!(s.unfold_pending);
    assert_eq!(s.unlocked(&c, 2 * SECOND), vec![Effect::Begin(Pending::Unfold)]);
    assert_eq!(s.begun(Pending::Unfold, true, &c, 2 * SECOND), vec![Effect::SetFolded, Effect::Animate]);
    assert_eq!(s.mode, Mode::Anim { folding: false, start: 2 * SECOND, dur: 1100 * MILLI });
}

#[test]
fn unfold_follows_a_live_webcam() {
    let mut c = ctx();
    c.camera_live = true;
    let mut s = Session::new(false);
    assert_eq!(s.wake(&c, 0), vec![Effect::Begin(Pending::Unfold)]);
    assert_eq!(s.begun(Pending::Unfold, true, &c, 0), vec![Effect::SetFolded, Effect::TrackFolded]);
    assert_eq!(s.kind, Kind::Sensor);
    assert!(s.follow_from_camera);
    assert_eq!(s.mode, Mode::Follow { zero_since: None });
}

#[test]
fn silent_camera_lifts_the_fold() {
    let mut c = ctx();
    c.camera_live = true;
    let mut s = Session::new(false);
    s.wake(&c, 0);
    s.begun(Pending::Unfold, true, &c, 0);
    assert_eq!(s.tick_guards(0, false, false, &c, CAMERA_SILENCE), vec![]);
    assert_eq!(s.tick_guards(0, false, false, &c, CAMERA_SILENCE + 1), vec![Effect::ResetCamera, Effect::Animate]);
    assert!(!s.follow_from_camera);
}

#[test]
fn idle_curtain_folds_and_lifts_on_input() {
    let c = ctx();
    let mut s = Session::new(false);
    assert_eq!(s.idle_check(0, 10 * 60_000, &c), vec![]);
    assert_eq!(s.idle_check(5, 5 * 60_000 - 1, &c), vec![]);
    assert_eq!(s.idle_check(5, 5 * 60_000, &c), vec![Effect::Begin(Pending::IdleFold)]);
    assert_eq!(s.begun(Pending::IdleFold, true, &c, 0), vec![Effect::SetFlat, Effect::Animate]);
    assert_eq!(s.kind, Kind::IdleCurtain);
    // Still idle since the curtain began: nothing happens.
    assert_eq!(s.tick_guards(2000, false, false, &c, 2 * SECOND), vec![]);
    // Input 100 ms ago, 2 s into the session: the curtain lifts.
    assert_eq!(s.tick_guards(100, false, false, &c, 2 * SECOND), vec![Effect::Animate]);
    assert_eq!(s.mode, Mode::Anim { folding: false, start: 2 * SECOND, dur: 1100 * MILLI });
}

#[test]
fn mouse_lifts_a_held_curtain() {
    let c = ctx();
    let mut s = Session::new(false);
    s.begun(Pending::IdleFold, true, &c, 0);
    s.tick(false, &c, 2 * SECOND);
    assert_eq!(s.mode, Mode::Hold);
    assert_eq!(s.mouse_move(&c, 3 * SECOND), vec![Effect::Animate]);
}

#[test]
fn parked_sensor_fold_lifts_on_input() {
    let c = ctx();
    let mut s = Session::new(false);
    s.sensor_reading(true, true, true, &c, 0);
    s.begun(Pending::SensorFollow, true, &c, 0);
    assert_eq!(s.tick_guards(0, true, false, &c, SECOND), vec![]);
    assert_eq!(s.parked_since, Some(SECOND));
    // Input but not yet past the grace period.
    assert_eq!(s.tick_guards(0, true, false, &c, SECOND + PARK_GRACE), vec![]);
    assert_eq!(s.tick_guards(0, true, false, &c, SECOND + PARK_GRACE + 1), vec![Effect::ResetCamera, Effect::Animate]);
}

#[test]
fn resting_webcam_adopts_the_new_pose() {
    let c = ctx();
    let mut s = Session::new(false);
    assert_eq!(s.camera_reading(true, true, true, true, true, &c, 0), vec![Effect::Begin(Pending::SensorFollow)]);
    s.begun(Pending::SensorFollow, true, &c, 0);
    assert_eq!(s.camera_reading(true, true, true, true, true, &c, SECOND), vec![Effect::Track]);
    assert!(s.follow_from_camera);
    assert_eq!(s.low_still_since, Some(SECOND));
    assert_eq!(s.camera_reading(true, true, true, true, true, &c, SECOND + LOW_STILL), vec![Effect::Track]);
    assert_eq!(s.camera_reading(true, true, true, true, true, &c, SECOND + LOW_STILL + 1), vec![Effect::ResetCamera, Effect::Animate]);
    assert_eq!(s.kind, Kind::Unfold);
    assert_eq!(s.sensor_muted_until, Some(SECOND + LOW_STILL + 1 + ADOPT_MUTE));
}

#[test]
fn lock_after_fold_locks_then_ends() {
    let mut c = ctx();
    c.after_fold = AfterFold::Lock;
    let mut s = Session::new(false);
    let e = s.toggle_fold(&c, 0);
    begin(&mut s, &e, &c, 0);
    assert_eq!(s.tick(false, &c, 1100 * MILLI), vec![Effect::SetFolded, Effect::Draw]);
    assert_eq!(s.lock_pending, Some(1100 * MILLI + LOCK_DELAY));
    assert_eq!(s.tick(false, &c, 1100 * MILLI + LOCK_DELAY), vec![Effect::LockWorkstation, Effect::EndSession]);
    assert_eq!(s.mode, Mode::Idle);
}

#[test]
fn sleep_after_fold_ends_and_sleeps() {
    let mut c = ctx();
    c.after_fold = AfterFold::Sleep;
    let mut s = Session::new(false);
    let e = s.toggle_fold(&c, 0);
    begin(&mut s, &e, &c, 0);
    assert_eq!(s.tick(false, &c, 2 * SECOND), vec![Effect::SetFolded, Effect::EndSession, Effect::SleepPc]);
    assert_eq!(s.mode, Mode::Idle);
}

#[test]
fn demo_folds_holds_unfolds_and_quits() {
    let c = ctx();
    let mut s = Session::new(true);
    let e = s.toggle_fold(&c, 0);
    begin(&mut s, &e, &c, 0);
    assert_eq!(s.tick(false, &c, 2 * SECOND), vec![Effect::SetFolded, Effect::Draw]);
    assert_eq!(s.tick(false, &c, 2 * SECOND + 900 * MILLI), vec![Effect::Animate, Effect::Draw]);
    assert_eq!(s.tick(false, &c, 5 * SECOND), vec![Effect::SetFlat, Effect::EndSession]);
    assert!(s.want_quit);
}

#[test]
fn wheel_scrubs_or_lifts() {
    let c = ctx();
    let mut s = Session::new(false);
    assert_eq!(s.wheel(false, &c, 0), vec![]);
    let e = s.toggle_fold(&c, 0);
    begin(&mut s, &e, &c, 0);
    assert_eq!(s.wheel(false, &c, 100 * MILLI), vec![Effect::Scrub]);
    assert_eq!(s.mode, Mode::Hold);
    assert_eq!(s.wheel(true, &c, 200 * MILLI), vec![Effect::Animate]);
}

#[test]
fn wake_lifts_the_parked_fold() {
    let c = ctx();
    let mut s = Session::new(false);
    s.sleeping(&c, 0);
    s.begun(Pending::SleepFold, true, &c, 0);
    s.tick(false, &c, SECOND);
    assert_eq!(s.mode, Mode::Hold);
    assert_eq!(s.wake(&c, 10 * SECOND), vec![Effect::Animate]);
    assert_eq!(s.mode, Mode::Anim { folding: false, start: 10 * SECOND, dur: 1100 * MILLI });
}

#[test]
fn park_clock_resets_outside_a_followed_fold() {
    let c = ctx();
    let mut s = Session::new(false);
    s.sensor_reading(true, true, true, &c, 0);
    s.begun(Pending::SensorFollow, true, &c, 0);
    s.tick_guards(5000, true, false, &c, SECOND);
    assert_eq!(s.parked_since, Some(SECOND));
    s.dismiss(&c, 2 * SECOND);
    assert_eq!(s.tick_guards(5000, true, false, &c, 3 * SECOND), vec![]);
    assert_eq!(s.parked_since, None);
}

#[test]
fn long_idle_times_are_accepted() {
    let c = ctx();
    let mut s = Session::new(false);
    s.begun(Pending::IdleFold, true, &c, 0);
    // Idle for longer than 49 days: still no input since the curtain began.
    assert_eq!(s.tick_guards(u64::MAX / 2, false, false, &c, 2 * SECOND), vec![]);
}

#[test]
fn calibration_keeps_the_desktop_flat() {
    for stage in [Calib::Travel, Calib::Zone] {
        let mut c = ctx();
        c.calib = stage;
        c.lid_owned = true;
        let mut s = Session::new(false);
        let now = 5 * SECOND;
        let mut effects = Vec::new();
        effects.extend(s.toggle_fold(&c, now));
        effects.extend(s.lid(false, &c, now));
        effects.extend(s.lid(true, &c, now));
        effects.extend(s.sleeping(&c, now));
        effects.extend(s.wake(&c, now));
        effects.extend(s.unlocked(&c, now));
        effects.extend(s.sensor_reading(true, true, true, &c, now));
        effects.extend(s.camera_reading(true, false, false, true, true, &c, now));
        effects.extend(s.idle_check(1, 120_000, &c));
        effects.extend(s.dismiss(&c, now));
        effects.extend(s.wheel(true, &c, now));
        effects.extend(s.wheel(false, &c, now));
        effects.extend(s.mouse_move(&c, now));
        effects.extend(s.tick_guards(0, true, false, &c, now));
        effects.extend(s.tick(true, &c, now));
        assert!(!effects.iter().any(|e| matches!(e, Effect::Begin(_))), "{effects:?}");
        assert_eq!(s.mode, Mode::Idle);
        assert!(!s.active());
    }
}

#[test]
fn calibration_stages_time_out() {
    assert!(!calibration_timed_out(Calib::Travel, 45 * SECOND));
    assert!(calibration_timed_out(Calib::Travel, 45 * SECOND + 1));
    assert!(!calibration_timed_out(Calib::Zone, 90 * SECOND));
    assert!(calibration_timed_out(Calib::Zone, 90 * SECOND + 1));
    assert!(!calibration_timed_out(Calib::Off, u64::MAX));
}
