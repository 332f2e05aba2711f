//! Properties of the fold session that span several events.
use vstd::prelude::*;

use crate::config::AfterFold;
use crate::session::{Session, Context, Effect, Pending, Mode, TIME_LIMIT, OVERRIDE_MUTE, ADOPT_MUTE, LOW_STILL, STALE_LID, SLEEP_FOLD, MIN_ANIMATION, MILLI, SECOND, CAMERA_SILENCE, PARK_LIMIT, PARK_GRACE, ACTIVE_INPUT_MS, LOCK_DELAY, fold_dur, lid_fold_dur, anim_done, is_stale_close, spec_begun, spec_camera_reading, spec_dismiss, spec_idle_check, spec_lid, spec_mouse_move, spec_sensor_reading, spec_sleeping, spec_start_unfold, spec_tick, spec_tick_guards, spec_toggle_fold, spec_unlocked, spec_wake, spec_wheel};

verus! {

/// A hotkey fold from the plain desktop opens a manual session, folds over the configured
/// duration, and then stays folded (when nothing is to follow the fold).
pub proof fn hotkey_fold_goes_down_and_stays(s: Session, ctx: Context, t0: u64, t1: u64, at_rest: bool)
    requires
        s.mode is Idle,
        ctx.calib is Off,
        ctx.after_fold is Stay,
        !s.demo,
        !s.sleep_after_fold,
        s.lock_pending is None,
        s.demo_hold_until is None,
        t0 <= t1 <= TIME_LIMIT,
        t1 >= t0 + fold_dur(ctx),
    ensures
        spec_toggle_fold(s, ctx, t0) == (s, seq![Effect::Begin(Pending::ManualFold)]),
        ({
            let (s1, e1) = spec_begun(s, Pending::ManualFold, true, ctx, t0);
            &&& s1.kind is Manual
            &&& s1.mode == (Mode::Anim { folding: true, start: t0, dur: fold_dur(ctx) })
            &&& e1 == seq![Effect::SetFlat, Effect::Animate]
            &&& ({
                let (s2, e2) = spec_tick(s1, at_rest, ctx, t1);
                &&& s2.mode is Hold
                &&& e2 == seq![Effect::SetFolded, Effect::Draw]
            })
        }),
{
    let (s1, e1) = spec_begun(s, Pending::ManualFold, true, ctx, t0);
    assert(fold_dur(ctx) >= MIN_ANIMATION);
    let (s2, e2) = spec_tick(s1, at_rest, ctx, t1);
    assert(e2 =~= seq![Effect::SetFolded] + (seq![] + seq![Effect::Draw]));
}

/// Folded and held: the hotkey lifts the desktop, mutes the sensors for `OVERRIDE_MUTE`, and
/// once the lift has run its course the session ends.
pub proof fn hotkey_again_unfolds_and_ends(s: Session, ctx: Context, t0: u64, t1: u64, at_rest: bool)
    requires
        s.mode is Hold,
        ctx.calib is Off,
        s.lock_pending is None,
        s.demo_hold_until is None,
        t0 <= t1 <= TIME_LIMIT,
        t1 >= t0 + fold_dur(ctx),
    ensures
        ({
            let (s1, e1) = spec_toggle_fold(s, ctx, t0);
            &&& s1.mode == (Mode::Anim { folding: false, start: t0, dur: fold_dur(ctx) })
            &&& s1.sensor_muted_until == Some((t0 + OVERRIDE_MUTE) as u64)
            &&& e1 == seq![Effect::ResetCamera, Effect::Animate]
            &&& ({
                let (s2, e2) = spec_tick(s1, at_rest, ctx, t1);
                &&& s2.mode is Idle
                &&& e2 == seq![Effect::SetFlat, Effect::EndSession]
            })
        }),
{
    let (s1, e1) = spec_toggle_fold(s, ctx, t0);
    let (s2, e2) = spec_tick(s1, at_rest, ctx, t1);
    assert(e2 =~= seq![Effect::SetFlat] + (seq![] + (seq![] + seq![Effect::EndSession])));
}

/// The hotkey reverses an animation in progress: a fold turns into a lift, a lift into a fold.
pub proof fn hotkey_reverses_animation(s: Session, ctx: Context, now: u64)
    requires
        s.mode is Anim,
        ctx.calib is Off,
        now <= TIME_LIMIT,
    ensures
        ({
            let (s1, _) = spec_toggle_fold(s, ctx, now);
            s1.mode == (Mode::Anim { folding: !s.mode->folding, start: now, dur: fold_dur(ctx) })
        }),
{
}

/// Any key, click or close on the overlay lifts a running session, whatever drives it, and
/// sensor input is then ignored for `OVERRIDE_MUTE`: a sensor reading in that window changes
/// neither what drives the fold nor the session kind, and asks for nothing.
pub proof fn dismiss_lifts_and_mutes_sensors(
    s: Session,
    ctx: Context,
    t0: u64,
    t: u64,
    enabled: bool,
    engage: bool,
    takeover: bool,
)
    requires
        !(s.mode is Idle),
        t0 <= t < t0 + OVERRIDE_MUTE,
        t0 <= TIME_LIMIT,
    ensures
        ({
            let (s1, _) = spec_dismiss(s, ctx, t0);
            &&& s1.mode matches Mode::Anim { folding: false, .. }
            &&& !(s1.kind is Sensor)
            &&& ({
                let (s2, e2) = spec_sensor_reading(s1, enabled, engage, takeover, ctx, t);
                s2.mode == s1.mode && s2.kind == s1.kind && e2 == Seq::<Effect>::empty()
            })
        }),
{
}

/// The webcam is muted the same way: within `OVERRIDE_MUTE` of a dismissal, a webcam reading
/// changes neither the mode nor the kind and asks for nothing.
pub proof fn dismiss_mutes_webcam(
    s: Session,
    ctx: Context,
    t0: u64,
    t: u64,
    enabled: bool,
    resting_low: bool,
    still: bool,
    engage: bool,
    takeover: bool,
)
    requires
        !(s.mode is Idle),
        t0 <= t < t0 + OVERRIDE_MUTE,
        t0 <= TIME_LIMIT,
    ensures
        ({
            let (s1, _) = spec_dismiss(s, ctx, t0);
            let (s2, e2) = spec_camera_reading(s1, enabled, resting_low, still, engage, takeover, ctx, t);
            s2.mode == s1.mode && s2.kind == s1.kind && e2 == Seq::<Effect>::empty()
        }),
{
}

/// A lid-closed report within `STALE_LID` of waking, without a lid-open report in between, is
/// ignored.
pub proof fn stale_lid_close_after_wake_is_ignored(s: Session, ctx: Context, w: u64, t: u64)
    requires
        ctx.calib is Off,
        w <= t < w + STALE_LID,
    ensures
        ({
            let (s1, _) = spec_wake(s, ctx, w);
            spec_lid(s1, false, ctx, t) == (s1, Seq::<Effect>::empty())
        }),
{
}

/// Waking behind the sign-in screen does not lift the fold; the lift plays right after the
/// unlock. From a held fold, the unlock starts the lift at once.
pub proof fn unfold_waits_for_sign_in(s: Session, ctx: Context, w: u64, u: u64)
    requires
        s.locked,
        ctx.unfold_on_wake,
        ctx.calib is Off,
        s.mode is Hold,
    ensures
        ({
            let (s1, e1) = spec_wake(s, ctx, w);
            &&& s1.mode is Hold
            &&& s1.unfold_pending
            &&& e1 == Seq::<Effect>::empty()
            &&& ({
                let (s2, e2) = spec_unlocked(s1, ctx, u);
                &&& !s2.locked && !s2.unfold_pending
                &&& if ctx.camera_live {
                    s2.mode is Follow && s2.kind is Sensor && e2 == seq![Effect::TrackFolded]
                } else {
                    s2.mode matches Mode::Anim { folding: false, .. } && s2.kind is Unfold && e2
                        == seq![Effect::Animate]
                }
            })
        }),
{
}

/// Nothing folds or lifts while the webcam calibration runs: no lid, power, input, timer or
/// sensor event changes what drives the fold or the session kind, and none opens a session.
pub proof fn calibration_freezes_the_fold(
    s: Session,
    ctx: Context,
    now: u64,
    open: bool,
    enabled: bool,
    resting_low: bool,
    still: bool,
    engage: bool,
    takeover: bool,
    idle_minutes: u32,
    idle_ms: u64,
)
    requires
        !(ctx.calib is Off),
    ensures
        spec_toggle_fold(s, ctx, now).0 == s,
        spec_lid(s, open, ctx, now) == (s, Seq::<Effect>::empty()),
        spec_sleeping(s, ctx, now) == (s, Seq::<Effect>::empty()),
        spec_start_unfold(s, ctx, now) == (s, Seq::<Effect>::empty()),
        spec_sensor_reading(s, enabled, engage, takeover, ctx, now) == (s, Seq::<Effect>::empty()),
        spec_camera_reading(s, enabled, resting_low, still, engage, takeover, ctx, now) == (
            s,
            Seq::<Effect>::empty(),
        ),
        spec_idle_check(s, idle_minutes, idle_ms, ctx) == (s, Seq::<Effect>::empty()),
        spec_wake(s, ctx, now).0.mode == s.mode,
        spec_wake(s, ctx, now).0.kind == s.kind,
        spec_unlocked(s, ctx, now).0.mode == s.mode,
        spec_unlocked(s, ctx, now).0.kind == s.kind,
{
}

/// The effects ask for a session to be opened.
pub open spec fn asks_for_session(e: Seq<Effect>) -> bool {
    exists|i: int| 0 <= i < e.len() && #[trigger] e[i] is Begin
}

/// Nothing folds while the webcam calibration runs: from the plain desktop, no event asks
/// for a session (the only way one opens) and every event leaves the desktop unfolded.
pub proof fn calibration_keeps_the_desktop_flat(
    s: Session,
    ctx: Context,
    now: u64,
    open: bool,
    enabled: bool,
    resting_low: bool,
    still: bool,
    engage: bool,
    takeover: bool,
    idle_minutes: u32,
    idle_ms: u64,
    lift: bool,
    high: bool,
    dark: bool,
    at_rest: bool,
)
    requires
        !(ctx.calib is Off),
        s.mode is Idle,
    ensures
        spec_toggle_fold(s, ctx, now).0.mode is Idle,
        !asks_for_session(spec_toggle_fold(s, ctx, now).1),
        spec_lid(s, open, ctx, now).0.mode is Idle,
        !asks_for_session(spec_lid(s, open, ctx, now).1),
        spec_sleeping(s, ctx, now).0.mode is Idle,
        !asks_for_session(spec_sleeping(s, ctx, now).1),
        spec_start_unfold(s, ctx, now).0.mode is Idle,
        !asks_for_session(spec_start_unfold(s, ctx, now).1),
        spec_sensor_reading(s, enabled, engage, takeover, ctx, now).0.mode is Idle,
        !asks_for_session(spec_sensor_reading(s, enabled, engage, takeover, ctx, now).1),
        spec_camera_reading(s, enabled, resting_low, still, engage, takeover, ctx, now).0.mode is Idle,
        !asks_for_session(spec_camera_reading(s, enabled, resting_low, still, engage, takeover, ctx, now).1),
        spec_idle_check(s, idle_minutes, idle_ms, ctx).0.mode is Idle,
        !asks_for_session(spec_idle_check(s, idle_minutes, idle_ms, ctx).1),
        spec_wake(s, ctx, now).0.mode is Idle,
        !asks_for_session(spec_wake(s, ctx, now).1),
        spec_unlocked(s, ctx, now).0.mode is Idle,
        !asks_for_session(spec_unlocked(s, ctx, now).1),
        spec_dismiss(s, ctx, now).0.mode is Idle,
        !asks_for_session(spec_dismiss(s, ctx, now).1),
        spec_wheel(s, lift, ctx, now).0.mode is Idle,
        !asks_for_session(spec_wheel(s, lift, ctx, now).1),
        spec_mouse_move(s, ctx, now).0.mode is Idle,
        !asks_for_session(spec_mouse_move(s, ctx, now).1),
        spec_tick_guards(s, idle_ms, high, dark, ctx, now).0.mode is Idle,
        !asks_for_session(spec_tick_guards(s, idle_ms, high, dark, ctx, now).1),
        spec_tick(s, at_rest, ctx, now).0.mode is Idle,
        !asks_for_session(spec_tick(s, at_rest, ctx, now).1),
{
    calibration_freezes_the_fold(
        s,
        ctx,
        now,
        open,
        enabled,
        resting_low,
        still,
        engage,
        takeover,
        idle_minutes,
        idle_ms,
    );
    let e = spec_toggle_fold(s, ctx, now).1;
    assert(e == seq![Effect::FinishCalibrationZone] || e == Seq::<Effect>::empty());
    if asks_for_session(e) {
        let i = choose|i: int| 0 <= i < e.len() && #[trigger] e[i] is Begin;
        assert(false);
    }
    let (s1, e1) = spec_tick_guards(s, idle_ms, high, dark, ctx, now);
    assert(e1 =~= Seq::<Effect>::empty());
}

/// Lid closing or the PC going to sleep: whatever the fold is doing, it finishes closing in
/// `SLEEP_FOLD` and then stays parked (no hotkey follow-up runs on it).
pub proof fn sleep_finishes_the_fold(s: Session, ctx: Context, t0: u64, t1: u64, at_rest: bool)
    requires
        ctx.calib is Off,
        s.mode is Anim || s.mode is Follow,
        !s.sleep_after_fold,
        !s.demo,
        s.lock_pending is None,
        s.demo_hold_until is None,
        t0 <= t1 <= TIME_LIMIT,
        t1 >= t0 + SLEEP_FOLD,
    ensures
        ({
            let (s1, e1) = spec_sleeping(s, ctx, t0);
            &&& s1.mode == (Mode::Anim { folding: true, start: t0, dur: SLEEP_FOLD })
            &&& !(s1.kind is Sensor)
            &&& e1 == seq![Effect::Animate]
            &&& (!(s.kind is Manual) ==> {
                let (s2, e2) = spec_tick(s1, at_rest, ctx, t1);
                &&& s2.mode is Hold
                &&& e2 == seq![Effect::SetFolded, Effect::Draw]
            })
        }),
{
    let (s1, e1) = spec_sleeping(s, ctx, t0);
    let (s2, e2) = spec_tick(s1, at_rest, ctx, t1);
    if !(s.kind is Manual) {
        assert(e2 =~= seq![Effect::SetFolded] + (seq![] + (seq![] + seq![Effect::Draw])));
    }
}

/// From the plain desktop, going to sleep folds quickly when `fold_on_sleep` is set.
pub proof fn sleep_folds_from_idle(s: Session, ctx: Context, t0: u64)
    requires
        ctx.calib is Off,
        s.mode is Idle,
        ctx.fold_on_sleep,
    ensures
        spec_sleeping(s, ctx, t0) == (s, seq![Effect::Begin(Pending::SleepFold)]),
        ({
            let (s1, e1) = spec_begun(s, Pending::SleepFold, true, ctx, t0);
            &&& s1.mode == (Mode::Anim { folding: true, start: t0, dur: SLEEP_FOLD })
            &&& s1.kind is Unfold
            &&& e1 == seq![Effect::SetFlat, Effect::Animate]
        }),
{
}

/// When WinBend owns the lid, a lid close folds first and puts the PC to sleep once the fold
/// completes; if no session can open, the PC sleeps at once.
pub proof fn owned_lid_folds_then_sleeps(s: Session, ctx: Context, t0: u64, t1: u64, at_rest: bool)
    requires
        ctx.calib is Off,
        ctx.lid_owned,
        s.mode is Idle,
        !is_stale_close(s, t0),
        s.lock_pending is None,
        s.demo_hold_until is None,
        t0 <= t1 <= TIME_LIMIT,
        t1 >= t0 + lid_fold_dur(ctx),
    ensures
        spec_lid(s, false, ctx, t0) == (s, seq![Effect::Begin(Pending::LidFold)]),
        spec_begun(s, Pending::LidFold, false, ctx, t0) == (s, seq![Effect::SleepPc]),
        ({
            let (s1, e1) = spec_begun(s, Pending::LidFold, true, ctx, t0);
            &&& s1.sleep_after_fold
            &&& e1 == seq![Effect::SetFlat, Effect::Animate]
            &&& ({
                let (s2, e2) = spec_tick(s1, at_rest, ctx, t1);
                &&& s2.mode is Hold
                &&& !s2.sleep_after_fold
                &&& e2 == seq![Effect::SetFolded, Effect::SleepPc, Effect::Draw]
            })
        }),
{
    let (s1, e1) = spec_begun(s, Pending::LidFold, true, ctx, t0);
    assert(lid_fold_dur(ctx) >= MIN_ANIMATION);
    let (s2, e2) = spec_tick(s1, at_rest, ctx, t1);
    assert(e2 =~= seq![Effect::SetFolded] + (seq![Effect::SleepPc] + (seq![] + seq![Effect::Draw])));
}

/// Fold when idle: once input has been idle for the configured minutes the desktop folds like
/// a curtain, and the first mouse movement over the held curtain lifts it.
pub proof fn idle_curtain_folds_and_lifts(s: Session, ctx: Context, minutes: u32, idle_ms: u64, t0: u64, t1: u64)
    requires
        ctx.calib is Off,
        s.mode is Idle,
        minutes > 0,
        idle_ms >= minutes * 60_000,
    ensures
        spec_idle_check(s, minutes, idle_ms, ctx) == (s, seq![Effect::Begin(Pending::IdleFold)]),
        ({
            let (s1, _) = spec_begun(s, Pending::IdleFold, true, ctx, t0);
            &&& s1.kind is IdleCurtain
            &&& s1.mode matches Mode::Anim { folding: true, .. }
            &&& ({
                let s2 = Session { mode: Mode::Hold, sleep_after_fold: false, ..s1 };
                spec_mouse_move(s2, ctx, t1).0.mode matches Mode::Anim { folding: false, .. }
            })
        }),
{
}

/// The idle curtain also lifts on input anywhere: once the last input is more recent than
/// the session's start (by half a second), the next frame lifts it.
pub proof fn idle_curtain_lifts_on_any_input(s: Session, idle_ms: u64, high: bool, dark: bool, ctx: Context, now: u64)
    requires
        s.kind is IdleCurtain,
        s.mode is Hold,
        s.session_start + idle_ms * MILLI + SECOND / 2 < now,
        now <= TIME_LIMIT,
    ensures
        spec_tick_guards(s, idle_ms, high, dark, ctx, now).0.mode matches Mode::Anim {
            folding: false,
            ..
        },
{
}

/// A camera-driven session whose camera has been silent longer than `CAMERA_SILENCE` lifts.
pub proof fn silent_camera_lifts_the_fold(s: Session, idle_ms: u64, high: bool, dark: bool, ctx: Context, now: u64)
    requires
        s.mode is Follow,
        s.follow_from_camera,
        s.last_camera_msg matches Some(t) && now > t + CAMERA_SILENCE,
        now <= TIME_LIMIT,
    ensures
        spec_tick_guards(s, idle_ms, high, dark, ctx, now).0.mode matches Mode::Anim {
            folding: false,
            ..
        },
{
}

/// A sensor session that has held the fold nearly closed for longer than `PARK_LIMIT` while
/// the lid looks open lifts, input or not; with fresh input it lifts after `PARK_GRACE`.
pub proof fn parked_sensor_fold_never_traps(
    s: Session,
    idle_ms: u64,
    dark: bool,
    ctx: Context,
    now: u64,
)
    requires
        s.kind is Sensor,
        s.mode is Follow,
        s.parked_since matches Some(p) && (now > p + PARK_LIMIT || (now > p + PARK_GRACE
            && idle_ms < ACTIVE_INPUT_MS)),
        !s.follow_from_camera || !dark,
        now <= TIME_LIMIT,
    ensures
        spec_tick_guards(s, idle_ms, true, dark, ctx, now).0.mode matches Mode::Anim {
            folding: false,
            ..
        },
{
}

/// With "lock" as the follow-up, a completed hotkey fold locks the workstation
/// `LOCK_DELAY` later and ends the session.
pub proof fn lock_after_fold(s: Session, ctx: Context, t1: u64, t2: u64, at_rest: bool)
    requires
        s.mode matches Mode::Anim { folding: true, .. },
        anim_done(s.mode, t1),
        s.kind is Manual,
        ctx.after_fold is Lock,
        !s.sleep_after_fold,
        !s.demo,
        s.lock_pending is None,
        s.demo_hold_until is None,
        t1 <= t2 <= TIME_LIMIT,
        t2 >= t1 + LOCK_DELAY,
    ensures
        ({
            let (s1, e1) = spec_tick(s, at_rest, ctx, t1);
            &&& s1.mode is Hold
            &&& s1.lock_pending == Some((t1 + LOCK_DELAY) as u64)
            &&& e1 == seq![Effect::SetFolded, Effect::Draw]
            &&& ({
                let (s2, e2) = spec_tick(s1, at_rest, ctx, t2);
                &&& s2.mode is Idle
                &&& s2.lock_pending is None
                &&& e2 == seq![Effect::LockWorkstation, Effect::EndSession]
            })
        }),
{
    let (s1, e1) = spec_tick(s, at_rest, ctx, t1);
    assert(e1 =~= seq![Effect::SetFolded] + (seq![] + (seq![] + seq![Effect::Draw])));
    let (s2, e2) = spec_tick(s1, at_rest, ctx, t2);
    assert(e2 =~= seq![] + (seq![] + seq![Effect::LockWorkstation, Effect::EndSession]));
}

/// A hotkey fold that just closed runs the follow-up chosen under "After the hotkey fold":
/// staying folded keeps the fold; locking waits `LOCK_DELAY`; sleeping ends the session and
/// puts the PC to sleep; turning the screen off does so and leaves a curtain that the first
/// touch lifts.
pub proof fn finished_hotkey_fold_runs_its_follow_up(s: Session, ctx: Context, now: u64, at_rest: bool)
    requires
        s.mode matches Mode::Anim { folding: true, .. },
        anim_done(s.mode, now),
        s.kind is Manual,
        !s.sleep_after_fold,
        !s.demo,
        s.lock_pending is None,
        s.demo_hold_until is None,
        now <= TIME_LIMIT,
    ensures
        ({
            let (s1, e) = spec_tick(s, at_rest, ctx, now);
            match ctx.after_fold {
                AfterFold::Stay => {
                    &&& s1.mode is Hold
                    &&& s1.kind is Manual
                    &&& e == seq![Effect::SetFolded, Effect::Draw]
                },
                AfterFold::Lock => {
                    &&& s1.mode is Hold
                    &&& s1.kind is Manual
                    &&& s1.lock_pending == Some((now + LOCK_DELAY) as u64)
                    &&& e == seq![Effect::SetFolded, Effect::Draw]
                },
                AfterFold::Sleep => {
                    &&& s1.mode is Idle
                    &&& e == seq![Effect::SetFolded, Effect::EndSession, Effect::SleepPc]
                },
                AfterFold::DisplayOff => {
                    &&& s1.mode is Hold
                    &&& s1.kind is IdleCurtain
                    &&& e == seq![Effect::SetFolded, Effect::DisplayOff, Effect::Draw]
                },
            }
        }),
{
    let (s1, e) = spec_tick(s, at_rest, ctx, now);
    match ctx.after_fold {
        AfterFold::Stay => {
            assert(e =~= seq![Effect::SetFolded] + (seq![] + (seq![] + seq![Effect::Draw])));
        },
        AfterFold::Lock => {
            assert(e =~= seq![Effect::SetFolded] + (seq![] + (seq![] + seq![Effect::Draw])));
        },
        AfterFold::Sleep => {
            assert(e =~= seq![Effect::SetFolded] + seq![Effect::EndSession, Effect::SleepPc]);
        },
        AfterFold::DisplayOff => {
            assert(e =~= seq![Effect::SetFolded] + (seq![Effect::DisplayOff] + (seq![] + seq![
                Effect::Draw,
            ])));
        },
    }
}

/// Webcam tracking: a lid that rests still, barely folded, inside the fold zone for longer
/// than `LOW_STILL` is taken as the new open pose: the fold lifts, the webcam forgets its
/// angle, and the sensors are muted for `ADOPT_MUTE`.
pub proof fn resting_lid_becomes_the_open_pose(s: Session, ctx: Context, now: u64, engage: bool, takeover: bool)
    requires
        ctx.calib is Off,
        s.mode is Follow,
        s.follow_from_camera,
        s.low_still_since matches Some(t) && now > t + LOW_STILL,
        now <= TIME_LIMIT,
    ensures
        ({
            let (s1, e1) = spec_camera_reading(s, true, true, true, engage, takeover, ctx, now);
            &&& s1.mode matches Mode::Anim { folding: false, .. }
            &&& s1.sensor_muted_until == Some((now + ADOPT_MUTE) as u64)
            &&& e1 == seq![Effect::ResetCamera, Effect::Animate]
        }),
{
}

/// Waking with the fold parked (and no sign-in screen) lifts it: it follows the lid when the
/// webcam is live, else it animates flat.
pub proof fn wake_lifts_the_parked_fold(s: Session, ctx: Context, now: u64)
    requires
        ctx.calib is Off,
        ctx.unfold_on_wake,
        !s.locked,
        s.mode is Hold,
        now <= TIME_LIMIT,
    ensures
        ({
            let (s1, e1) = spec_wake(s, ctx, now);
            &&& ctx.camera_live ==> s1.mode is Follow && s1.follow_from_camera && e1 == seq![
                Effect::TrackFolded,
            ]
            &&& !ctx.camera_live ==> s1.mode == (Mode::Anim {
                folding: false,
                start: now,
                dur: fold_dur(ctx),
            }) && e1 == seq![Effect::Animate]
        }),
{
}

} // verus!
