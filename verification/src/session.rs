//! The fold session state machine: what drives the fold (a timed animation, a hold, or a
//! sensor), which session kind is running, and what happens when the lid, power state,
//! input or a timer reports something.
//!
//! The fold amount itself is a float and lives with the caller; this machine owns every
//! discrete decision. Each event handler returns the effects the caller must perform, in
//! order. `Effect::Begin` asks the caller to open a session (overlay window and screen
//! capture); the caller reports the outcome through `Session::begun`.
//!
//! Times are nanoseconds on one monotonic clock chosen by the caller.
use vstd::prelude::*;

use crate::config::AfterFold;

verus! {

/// A second, in nanoseconds.
pub const SECOND: u64 = 1_000_000_000;

/// A millisecond, in nanoseconds.
pub const MILLI: u64 = 1_000_000;

/// Latest time any handler accepts, so that every deadline computed from it fits a `u64`.
pub const TIME_LIMIT: u64 = 0x4000_0000_0000_0000;

/// Sensor input is ignored this long after the user overrides a fold.
pub const OVERRIDE_MUTE: u64 = 8 * SECOND;

/// Sensor input is ignored this long after a resting lid angle was adopted as the open pose.
pub const ADOPT_MUTE: u64 = 2 * SECOND;

/// A lid-closed report this soon after waking, with no lid-open report in between, is stale.
pub const STALE_LID: u64 = 8 * SECOND;

/// Duration of the fold that finishes when the PC goes to sleep.
pub const SLEEP_FOLD: u64 = 350 * MILLI;

/// Duration of the fold that finishes a running session when the lid closes.
pub const LID_FOLD_ACTIVE: u64 = 450 * MILLI;

/// Delay between a completed fold and locking the workstation.
pub const LOCK_DELAY: u64 = 120 * MILLI;

/// How long the demo holds the fold before lifting it.
pub const DEMO_HOLD: u64 = 900 * MILLI;

/// A camera-driven session lifts when the camera has been silent this long.
pub const CAMERA_SILENCE: u64 = 3 * SECOND;

/// A parked sensor fold lifts on user input after this grace period.
pub const PARK_GRACE: u64 = 1500 * MILLI;

/// A parked sensor fold lifts unconditionally after this long.
pub const PARK_LIMIT: u64 = 20 * SECOND;

/// A sensor session ends once it has rested at zero this long.
pub const ZERO_SETTLE: u64 = 150 * MILLI;

/// A lid resting low in the fold zone this long is adopted as the new open pose.
pub const LOW_STILL: u64 = 10 * SECOND;

/// Shortest effective animation.
pub const MIN_ANIMATION: u64 = 10 * MILLI;

/// Input idle below this many milliseconds counts as the user being active right now.
pub const ACTIVE_INPUT_MS: u64 = 250;

/// Why the current session exists.
#[derive(Clone, Copy, Debug, PartialEq, Eq, Structural)]
pub enum Kind {
    /// Hotkey or tray click.
    Manual,
    /// Hinge sensor, accelerometer or webcam.
    Sensor,
    /// Lid opened, PC woke or session unlocked; also the fold parked around sleep.
    Unfold,
    /// Folded because the user walked away; any input unfolds.
    IdleCurtain,
}

/// What drives the fold amount.
#[derive(Clone, Copy, Debug, PartialEq, Eq, Structural)]
pub enum Mode {
    Idle,
    /// Timed ease from the current amount toward folded (`folding`) or flat.
    Anim { folding: bool, start: u64, dur: u64 },
    /// Folded (or partly folded) and waiting for the user.
    Hold,
    /// Tracking a sensor; `zero_since` is when the tracked fold came to rest at zero.
    Follow { zero_since: Option<u64> },
}

/// Stage of the webcam calibration, which suppresses all folding while it runs.
#[derive(Clone, Copy, Debug, PartialEq, Eq, Structural)]
pub enum Calib {
    Off,
    /// Measuring the lid's travel.
    Travel,
    /// Waiting for the user to mark where the fold zone starts.
    Zone,
}

/// A session the caller has been asked to open, and what follows once it is open.
#[derive(Clone, Copy, Debug, PartialEq, Eq, Structural)]
pub enum Pending {
    /// Hotkey fold: from flat, animate to folded.
    ManualFold,
    /// Sensor reports folding: from flat, follow it.
    SensorFollow,
    /// Lift from folded: follow the webcam if it is live, else animate to flat.
    Unfold,
    /// PC going to sleep: fold quickly and park.
    SleepFold,
    /// Lid closed while WinBend owns the lid: fold, then sleep the PC.
    LidFold,
    /// Idle timeout: fold like a curtain.
    IdleFold,
}

/// Work the caller performs, in order, after a handler returns.
#[derive(Clone, Copy, Debug, PartialEq, Eq, Structural)]
pub enum Effect {
    /// Try to open a session of `p.kind()`, then report the outcome to `Session::begun`.
    Begin(Pending),
    /// The fold amount becomes 0 (flat).
    SetFlat,
    /// The fold amount becomes 1 (folded).
    SetFolded,
    /// An animation starts from the current fold amount (`mode` holds its direction and clock).
    Animate,
    /// The animation is under way: ease the fold amount along `mode`'s clock.
    Ease,
    /// The animation clock restarted: the fold amount returns to the animation's start.
    Restart,
    /// Follow the fold amount the sensor just reported.
    Track,
    /// Follow a fully folded target (the lift then follows the webcam).
    TrackFolded,
    /// Keep the fold amount the wheel chose.
    Scrub,
    /// The webcam forgets its integrated lid angle.
    ResetCamera,
    /// Put the PC to sleep.
    SleepPc,
    /// Lock the workstation.
    LockWorkstation,
    /// Turn the display off.
    DisplayOff,
    /// The session is over: hide the overlay, drop the capture, restore focus.
    EndSession,
    /// The hotkey marks the start of the fold zone during calibration.
    FinishCalibrationZone,
    /// Capture and draw this frame.
    Draw,
}

/// Settings and status the handlers read.
#[derive(Clone, Copy, Debug)]
pub struct Context {
    pub calib: Calib,
    /// Hotkey fold duration in milliseconds (clamped to 150..=5000 when used).
    pub fold_ms: u32,
    pub fold_on_sleep: bool,
    pub unfold_on_lid_open: bool,
    pub unfold_on_wake: bool,
    /// WinBend handles the lid and Windows' lid-close action is "do nothing".
    pub lid_owned: bool,
    pub after_fold: AfterFold,
    /// Webcam tracking is enabled and the camera is running.
    pub camera_live: bool,
}

/// The discrete state of the fold session.
#[derive(Clone, Copy, Debug)]
pub struct Session {
    pub mode: Mode,
    pub kind: Kind,
    /// The sign-in screen is up; an unfold waits for the unlock.
    pub locked: bool,
    pub unfold_pending: bool,
    /// The lid closed while WinBend owns the lid: sleep as soon as the fold completes.
    pub sleep_after_fold: bool,
    /// The running Follow session is driven by the webcam.
    pub follow_from_camera: bool,
    pub lid_opened_since_resume: bool,
    pub resumed_at: Option<u64>,
    /// Sensor input is ignored until this time.
    pub sensor_muted_until: Option<u64>,
    /// The workstation locks at this time.
    pub lock_pending: Option<u64>,
    /// Fold, hold briefly, unfold, then quit.
    pub demo: bool,
    pub demo_hold_until: Option<u64>,
    pub want_quit: bool,
    pub session_start: u64,
    pub last_camera_msg: Option<u64>,
    /// Since when a sensor session has held the fold nearly closed.
    pub parked_since: Option<u64>,
    /// Since when the webcam lid has rested low and still inside the fold zone.
    pub low_still_since: Option<u64>,
}

// ------------------------------------------------------------------ specification

impl Pending {
    /// The kind of session each pending request opens.
    pub open spec fn spec_kind(self) -> Kind {
        match self {
            Pending::ManualFold => Kind::Manual,
            Pending::SensorFollow => Kind::Sensor,
            Pending::IdleFold => Kind::IdleCurtain,
            _ => Kind::Unfold,
        }
    }

    #[verifier::when_used_as_spec(spec_kind)]
    pub fn kind(self) -> (k: Kind)
        ensures
            k == self.spec_kind(),
    {
        match self {
            Pending::ManualFold => Kind::Manual,
            Pending::SensorFollow => Kind::Sensor,
            Pending::IdleFold => Kind::IdleCurtain,
            _ => Kind::Unfold,
        }
    }
}

/// Hotkey fold duration: `fold_ms` clamped to 150..=5000 milliseconds.
pub open spec fn fold_dur(ctx: Context) -> u64 {
    let ms: u64 = if ctx.fold_ms < 150 {
        150
    } else if ctx.fold_ms > 5000 {
        5000
    } else {
        ctx.fold_ms as u64
    };
    (ms * MILLI) as u64
}

/// Duration of the fold that precedes sleep when WinBend owns the lid: `fold_ms` clamped to
/// 300..=900 milliseconds.
pub open spec fn lid_fold_dur(ctx: Context) -> u64 {
    let ms: u64 = if ctx.fold_ms < 300 {
        300
    } else if ctx.fold_ms > 900 {
        900
    } else {
        ctx.fold_ms as u64
    };
    (ms * MILLI) as u64
}

/// `a - b`, or 0 when `b` is later (elapsed time on a clock that never runs backwards).
pub open spec fn since(now: u64, then: u64) -> int {
    if now >= then {
        now - then
    } else {
        0
    }
}

pub open spec fn is_active(s: Session) -> bool {
    !(s.mode is Idle)
}

pub open spec fn is_muted(s: Session, now: u64) -> bool {
    s.sensor_muted_until matches Some(u) && now < u
}

/// The state after an animation toward folded or flat starts at `now`.
pub open spec fn animating(s: Session, folding: bool, now: u64, dur: u64) -> Session {
    Session { mode: Mode::Anim { folding, start: now, dur }, ..s }
}

/// A sensor session hands over to an unfold.
pub open spec fn demote_sensor(k: Kind) -> Kind {
    if k is Sensor {
        Kind::Unfold
    } else {
        k
    }
}

/// The user wants the desktop back: lift, mute the sensors, make the webcam forget its angle.
pub open spec fn spec_override(s: Session, ctx: Context, now: u64) -> (Session, Seq<Effect>) {
    let s1 = Session {
        sensor_muted_until: Some((now + OVERRIDE_MUTE) as u64),
        follow_from_camera: false,
        sleep_after_fold: false,
        kind: demote_sensor(s.kind),
        ..s
    };
    (animating(s1, false, now, fold_dur(ctx)), seq![Effect::ResetCamera, Effect::Animate])
}

/// Hotkey or tray click.
pub open spec fn spec_toggle_fold(s: Session, ctx: Context, now: u64) -> (Session, Seq<Effect>) {
    match ctx.calib {
        Calib::Zone => (s, seq![Effect::FinishCalibrationZone]),
        Calib::Travel => (s, seq![]),
        Calib::Off => match s.mode {
            Mode::Idle => (s, seq![Effect::Begin(Pending::ManualFold)]),
            Mode::Anim { folding, .. } => if folding {
                spec_override(s, ctx, now)
            } else {
                (animating(s, true, now, fold_dur(ctx)), seq![Effect::Animate])
            },
            _ => spec_override(s, ctx, now),
        },
    }
}

/// Key press, click on the overlay or window close: lift a running session.
pub open spec fn spec_dismiss(s: Session, ctx: Context, now: u64) -> (Session, Seq<Effect>) {
    if is_active(s) {
        spec_override(s, ctx, now)
    } else {
        (s, seq![])
    }
}

/// A sensor wants the fold at some amount. `engage`: the amount is clearly inside the fold
/// zone; `takeover`: it reports real folding, enough to take over another session.
pub open spec fn spec_follow(s: Session, engage: bool, takeover: bool, now: u64) -> (
    Session,
    Seq<Effect>,
) {
    if is_muted(s, now) {
        (s, seq![])
    } else {
        match s.mode {
            Mode::Idle => if engage {
                (s, seq![Effect::Begin(Pending::SensorFollow)])
            } else {
                (s, seq![])
            },
            Mode::Follow { .. } => (
                Session { mode: Mode::Follow { zero_since: None }, ..s },
                seq![Effect::Track],
            ),
            _ => if takeover {
                (
                    Session { kind: Kind::Sensor, mode: Mode::Follow { zero_since: None }, ..s },
                    seq![Effect::Track],
                )
            } else {
                (s, seq![])
            },
        }
    }
}

/// Hinge angle or accelerometer reading; `enabled` says that this sensor drives the fold.
pub open spec fn spec_sensor_reading(
    s: Session,
    enabled: bool,
    engage: bool,
    takeover: bool,
    ctx: Context,
    now: u64,
) -> (Session, Seq<Effect>) {
    if !enabled || !(ctx.calib is Off) {
        (s, seq![])
    } else {
        spec_follow(Session { follow_from_camera: false, ..s }, engage, takeover, now)
    }
}

/// Webcam reading while webcam tracking is on (`enabled`). `resting_low`: the camera sees a
/// bright scene and the wanted fold is small but not zero; `still`: it barely changed since
/// the previous reading.
pub open spec fn spec_camera_reading(
    s: Session,
    enabled: bool,
    resting_low: bool,
    still: bool,
    engage: bool,
    takeover: bool,
    ctx: Context,
    now: u64,
) -> (Session, Seq<Effect>) {
    if !enabled || !(ctx.calib is Off) {
        (s, seq![])
    } else {
        let s1 = Session { last_camera_msg: Some(now), ..s };
        if resting_low && s1.mode is Follow && s1.follow_from_camera {
            let start = match s1.low_still_since {
                Some(t) => t,
                None => now,
            };
            if !still {
                spec_camera_follow(Session { low_still_since: Some(now), ..s1 }, engage, takeover, now)
            } else if since(now, start) > LOW_STILL {
                let s2 = Session {
                    low_still_since: None,
                    sensor_muted_until: Some((now + ADOPT_MUTE) as u64),
                    follow_from_camera: false,
                    kind: Kind::Unfold,
                    ..s1
                };
                (animating(s2, false, now, fold_dur(ctx)), seq![Effect::ResetCamera, Effect::Animate])
            } else {
                spec_camera_follow(Session { low_still_since: Some(start), ..s1 }, engage, takeover, now)
            }
        } else {
            spec_camera_follow(Session { low_still_since: None, ..s1 }, engage, takeover, now)
        }
    }
}

/// The tail of a webcam reading: unless muted, the webcam drives the session.
pub open spec fn spec_camera_follow(s: Session, engage: bool, takeover: bool, now: u64) -> (
    Session,
    Seq<Effect>,
) {
    if is_muted(s, now) {
        (s, seq![])
    } else {
        spec_follow(Session { follow_from_camera: true, ..s }, engage, takeover, now)
    }
}

/// From a folded, open session: follow the webcam if it is live, else animate to flat.
pub open spec fn spec_lift(s: Session, ctx: Context, now: u64) -> (Session, Seq<Effect>) {
    if ctx.camera_live {
        (
            Session {
                kind: Kind::Sensor,
                follow_from_camera: true,
                last_camera_msg: Some(now),
                mode: Mode::Follow { zero_since: None },
                ..s
            },
            seq![Effect::TrackFolded],
        )
    } else {
        (animating(Session { kind: Kind::Unfold, ..s }, false, now, fold_dur(ctx)), seq![Effect::Animate])
    }
}

/// Lid opened, PC resumed or session unlocked: the desktop lifts back up.
pub open spec fn spec_start_unfold(s: Session, ctx: Context, now: u64) -> (Session, Seq<Effect>) {
    if !(ctx.calib is Off) {
        (s, seq![])
    } else {
        let s1 = Session { unfold_pending: false, ..s };
        match s1.mode {
            Mode::Idle => (s1, seq![Effect::Begin(Pending::Unfold)]),
            Mode::Hold => spec_lift(s1, ctx, now),
            _ => (s1, seq![]),
        }
    }
}

/// Lid closed or the PC is about to sleep: finish the fold fast and park there.
pub open spec fn spec_sleeping(s: Session, ctx: Context, now: u64) -> (Session, Seq<Effect>) {
    if !(ctx.calib is Off) {
        (s, seq![])
    } else {
        match s.mode {
            Mode::Idle => if ctx.fold_on_sleep {
                (s, seq![Effect::Begin(Pending::SleepFold)])
            } else {
                (s, seq![])
            },
            Mode::Hold => (s, seq![]),
            _ => (
                animating(
                    Session { kind: demote_sensor(s.kind), follow_from_camera: false, ..s },
                    true,
                    now,
                    SLEEP_FOLD,
                ),
                seq![Effect::Animate],
            ),
        }
    }
}

/// A lid-closed report is stale when it comes within `STALE_LID` of waking and the lid has
/// not been reported open since.
pub open spec fn is_stale_close(s: Session, now: u64) -> bool {
    &&& s.resumed_at matches Some(r) && now < r + STALE_LID
    &&& !s.lid_opened_since_resume
}

/// The lid switch changed.
pub open spec fn spec_lid(s: Session, open: bool, ctx: Context, now: u64) -> (Session, Seq<Effect>) {
    if !(ctx.calib is Off) {
        (s, seq![])
    } else if open {
        let s1 = Session { sleep_after_fold: false, lid_opened_since_resume: true, ..s };
        if ctx.unfold_on_lid_open {
            spec_start_unfold(s1, ctx, now)
        } else {
            (s1, seq![])
        }
    } else if is_stale_close(s, now) {
        (s, seq![])
    } else if ctx.lid_owned {
        match s.mode {
            Mode::Idle => (s, seq![Effect::Begin(Pending::LidFold)]),
            Mode::Hold => (s, seq![Effect::SleepPc]),
            _ => (
                animating(
                    Session {
                        kind: demote_sensor(s.kind),
                        follow_from_camera: false,
                        sleep_after_fold: true,
                        ..s
                    },
                    true,
                    now,
                    LID_FOLD_ACTIVE,
                ),
                seq![Effect::Animate],
            ),
        }
    } else {
        spec_sleeping(s, ctx, now)
    }
}

/// The PC resumed from sleep.
pub open spec fn spec_wake(s: Session, ctx: Context, now: u64) -> (Session, Seq<Effect>) {
    let s1 = Session {
        resumed_at: Some(now),
        lid_opened_since_resume: false,
        sleep_after_fold: false,
        ..s
    };
    if !ctx.unfold_on_wake {
        (s1, seq![])
    } else if s1.locked {
        (Session { unfold_pending: true, ..s1 }, seq![])
    } else {
        spec_start_unfold(s1, ctx, now)
    }
}

/// The session was unlocked (the sign-in screen went away).
pub open spec fn spec_unlocked(s: Session, ctx: Context, now: u64) -> (Session, Seq<Effect>) {
    let s1 = Session { locked: false, ..s };
    if s1.unfold_pending || ctx.unfold_on_wake {
        spec_start_unfold(s1, ctx, now)
    } else {
        (s1, seq![])
    }
}

/// The mouse moved over the overlay: an idle curtain or a parked unfold lifts.
pub open spec fn spec_mouse_move(s: Session, ctx: Context, now: u64) -> (Session, Seq<Effect>) {
    if (s.kind is IdleCurtain || s.kind is Unfold) && s.mode is Hold && !s.sleep_after_fold {
        (animating(s, false, now, fold_dur(ctx)), seq![Effect::Animate])
    } else {
        (s, seq![])
    }
}

/// Periodic idle check: fold like a curtain once input has been idle for `idle_minutes`.
pub open spec fn spec_idle_check(
    s: Session,
    idle_minutes: u32,
    idle_ms: u64,
    ctx: Context,
) -> (Session, Seq<Effect>) {
    if !(ctx.calib is Off) || idle_minutes == 0 || !(s.mode is Idle) {
        (s, seq![])
    } else if idle_ms >= idle_minutes * 60_000 {
        (s, seq![Effect::Begin(Pending::IdleFold)])
    } else {
        (s, seq![])
    }
}

/// Mouse wheel over the overlay; `lift`: the wheel brings the fold within a hair of flat.
pub open spec fn spec_wheel(s: Session, lift: bool, ctx: Context, now: u64) -> (Session, Seq<Effect>) {
    if !is_active(s) {
        (s, seq![])
    } else if lift {
        (animating(s, false, now, fold_dur(ctx)), seq![Effect::Animate])
    } else {
        (Session { mode: Mode::Hold, ..s }, seq![Effect::Scrub])
    }
}

/// The caller tried to open the session that `p` asked for; `ok` says whether it opened.
pub open spec fn spec_begun(s: Session, p: Pending, ok: bool, ctx: Context, now: u64) -> (
    Session,
    Seq<Effect>,
) {
    if !ok {
        if p is LidFold {
            (s, seq![Effect::SleepPc])
        } else {
            (s, seq![])
        }
    } else {
        let s0 = Session { kind: p.spec_kind(), session_start: now, ..s };
        match p {
            Pending::ManualFold => (
                animating(s0, true, now, fold_dur(ctx)),
                seq![Effect::SetFlat, Effect::Animate],
            ),
            Pending::IdleFold => (
                animating(s0, true, now, fold_dur(ctx)),
                seq![Effect::SetFlat, Effect::Animate],
            ),
            Pending::SensorFollow => (
                Session { mode: Mode::Follow { zero_since: None }, ..s0 },
                seq![Effect::SetFlat, Effect::Track],
            ),
            Pending::Unfold => {
                let (s2, e) = spec_lift(s0, ctx, now);
                (s2, seq![Effect::SetFolded] + e)
            },
            Pending::SleepFold => (
                animating(s0, true, now, SLEEP_FOLD),
                seq![Effect::SetFlat, Effect::Animate],
            ),
            Pending::LidFold => (
                animating(Session { sleep_after_fold: true, ..s0 }, true, now, lid_fold_dur(ctx)),
                seq![Effect::SetFlat, Effect::Animate],
            ),
        }
    }
}

/// How long a calibration stage may run: 45 s to measure the lid's travel, 90 s to mark the
/// fold zone.
pub open spec fn calibration_limit(stage: Calib) -> int {
    if stage is Travel {
        45 * SECOND
    } else {
        90 * SECOND
    }
}

/// Whether the running calibration `stage`, under way for `elapsed` nanoseconds, has run out
/// of time and is given up.
pub fn calibration_timed_out(stage: Calib, elapsed: u64) -> (b: bool)
    ensures
        b == (!(stage is Off) && elapsed > calibration_limit(stage)),
{
    match stage {
        Calib::Off => false,
        Calib::Travel => elapsed > 45 * SECOND,
        Calib::Zone => elapsed > 90 * SECOND,
    }
}

/// The session ends.
pub open spec fn spec_end(s: Session) -> Session {
    Session { mode: Mode::Idle, lock_pending: None, want_quit: s.want_quit || s.demo, ..s }
}

/// Safety checks at the start of each frame. `idle_ms`: milliseconds since the last input
/// anywhere; `high`: the fold is nearly closed; `dark`: the webcam's latest frame was dark.
pub open spec fn spec_tick_guards(
    s: Session,
    idle_ms: u64,
    high: bool,
    dark: bool,
    ctx: Context,
    now: u64,
) -> (Session, Seq<Effect>) {
    let (s1, e1) = spec_curtain_guard(s, idle_ms, ctx, now);
    let (s2, e2) = spec_watchdog(s1, ctx, now);
    let (s3, e3) = spec_park_guard(s2, idle_ms, high, dark, ctx, now);
    (s3, e1 + e2 + e3)
}

/// The idle curtain (and a parked unfold) lifts on any input anywhere.
pub open spec fn spec_curtain_guard(s: Session, idle_ms: u64, ctx: Context, now: u64) -> (
    Session,
    Seq<Effect>,
) {
    if (s.kind is IdleCurtain || s.kind is Unfold) && (s.mode is Hold || s.mode matches Mode::Anim {
        folding: true,
        ..
    }) && idle_ms * MILLI + SECOND / 2 < since(now, s.session_start) {
        (animating(s, false, now, fold_dur(ctx)), seq![Effect::Animate])
    } else {
        (s, seq![])
    }
}

/// A webcam-driven session lifts when the camera stops reporting.
pub open spec fn spec_watchdog(s: Session, ctx: Context, now: u64) -> (Session, Seq<Effect>) {
    if s.mode is Follow && s.follow_from_camera && (s.last_camera_msg matches Some(t) && since(
        now,
        t,
    ) > CAMERA_SILENCE) {
        spec_override(s, ctx, now)
    } else {
        (s, seq![])
    }
}

/// A sensor fold parked nearly closed while the lid looks open lifts on input after a grace
/// period, and unconditionally after `PARK_LIMIT`.
pub open spec fn spec_park_guard(
    s: Session,
    idle_ms: u64,
    high: bool,
    dark: bool,
    ctx: Context,
    now: u64,
) -> (Session, Seq<Effect>) {
    if s.kind is Sensor && s.mode is Follow {
        if high {
            let start = match s.parked_since {
                Some(t) => t,
                None => now,
            };
            let s1 = Session { parked_since: Some(start), ..s };
            let parked_for = since(now, start);
            let looks_open = !s.follow_from_camera || !dark;
            if looks_open && parked_for > PARK_GRACE && idle_ms < ACTIVE_INPUT_MS {
                spec_override(s1, ctx, now)
            } else if looks_open && parked_for > PARK_LIMIT {
                spec_override(s1, ctx, now)
            } else {
                (s1, seq![])
            }
        } else {
            (Session { parked_since: None, ..s }, seq![])
        }
    } else {
        (Session { parked_since: None, ..s }, seq![])
    }
}

/// Whether the animation in `m` has run its course at `now`.
pub open spec fn anim_done(m: Mode, now: u64) -> bool {
    match m {
        Mode::Anim { start, dur, .. } => since(now, start) >= (if dur < MIN_ANIMATION {
            MIN_ANIMATION
        } else {
            dur
        }),
        _ => false,
    }
}

/// Advance the session clock after the caller moved the fold amount. `at_rest`: a Follow
/// session's target is zero and the fold has reached it. Returns the new state, the effects,
/// and whether the frame ended a fold or an unfold.
pub open spec fn spec_advance(s: Session, at_rest: bool, now: u64) -> (Session, Seq<Effect>, bool, bool) {
    match s.mode {
        Mode::Anim { folding, .. } => if anim_done(s.mode, now) {
            if folding {
                (Session { mode: Mode::Hold, ..s }, seq![Effect::SetFolded], true, false)
            } else {
                (s, seq![Effect::SetFlat], false, true)
            }
        } else {
            (s, seq![Effect::Ease], false, false)
        },
        Mode::Follow { zero_since } => if at_rest {
            let start = match zero_since {
                Some(t) => t,
                None => now,
            };
            (
                Session { mode: Mode::Follow { zero_since: Some(start) }, ..s },
                seq![],
                false,
                since(now, start) > ZERO_SETTLE,
            )
        } else {
            (Session { mode: Mode::Follow { zero_since: None }, ..s }, seq![], false, false)
        },
        _ => (s, seq![], false, false),
    }
}

/// What a completed hotkey fold leads to.
pub open spec fn spec_after_fold(s: Session, ctx: Context, now: u64) -> (Session, Seq<Effect>) {
    match ctx.after_fold {
        AfterFold::Lock => (Session { lock_pending: Some((now + LOCK_DELAY) as u64), ..s }, seq![]),
        AfterFold::Sleep => (spec_end(s), seq![Effect::EndSession, Effect::SleepPc]),
        AfterFold::DisplayOff => (Session { kind: Kind::IdleCurtain, ..s }, seq![Effect::DisplayOff]),
        AfterFold::Stay => (s, seq![]),
    }
}

/// A fold just completed: sleep if the lid asked for it, hold for the demo, or run the
/// hotkey fold's follow-up action.
pub open spec fn spec_fold_done(s: Session, ctx: Context, now: u64) -> (Session, Seq<Effect>) {
    if s.sleep_after_fold {
        (Session { sleep_after_fold: false, ..s }, seq![Effect::SleepPc])
    } else if s.demo {
        (Session { demo_hold_until: Some((now + DEMO_HOLD) as u64), ..s }, seq![])
    } else if s.kind is Manual {
        spec_after_fold(s, ctx, now)
    } else {
        (s, seq![])
    }
}

/// One frame of a running session: advance the clock, then act on a finished fold, a due
/// lock, the demo's hold and a finished unfold. The frame is drawn (`Effect::Draw` last)
/// unless the session ended or is not running.
pub open spec fn spec_tick(s: Session, at_rest: bool, ctx: Context, now: u64) -> (
    Session,
    Seq<Effect>,
) {
    if s.mode is Idle {
        (s, seq![])
    } else {
        let (s1, e1, folded, unfolded) = spec_advance(s, at_rest, now);
        let (s2, e2) = spec_settle(s1, folded, unfolded, ctx, now);
        (s2, e1 + e2)
    }
}

/// After the clock advanced: a finished fold's follow-up, then the rest of the frame unless
/// that follow-up ended the session.
pub open spec fn spec_settle(s: Session, folded: bool, unfolded: bool, ctx: Context, now: u64) -> (
    Session,
    Seq<Effect>,
) {
    let (s1, e1) = if folded {
        spec_fold_done(s, ctx, now)
    } else {
        (s, seq![])
    };
    if folded && s1.mode is Idle {
        (s1, e1)
    } else {
        let (s2, e2) = spec_frame_end(s1, unfolded, ctx, now);
        (s2, e1 + e2)
    }
}

/// The end of a frame: a due lock ends the session; the demo's hold may end and lift the fold;
/// a finished unfold ends the session; otherwise the frame is drawn.
pub open spec fn spec_frame_end(s: Session, unfolded: bool, ctx: Context, now: u64) -> (
    Session,
    Seq<Effect>,
) {
    if s.lock_pending matches Some(w) && now >= w {
        (spec_end(Session { lock_pending: None, ..s }), seq![Effect::LockWorkstation, Effect::EndSession])
    } else {
        let (s1, e1) = if s.demo_hold_until matches Some(u) && now >= u {
            (
                animating(Session { demo_hold_until: None, ..s }, false, now, fold_dur(ctx)),
                seq![Effect::Animate],
            )
        } else {
            (s, seq![])
        };
        if unfolded {
            (spec_end(s1), e1 + seq![Effect::EndSession])
        } else {
            (s1, e1 + seq![Effect::Draw])
        }
    }
}

// ------------------------------------------------------------------ implementation

impl Session {
    /// No session; the lid counts as opened since the last resume.
    pub fn new(demo: bool) -> (s: Session)
        ensures
            s.mode is Idle,
            s.kind is Manual,
            !s.locked && !s.unfold_pending && !s.sleep_after_fold && !s.follow_from_camera,
            s.lid_opened_since_resume,
            s.resumed_at is None && s.sensor_muted_until is None && s.lock_pending is None,
            s.demo == demo && s.demo_hold_until is None && !s.want_quit,
            s.session_start == 0,
            s.last_camera_msg is None && s.parked_since is None && s.low_still_since is None,
    {
        Session {
            mode: Mode::Idle,
            kind: Kind::Manual,
            locked: false,
            unfold_pending: false,
            sleep_after_fold: false,
            follow_from_camera: false,
            lid_opened_since_resume: true,
            resumed_at: None,
            sensor_muted_until: None,
            lock_pending: None,
            demo,
            demo_hold_until: None,
            want_quit: false,
            session_start: 0,
            last_camera_msg: None,
            parked_since: None,
            low_still_since: None,
        }
    }

    /// A session is running.
    pub fn active(&self) -> (b: bool)
        ensures
            b == is_active(*self),
    {
        !matches!(self.mode, Mode::Idle)
    }

    /// The session reacts to the user as a deliberate one (focus, clicks, cursor).
    pub fn manual(&self) -> (b: bool)
        ensures
            b == (self.kind is Manual || self.kind is IdleCurtain),
    {
        matches!(self.kind, Kind::Manual | Kind::IdleCurtain)
    }

    fn fold_duration(ctx: &Context) -> (d: u64)
        ensures
            d == fold_dur(*ctx),
    {
        let ms: u64 = if ctx.fold_ms < 150 {
            150
        } else if ctx.fold_ms > 5000 {
            5000
        } else {
            ctx.fold_ms as u64
        };
        ms * MILLI
    }

    fn lid_fold_duration(ctx: &Context) -> (d: u64)
        ensures
            d == lid_fold_dur(*ctx),
    {
        let ms: u64 = if ctx.fold_ms < 300 {
            300
        } else if ctx.fold_ms > 900 {
            900
        } else {
            ctx.fold_ms as u64
        };
        ms * MILLI
    }

    fn animate(&mut self, folding: bool, now: u64, dur: u64)
        ensures
            *final(self) == animating(*old(self), folding, now, dur),
    {
        self.mode = Mode::Anim { folding, start: now, dur };
    }

    fn muted(&self, now: u64) -> (b: bool)
        ensures
            b == is_muted(*self, now),
    {
        match self.sensor_muted_until {
            Some(u) => now < u,
            None => false,
        }
    }

    fn user_override(&mut self, ctx: &Context, now: u64) -> (e: Vec<Effect>)
        requires
            now <= TIME_LIMIT,
        ensures
            (*final(self), e@) == spec_override(*old(self), *ctx, now),
    {
        self.sensor_muted_until = Some(now + OVERRIDE_MUTE);
        self.follow_from_camera = false;
        self.sleep_after_fold = false;
        if matches!(self.kind, Kind::Sensor) {
            self.kind = Kind::Unfold;
        }
        self.animate(false, now, Self::fold_duration(ctx));
        let mut e = Vec::new();
        e.push(Effect::ResetCamera);
        e.push(Effect::Animate);
        proof {
            assert(e@ =~= seq![Effect::ResetCamera, Effect::Animate]);
        }
        e
    }

    /// Hotkey or tray click: fold from idle, reverse a fold in progress, or lift a folded
    /// or sensor-driven desktop. During calibration the hotkey marks the fold zone instead.
    pub fn toggle_fold(&mut self, ctx: &Context, now: u64) -> (e: Vec<Effect>)
        requires
            now <= TIME_LIMIT,
        ensures
            (*final(self), e@) == spec_toggle_fold(*old(self), *ctx, now),
    {
        match ctx.calib {
            Calib::Zone => effects1(Effect::FinishCalibrationZone),
            Calib::Travel => Vec::new(),
            Calib::Off => match self.mode {
                Mode::Idle => effects1(Effect::Begin(Pending::ManualFold)),
                Mode::Anim { folding, .. } => {
                    if folding {
                        self.user_override(ctx, now)
                    } else {
                        self.animate(true, now, Self::fold_duration(ctx));
                        effects1(Effect::Animate)
                    }
                },
                _ => self.user_override(ctx, now),
            },
        }
    }

    /// Key press, click or close on the overlay: lift a running session.
    pub fn dismiss(&mut self, ctx: &Context, now: u64) -> (e: Vec<Effect>)
        requires
            now <= TIME_LIMIT,
        ensures
            (*final(self), e@) == spec_dismiss(*old(self), *ctx, now),
    {
        if self.active() {
            self.user_override(ctx, now)
        } else {
            Vec::new()
        }
    }

    fn follow(&mut self, engage: bool, takeover: bool, now: u64) -> (e: Vec<Effect>)
        ensures
            (*final(self), e@) == spec_follow(*old(self), engage, takeover, now),
    {
        if self.muted(now) {
            return Vec::new();
        }
        match self.mode {
            Mode::Idle => {
                if engage {
                    effects1(Effect::Begin(Pending::SensorFollow))
                } else {
                    Vec::new()
                }
            },
            Mode::Follow { .. } => {
                self.mode = Mode::Follow { zero_since: None };
                effects1(Effect::Track)
            },
            _ => {
                if takeover {
                    self.kind = Kind::Sensor;
                    self.mode = Mode::Follow { zero_since: None };
                    effects1(Effect::Track)
                } else {
                    Vec::new()
                }
            },
        }
    }

    /// Hinge angle or accelerometer reading; `enabled`: this sensor drives the fold.
    pub fn sensor_reading(
        &mut self,
        enabled: bool,
        engage: bool,
        takeover: bool,
        ctx: &Context,
        now: u64,
    ) -> (e: Vec<Effect>)
        ensures
            (*final(self), e@) == spec_sensor_reading(
                *old(self),
                enabled,
                engage,
                takeover,
                *ctx,
                now,
            ),
    {
        if !enabled || !matches!(ctx.calib, Calib::Off) {
            return Vec::new();
        }
        self.follow_from_camera = false;
        self.follow(engage, takeover, now)
    }

    fn camera_follow(&mut self, engage: bool, takeover: bool, now: u64) -> (e: Vec<Effect>)
        ensures
            (*final(self), e@) == spec_camera_follow(*old(self), engage, takeover, now),
    {
        if self.muted(now) {
            return Vec::new();
        }
        self.follow_from_camera = true;
        self.follow(engage, takeover, now)
    }

    /// Webcam reading while webcam tracking is on (`enabled`); see `spec_camera_reading`.
    pub fn camera_reading(
        &mut self,
        enabled: bool,
        resting_low: bool,
        still: bool,
        engage: bool,
        takeover: bool,
        ctx: &Context,
        now: u64,
    ) -> (e: Vec<Effect>)
        requires
            now <= TIME_LIMIT,
        ensures
            (*final(self), e@) == spec_camera_reading(
                *old(self),
                enabled,
                resting_low,
                still,
                engage,
                takeover,
                *ctx,
                now,
            ),
    {
        if !enabled || !matches!(ctx.calib, Calib::Off) {
            return Vec::new();
        }
        self.last_camera_msg = Some(now);
        if resting_low && matches!(self.mode, Mode::Follow { .. }) && self.follow_from_camera {
            let start = match self.low_still_since {
                Some(t) => t,
                None => now,
            };
            if !still {
                self.low_still_since = Some(now);
                self.camera_follow(engage, takeover, now)
            } else if now >= start && now - start > LOW_STILL {
                self.low_still_since = None;
                self.sensor_muted_until = Some(now + ADOPT_MUTE);
                self.follow_from_camera = false;
                self.kind = Kind::Unfold;
                self.animate(false, now, Self::fold_duration(ctx));
                effects2(Effect::ResetCamera, Effect::Animate)
            } else {
                self.low_still_since = Some(start);
                self.camera_follow(engage, takeover, now)
            }
        } else {
            self.low_still_since = None;
            self.camera_follow(engage, takeover, now)
        }
    }

    fn lift(&mut self, ctx: &Context, now: u64) -> (e: Vec<Effect>)
        ensures
            (*final(self), e@) == spec_lift(*old(self), *ctx, now),
    {
        if ctx.camera_live {
            self.kind = Kind::Sensor;
            self.follow_from_camera = true;
            self.last_camera_msg = Some(now);
            self.mode = Mode::Follow { zero_since: None };
            effects1(Effect::TrackFolded)
        } else {
            self.kind = Kind::Unfold;
            self.animate(false, now, Self::fold_duration(ctx));
            effects1(Effect::Animate)
        }
    }

    fn start_unfold(&mut self, ctx: &Context, now: u64) -> (e: Vec<Effect>)
        ensures
            (*final(self), e@) == spec_start_unfold(*old(self), *ctx, now),
    {
        if !matches!(ctx.calib, Calib::Off) {
            return Vec::new();
        }
        self.unfold_pending = false;
        match self.mode {
            Mode::Idle => effects1(Effect::Begin(Pending::Unfold)),
            Mode::Hold => self.lift(ctx, now),
            _ => Vec::new(),
        }
    }

    /// The PC is about to sleep: finish the fold fast and park there.
    pub fn sleeping(&mut self, ctx: &Context, now: u64) -> (e: Vec<Effect>)
        ensures
            (*final(self), e@) == spec_sleeping(*old(self), *ctx, now),
    {
        if !matches!(ctx.calib, Calib::Off) {
            return Vec::new();
        }
        match self.mode {
            Mode::Idle => {
                if ctx.fold_on_sleep {
                    effects1(Effect::Begin(Pending::SleepFold))
                } else {
                    Vec::new()
                }
            },
            Mode::Hold => Vec::new(),
            _ => {
                if matches!(self.kind, Kind::Sensor) {
                    self.kind = Kind::Unfold;
                }
                self.follow_from_camera = false;
                self.animate(true, now, SLEEP_FOLD);
                effects1(Effect::Animate)
            },
        }
    }

    /// The lid switch changed (`open`).
    pub fn lid(&mut self, open: bool, ctx: &Context, now: u64) -> (e: Vec<Effect>)
        ensures
            (*final(self), e@) == spec_lid(*old(self), open, *ctx, now),
    {
        if !matches!(ctx.calib, Calib::Off) {
            return Vec::new();
        }
        if open {
            self.sleep_after_fold = false;
            self.lid_opened_since_resume = true;
            if ctx.unfold_on_lid_open {
                self.start_unfold(ctx, now)
            } else {
                Vec::new()
            }
        } else if self.stale_close(now) {
            Vec::new()
        } else if ctx.lid_owned {
            match self.mode {
                Mode::Idle => effects1(Effect::Begin(Pending::LidFold)),
                Mode::Hold => effects1(Effect::SleepPc),
                _ => {
                    if matches!(self.kind, Kind::Sensor) {
                        self.kind = Kind::Unfold;
                    }
                    self.follow_from_camera = false;
                    self.sleep_after_fold = true;
                    self.animate(true, now, LID_FOLD_ACTIVE);
                    effects1(Effect::Animate)
                },
            }
        } else {
            self.sleeping(ctx, now)
        }
    }

    fn stale_close(&self, now: u64) -> (b: bool)
        ensures
            b == is_stale_close(*self, now),
    {
        match self.resumed_at {
            Some(r) => (now < r || now - r < STALE_LID) && !self.lid_opened_since_resume,
            None => false,
        }
    }

    /// The PC resumed from sleep.
    pub fn wake(&mut self, ctx: &Context, now: u64) -> (e: Vec<Effect>)
        ensures
            (*final(self), e@) == spec_wake(*old(self), *ctx, now),
    {
        self.resumed_at = Some(now);
        self.lid_opened_since_resume = false;
        self.sleep_after_fold = false;
        if !ctx.unfold_on_wake {
            Vec::new()
        } else if self.locked {
            self.unfold_pending = true;
            Vec::new()
        } else {
            self.start_unfold(ctx, now)
        }
    }

    /// The session was locked (the sign-in screen is up).
    pub fn lock(&mut self)
        ensures
            *final(self) == (Session { locked: true, ..*old(self) }),
    {
        self.locked = true;
    }

    /// The session was unlocked.
    pub fn unlocked(&mut self, ctx: &Context, now: u64) -> (e: Vec<Effect>)
        ensures
            (*final(self), e@) == spec_unlocked(*old(self), *ctx, now),
    {
        self.locked = false;
        if self.unfold_pending || ctx.unfold_on_wake {
            self.start_unfold(ctx, now)
        } else {
            Vec::new()
        }
    }

    /// The mouse moved over the overlay.
    pub fn mouse_move(&mut self, ctx: &Context, now: u64) -> (e: Vec<Effect>)
        ensures
            (*final(self), e@) == spec_mouse_move(*old(self), *ctx, now),
    {
        if matches!(self.kind, Kind::IdleCurtain | Kind::Unfold) && matches!(self.mode, Mode::Hold)
            && !self.sleep_after_fold {
            self.animate(false, now, Self::fold_duration(ctx));
            effects1(Effect::Animate)
        } else {
            Vec::new()
        }
    }

    /// Periodic idle check with `idle_ms` milliseconds since the last input.
    pub fn idle_check(&mut self, idle_minutes: u32, idle_ms: u64, ctx: &Context) -> (e: Vec<
        Effect,
    >)
        ensures
            (*final(self), e@) == spec_idle_check(*old(self), idle_minutes, idle_ms, *ctx),
    {
        if !matches!(ctx.calib, Calib::Off) || idle_minutes == 0 || !matches!(self.mode, Mode::Idle) {
            Vec::new()
        } else if idle_ms >= idle_minutes as u64 * 60_000 {
            effects1(Effect::Begin(Pending::IdleFold))
        } else {
            Vec::new()
        }
    }

    /// Mouse wheel over the overlay; `lift`: the new fold amount is within a hair of flat.
    pub fn wheel(&mut self, lift: bool, ctx: &Context, now: u64) -> (e: Vec<Effect>)
        ensures
            (*final(self), e@) == spec_wheel(*old(self), lift, *ctx, now),
    {
        if !self.active() {
            Vec::new()
        } else if lift {
            self.animate(false, now, Self::fold_duration(ctx));
            effects1(Effect::Animate)
        } else {
            self.mode = Mode::Hold;
            effects1(Effect::Scrub)
        }
    }

    /// Reports whether the session that `p` asked for opened (`ok`), and starts it.
    pub fn begun(&mut self, p: Pending, ok: bool, ctx: &Context, now: u64) -> (e: Vec<Effect>)
        ensures
            (*final(self), e@) == spec_begun(*old(self), p, ok, *ctx, now),
    {
        if !ok {
            return if matches!(p, Pending::LidFold) {
                effects1(Effect::SleepPc)
            } else {
                Vec::new()
            };
        }
        self.kind = p.kind();
        self.session_start = now;
        match p {
            Pending::ManualFold | Pending::IdleFold => {
                self.animate(true, now, Self::fold_duration(ctx));
                effects2(Effect::SetFlat, Effect::Animate)
            },
            Pending::SensorFollow => {
                self.mode = Mode::Follow { zero_since: None };
                effects2(Effect::SetFlat, Effect::Track)
            },
            Pending::Unfold => {
                let rest = self.lift(ctx, now);
                let mut e = effects1(Effect::SetFolded);
                let mut rest = rest;
                e.append(&mut rest);
                e
            },
            Pending::SleepFold => {
                self.animate(true, now, SLEEP_FOLD);
                effects2(Effect::SetFlat, Effect::Animate)
            },
            Pending::LidFold => {
                self.sleep_after_fold = true;
                self.animate(true, now, Self::lid_fold_duration(ctx));
                effects2(Effect::SetFlat, Effect::Animate)
            },
        }
    }

    /// Ends the session (the caller hides the overlay and resets the fold amount).
    pub fn end_session(&mut self)
        ensures
            *final(self) == spec_end(*old(self)),
    {
        self.mode = Mode::Idle;
        self.lock_pending = None;
        if self.demo {
            self.want_quit = true;
        }
    }

    /// The display geometry changed: the session is dropped without the end-of-session steps.
    pub fn display_changed(&mut self)
        ensures
            *final(self) == (Session { mode: Mode::Idle, ..*old(self) }),
    {
        self.mode = Mode::Idle;
    }

    /// The first capture frame arrived: a running animation restarts its clock now.
    pub fn restart_clock(&mut self, now: u64) -> (e: Vec<Effect>)
        ensures
            match old(self).mode {
                Mode::Anim { folding, dur, .. } => final(self).mode == (Mode::Anim {
                    folding,
                    start: now,
                    dur,
                }) && e@ == seq![Effect::Restart],
                _ => final(self).mode == old(self).mode && e@ == Seq::<Effect>::empty(),
            },
            *final(self) == (Session { mode: final(self).mode, ..*old(self) }),
    {
        match self.mode {
            Mode::Anim { folding, dur, .. } => {
                self.mode = Mode::Anim { folding, start: now, dur };
                effects1(Effect::Restart)
            },
            _ => Vec::new(),
        }
    }

    /// Safety checks at the start of each frame (see `spec_tick_guards`).
    pub fn tick_guards(&mut self, idle_ms: u64, high: bool, dark: bool, ctx: &Context, now: u64) -> (e:
        Vec<Effect>)
        requires
            now <= TIME_LIMIT,
        ensures
            (*final(self), e@) == spec_tick_guards(*old(self), idle_ms, high, dark, *ctx, now),
    {
        let mut e = Vec::new();
        // The idle curtain lifts on any input anywhere, even input that never reaches the overlay.
        let quiet: u128 = (idle_ms as u128) * (MILLI as u128) + (SECOND / 2) as u128;
        let running: u128 = if now >= self.session_start {
            (now - self.session_start) as u128
        } else {
            0
        };
        if matches!(self.kind, Kind::IdleCurtain | Kind::Unfold) && matches!(
            self.mode,
            Mode::Hold | Mode::Anim { folding: true, .. }
        ) && quiet < running {
            self.animate(false, now, Self::fold_duration(ctx));
            e.push(Effect::Animate);
        }
        let ghost e1 = e@;
        // Webcam watchdog: a camera that stopped reporting must not leave the desktop parked.
        let silent = match self.last_camera_msg {
            Some(t) => now >= t && now - t > CAMERA_SILENCE,
            None => false,
        };
        if matches!(self.mode, Mode::Follow { .. }) && self.follow_from_camera && silent {
            let mut o = self.user_override(ctx, now);
            e.append(&mut o);
        }
        let ghost e2 = e@;
        // Sensor sessions must never trap the user behind a parked fold.
        if matches!(self.kind, Kind::Sensor) && matches!(self.mode, Mode::Follow { .. }) {
            if high {
                let start = match self.parked_since {
                    Some(t) => t,
                    None => now,
                };
                self.parked_since = Some(start);
                let parked_for = if now >= start {
                    now - start
                } else {
                    0
                };
                let looks_open = !self.follow_from_camera || !dark;
                if looks_open && parked_for > PARK_GRACE && idle_ms < ACTIVE_INPUT_MS {
                    let mut o = self.user_override(ctx, now);
                    e.append(&mut o);
                } else if looks_open && parked_for > PARK_LIMIT {
                    let mut o = self.user_override(ctx, now);
                    e.append(&mut o);
                }
            } else {
                self.parked_since = None;
            }
        } else {
            self.parked_since = None;
        }
        proof {
            let (s1, f1) = spec_curtain_guard(*old(self), idle_ms, *ctx, now);
            let (s2, f2) = spec_watchdog(s1, *ctx, now);
            assert(e1 == f1);
            assert(e2 =~= f1 + f2);
            assert(e@ =~= e1 + f2 + (e@.subrange(e2.len() as int, e@.len() as int)));
        }
        e
    }

    fn advance(&mut self, at_rest: bool, now: u64) -> (r: (Vec<Effect>, bool, bool))
        ensures
            ({
                let (s1, e1, f, u) = spec_advance(*old(self), at_rest, now);
                *final(self) == s1 && r.0@ == e1 && r.1 == f && r.2 == u
            }),
    {
        match self.mode {
            Mode::Anim { folding, start, dur } => {
                let least = if dur < MIN_ANIMATION {
                    MIN_ANIMATION
                } else {
                    dur
                };
                if now >= start && now - start >= least {
                    if folding {
                        self.mode = Mode::Hold;
                        (effects1(Effect::SetFolded), true, false)
                    } else {
                        (effects1(Effect::SetFlat), false, true)
                    }
                } else {
                    (effects1(Effect::Ease), false, false)
                }
            },
            Mode::Follow { zero_since } => {
                if at_rest {
                    let start = match zero_since {
                        Some(t) => t,
                        None => now,
                    };
                    self.mode = Mode::Follow { zero_since: Some(start) };
                    (Vec::new(), false, now >= start && now - start > ZERO_SETTLE)
                } else {
                    self.mode = Mode::Follow { zero_since: None };
                    (Vec::new(), false, false)
                }
            },
            _ => (Vec::new(), false, false),
        }
    }

    fn fold_done(&mut self, ctx: &Context, now: u64) -> (e: Vec<Effect>)
        requires
            now <= TIME_LIMIT,
        ensures
            (*final(self), e@) == spec_fold_done(*old(self), *ctx, now),
    {
        if self.sleep_after_fold {
            self.sleep_after_fold = false;
            effects1(Effect::SleepPc)
        } else if self.demo {
            self.demo_hold_until = Some(now + DEMO_HOLD);
            Vec::new()
        } else if matches!(self.kind, Kind::Manual) {
            match ctx.after_fold {
                AfterFold::Lock => {
                    self.lock_pending = Some(now + LOCK_DELAY);
                    Vec::new()
                },
                AfterFold::Sleep => {
                    self.end_session();
                    effects2(Effect::EndSession, Effect::SleepPc)
                },
                AfterFold::DisplayOff => {
                    self.kind = Kind::IdleCurtain;
                    effects1(Effect::DisplayOff)
                },
                AfterFold::Stay => Vec::new(),
            }
        } else {
            Vec::new()
        }
    }

    fn frame_end(&mut self, unfolded: bool, ctx: &Context, now: u64) -> (e: Vec<Effect>)
        requires
            now <= TIME_LIMIT,
        ensures
            (*final(self), e@) == spec_frame_end(*old(self), unfolded, *ctx, now),
    {
        let due = match self.lock_pending {
            Some(w) => now >= w,
            None => false,
        };
        if due {
            self.lock_pending = None;
            self.end_session();
            return effects2(Effect::LockWorkstation, Effect::EndSession);
        }
        let demo_due = match self.demo_hold_until {
            Some(u) => now >= u,
            None => false,
        };
        let mut e = Vec::new();
        if demo_due {
            self.demo_hold_until = None;
            self.animate(false, now, Self::fold_duration(ctx));
            e.push(Effect::Animate);
        }
        let ghost e1 = e@;
        if unfolded {
            self.end_session();
            e.push(Effect::EndSession);
            proof {
                assert(e@ =~= e1 + seq![Effect::EndSession]);
            }
        } else {
            e.push(Effect::Draw);
            proof {
                assert(e@ =~= e1 + seq![Effect::Draw]);
            }
        }
        proof {
            if demo_due {
                assert(e1 =~= seq![Effect::Animate]);
            } else {
                assert(e1 =~= seq![]);
            }
        }
        e
    }

    fn settle(&mut self, folded: bool, unfolded: bool, ctx: &Context, now: u64) -> (e: Vec<
        Effect,
    >)
        requires
            now <= TIME_LIMIT,
        ensures
            (*final(self), e@) == spec_settle(*old(self), folded, unfolded, *ctx, now),
    {
        let mut e = if folded {
            self.fold_done(ctx, now)
        } else {
            Vec::new()
        };
        if folded && matches!(self.mode, Mode::Idle) {
            return e;
        }
        let ghost e1 = e@;
        let mut rest = self.frame_end(unfolded, ctx, now);
        e.append(&mut rest);
        proof {
            if !folded {
                assert(e1 =~= seq![]);
            }
        }
        e
    }

    /// One frame of a running session (see `spec_tick`). The caller has already moved the
    /// fold amount; `at_rest`: a Follow session's target is zero and the fold reached it.
    pub fn tick(&mut self, at_rest: bool, ctx: &Context, now: u64) -> (e: Vec<Effect>)
        requires
            now <= TIME_LIMIT,
        ensures
            (*final(self), e@) == spec_tick(*old(self), at_rest, *ctx, now),
    {
        if matches!(self.mode, Mode::Idle) {
            return Vec::new();
        }
        let (mut e, folded, unfolded) = self.advance(at_rest, now);
        let mut rest = self.settle(folded, unfolded, ctx, now);
        e.append(&mut rest);
        e
    }
}

fn effects1(a: Effect) -> (v: Vec<Effect>)
    ensures
        v@ == seq![a],
{
    let mut v = Vec::new();
    v.push(a);
    proof {
        assert(v@ =~= seq![a]);
    }
    v
}

fn effects2(a: Effect, b: Effect) -> (v: Vec<Effect>)
    ensures
        v@ == seq![a, b],
{
    let mut v = Vec::new();
    v.push(a);
    v.push(b);
    proof {
        assert(v@ =~= seq![a, b]);
    }
    v
}

} // verus!
