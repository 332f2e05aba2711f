//! The settings page's side of the protocol: which actions it may ask for, which links it
//! may open, and the checks a settings or power change must pass before WinBend touches
//! Windows.
use vstd::prelude::*;

use crate::links::{DONATE_URL, GITHUB_URL};
use crate::power::Setting;
use crate::text::{chars_of, is_lit};

verus! {

/// A preview message that leaves out `visible` means the preview is shown.
pub fn yes() -> (r: bool)
    ensures
        r,
{
    true
}

/// Longest page message that is parsed at all; longer ones are dropped unread.
pub const MAX_MESSAGE_LEN: usize = 65536;

/// Whether a page message of `len` bytes is read.
pub fn message_fits(len: usize) -> (b: bool)
    ensures
        b == (len <= MAX_MESSAGE_LEN),
{
    len <= MAX_MESSAGE_LEN
}

/// The actions the settings page can request by name.
#[derive(Clone, Copy, Debug, PartialEq, Eq, Structural)]
pub enum PageAction {
    FoldNow,
    CalibrateStart,
    CalibrateCancel,
    CalibrateSetZone,
    CalibrateAccel,
    OpenSettingsFile,
    ReloadSettings,
    OpenUrl,
    Copy,
    FirstRunDone,
    Navigate,
    Close,
    Unknown,
}

pub open spec fn page_action_spec(name: Seq<char>) -> PageAction {
    if name == "fold_now"@ {
        PageAction::FoldNow
    } else if name == "calibrate_start"@ {
        PageAction::CalibrateStart
    } else if name == "calibrate_cancel"@ {
        PageAction::CalibrateCancel
    } else if name == "calibrate_set_zone"@ {
        PageAction::CalibrateSetZone
    } else if name == "calibrate_accel"@ {
        PageAction::CalibrateAccel
    } else if name == "open_settings_file"@ {
        PageAction::OpenSettingsFile
    } else if name == "reload_settings"@ {
        PageAction::ReloadSettings
    } else if name == "open_url"@ {
        PageAction::OpenUrl
    } else if name == "copy"@ {
        PageAction::Copy
    } else if name == "first_run_done"@ {
        PageAction::FirstRunDone
    } else if name == "navigate"@ {
        PageAction::Navigate
    } else if name == "close"@ {
        PageAction::Close
    } else {
        PageAction::Unknown
    }
}

/// The action a page message names.
pub fn page_action(name: &str) -> (a: PageAction)
    ensures
        a == page_action_spec(name@),
{
    let n = chars_of(name);
    let s = n.as_slice();
    if is_lit(s, "fold_now") {
        PageAction::FoldNow
    } else if is_lit(s, "calibrate_start") {
        PageAction::CalibrateStart
    } else if is_lit(s, "calibrate_cancel") {
        PageAction::CalibrateCancel
    } else if is_lit(s, "calibrate_set_zone") {
        PageAction::CalibrateSetZone
    } else if is_lit(s, "calibrate_accel") {
        PageAction::CalibrateAccel
    } else if is_lit(s, "open_settings_file") {
        PageAction::OpenSettingsFile
    } else if is_lit(s, "reload_settings") {
        PageAction::ReloadSettings
    } else if is_lit(s, "open_url") {
        PageAction::OpenUrl
    } else if is_lit(s, "copy") {
        PageAction::Copy
    } else if is_lit(s, "first_run_done") {
        PageAction::FirstRunDone
    } else if is_lit(s, "navigate") {
        PageAction::Navigate
    } else if is_lit(s, "close") {
        PageAction::Close
    } else {
        PageAction::Unknown
    }
}

pub open spec fn blocked_in_check_spec(a: PageAction) -> bool {
    match a {
        PageAction::FoldNow | PageAction::CalibrateStart | PageAction::CalibrateAccel
        | PageAction::CalibrateSetZone | PageAction::ReloadSettings | PageAction::OpenUrl
        | PageAction::OpenSettingsFile => true,
        _ => false,
    }
}

/// Whether the unattended UI check refuses `a`: everything that folds the screen, calibrates,
/// reloads the settings file or opens something outside the app.
pub fn blocked_in_check(a: PageAction) -> (b: bool)
    ensures
        b == blocked_in_check_spec(a),
{
    match a {
        PageAction::FoldNow | PageAction::CalibrateStart | PageAction::CalibrateAccel
        | PageAction::CalibrateSetZone | PageAction::ReloadSettings | PageAction::OpenUrl
        | PageAction::OpenSettingsFile => true,
        _ => false,
    }
}

/// Windows' sign-in options page.
pub const SIGNIN_URL: &'static str = "ms-settings:signinoptions";

/// Where the WebView2 runtime can be downloaded.
pub const WEBVIEW2_URL: &'static str = "https://developer.microsoft.com/microsoft-edge/webview2/";

pub open spec fn destination_spec(which: Seq<char>) -> Option<Seq<char>> {
    if which == "github"@ {
        Some(GITHUB_URL@)
    } else if which == "donate"@ {
        Some(DONATE_URL@)
    } else if which == "signin"@ {
        Some(SIGNIN_URL@)
    } else if which == "webview2"@ {
        Some(WEBVIEW2_URL@)
    } else {
        None
    }
}

/// The address an `open_url` action may open; the page names a destination, never a URL.
pub fn destination(which: &str) -> (r: Option<&'static str>)
    ensures
        match r {
            Some(u) => destination_spec(which@) == Some(u@),
            None => destination_spec(which@) is None,
        },
{
    let w = chars_of(which);
    let s = w.as_slice();
    if is_lit(s, "github") {
        Some(GITHUB_URL)
    } else if is_lit(s, "donate") {
        Some(DONATE_URL)
    } else if is_lit(s, "signin") {
        Some(SIGNIN_URL)
    } else if is_lit(s, "webview2") {
        Some(WEBVIEW2_URL)
    } else {
        None
    }
}

/// The page's own document as the settings browser names it when a navigation starts:
/// `about:blank`, or the `data:text/html` URL of a document that was navigated to as a string.
pub open spec fn is_page_document(uri: Seq<char>) -> bool {
    uri == "about:blank"@ || "data:text/html"@.is_prefix_of(uri)
}

/// Whether the settings browser may go on with a navigation to `uri`: only the first
/// navigation may, and only to the page's own document.
pub fn allows_navigation(first: bool, uri: &str) -> (r: bool)
    ensures
        r == (first && is_page_document(uri@)),
{
    if !first {
        return false;
    }
    let cs = chars_of(uri);
    let s = cs.as_slice();
    if is_lit(s, "about:blank") {
        return true;
    }
    let pre = "data:text/html";
    let n = pre.unicode_len();
    if s.len() < n {
        return false;
    }
    let mut i: usize = 0;
    while i < n
        invariant
            first,
            pre@ == "data:text/html"@,
            s@ != "about:blank"@,
            n == pre@.len(),
            n <= s@.len(),
            s@ == uri@,
            i <= n,
            forall|k: int| 0 <= k < i ==> s@[k] == pre@[k],
        decreases n - i,
    {
        if s[i] != pre.get_char(i) {
            assert(s@.subrange(0, n as int)[i as int] != pre@[i as int]);
            return false;
        }
        i = i + 1;
    }
    assert(pre@ =~= s@.subrange(0, n as int));
    true
}

/// Why a settings change that passed validation is still refused.
#[derive(Clone, Copy, Debug, PartialEq, Eq, Structural)]
pub enum ChangeRefusal {
    SystemChangesInCheck,
    Calibrating,
    NoWebcam,
    AccelerometerUncalibrated,
}

pub open spec fn refusal_text(r: ChangeRefusal) -> Seq<char> {
    match r {
        ChangeRefusal::SystemChangesInCheck => "System changes are disabled during the UI check."@,
        ChangeRefusal::Calibrating => "Finish or cancel calibration before changing settings."@,
        ChangeRefusal::NoWebcam => "No webcam is available."@,
        ChangeRefusal::AccelerometerUncalibrated => "Calibrate the accelerometer first."@,
    }
}

fn owned(s: &str) -> (r: String)
    ensures
        r@ == s@,
{
    String::from_str(s)
}

impl ChangeRefusal {
    /// The message shown to the user.
    pub fn message(&self) -> (r: String)
        ensures
            r@ == refusal_text(*self),
    {
        match self {
            ChangeRefusal::SystemChangesInCheck => owned(
                "System changes are disabled during the UI check.",
            ),
            ChangeRefusal::Calibrating => owned(
                "Finish or cancel calibration before changing settings.",
            ),
            ChangeRefusal::NoWebcam => owned("No webcam is available."),
            ChangeRefusal::AccelerometerUncalibrated => owned("Calibrate the accelerometer first."),
        }
    }
}

/// What a settings change asks for, beside the values themselves.
#[derive(Clone, Copy, Debug, PartialEq, Eq, Structural)]
pub struct ChangeRequest {
    /// The change turns run-at-startup on or off.
    pub startup_changed: bool,
    /// The new settings follow the webcam.
    pub follow_camera: bool,
    /// The new settings follow the accelerometer.
    pub follow_accelerometer: bool,
    /// The new settings hold an accelerometer calibration.
    pub accelerometer_calibrated: bool,
}

/// What the app knows when a change arrives.
#[derive(Clone, Copy, Debug, PartialEq, Eq, Structural)]
pub struct ChangeContext {
    /// The unattended UI check is running.
    pub ui_check: bool,
    /// A lid calibration is under way.
    pub calibrating: bool,
    /// A webcam was found.
    pub camera_available: bool,
}

pub open spec fn change_refusal_spec(req: ChangeRequest, ctx: ChangeContext) -> Option<ChangeRefusal> {
    if ctx.ui_check && (req.startup_changed || req.follow_camera || req.follow_accelerometer) {
        Some(ChangeRefusal::SystemChangesInCheck)
    } else if ctx.calibrating {
        Some(ChangeRefusal::Calibrating)
    } else if req.follow_camera && !ctx.camera_available {
        Some(ChangeRefusal::NoWebcam)
    } else if req.follow_accelerometer && !req.accelerometer_calibrated {
        Some(ChangeRefusal::AccelerometerUncalibrated)
    } else {
        None
    }
}

/// The first reason, in the order the app checks them, to refuse a validated change.
pub fn change_refusal(req: ChangeRequest, ctx: ChangeContext) -> (r: Option<ChangeRefusal>)
    ensures
        r == change_refusal_spec(req, ctx),
{
    if ctx.ui_check && (req.startup_changed || req.follow_camera || req.follow_accelerometer) {
        Some(ChangeRefusal::SystemChangesInCheck)
    } else if ctx.calibrating {
        Some(ChangeRefusal::Calibrating)
    } else if req.follow_camera && !ctx.camera_available {
        Some(ChangeRefusal::NoWebcam)
    } else if req.follow_accelerometer && !req.accelerometer_calibrated {
        Some(ChangeRefusal::AccelerometerUncalibrated)
    } else {
        None
    }
}

/// What to do with a request to switch a Windows power integration on or off.
#[derive(Clone, Copy, Debug, PartialEq, Eq, Structural)]
pub enum PowerPlan {
    /// The UI check runs: refuse.
    DisabledInCheck,
    /// Windows already matches the request: nothing to do.
    Unchanged,
    /// Switching on needs the user's confirmation first.
    NeedsConfirmation,
    /// Write this value of this setting through the elevated helper.
    Write(Setting, u32),
}

pub open spec fn power_plan_spec(lid: bool, ui_check: bool, current: bool, enabled: bool, confirmed: bool) -> PowerPlan {
    if ui_check {
        PowerPlan::DisabledInCheck
    } else if current == enabled {
        PowerPlan::Unchanged
    } else if enabled && !confirmed {
        PowerPlan::NeedsConfirmation
    } else {
        PowerPlan::Write(
            if lid { Setting::LidAction } else { Setting::LockOnWake },
            if enabled { 0 } else { 1 },
        )
    }
}

pub open spec fn power_refusal_text(p: PowerPlan) -> Option<Seq<char>> {
    match p {
        PowerPlan::DisabledInCheck => Some("Power changes are disabled during the UI check."@),
        PowerPlan::NeedsConfirmation => Some("Confirm this Windows integration change first."@),
        _ => None,
    }
}

impl PowerPlan {
    /// The error shown for a plan that refuses the change, if it does.
    pub fn refusal(&self) -> (r: Option<String>)
        ensures
            match r {
                Some(m) => power_refusal_text(*self) == Some(m@),
                None => power_refusal_text(*self) is None,
            },
    {
        match self {
            PowerPlan::DisabledInCheck => Some(owned("Power changes are disabled during the UI check.")),
            PowerPlan::NeedsConfirmation => Some(owned("Confirm this Windows integration change first.")),
            _ => None,
        }
    }
}

/// Plans a power change: `lid` picks the lid-close action (on = the lid does nothing, so
/// WinBend handles it) over the sign-in-on-wake setting (on = no sign-in is asked); `current`
/// is whether the integration is on now, as read back from Windows.
pub fn power_plan(lid: bool, ui_check: bool, current: bool, enabled: bool, confirmed: bool) -> (p: PowerPlan)
    ensures
        p == power_plan_spec(lid, ui_check, current, enabled, confirmed),
{
    if ui_check {
        PowerPlan::DisabledInCheck
    } else if current == enabled {
        PowerPlan::Unchanged
    } else if enabled && !confirmed {
        PowerPlan::NeedsConfirmation
    } else {
        let setting = if lid { Setting::LidAction } else { Setting::LockOnWake };
        PowerPlan::Write(setting, if enabled { 0 } else { 1 })
    }
}

} // verus!
