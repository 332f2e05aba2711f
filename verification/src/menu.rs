//! The tray menu's command identifiers and what each one asks for.
use vstd::prelude::*;

use crate::config::{after_fold_spec, is_after_fold, is_style, AfterFold};
use crate::text::{chars_of, is_lit};

verus! {

pub const CMD_FOLD: u32 = 100;
pub const CMD_STYLE_SILK: u32 = 101;
pub const CMD_STYLE_SHADE: u32 = 102;
pub const CMD_STYLE_FROST: u32 = 103;
pub const CMD_STYLE_CUSTOM: u32 = 104;
pub const CMD_FOLLOW_HINGE: u32 = 110;
pub const CMD_UNFOLD_ON_LID: u32 = 111;
pub const CMD_SETTINGS: u32 = 112;
pub const CMD_STARTUP: u32 = 113;
pub const CMD_UNFOLD_ON_WAKE: u32 = 114;
pub const CMD_ACCEL_CALIBRATE: u32 = 115;
pub const CMD_FOLLOW_ACCEL: u32 = 116;
pub const CMD_FOLLOW_CAMERA: u32 = 117;
pub const CMD_SIGNIN_SETTINGS: u32 = 118;
pub const CMD_FOLD_ON_SLEEP: u32 = 119;
pub const CMD_DONATE: u32 = 120;
pub const CMD_GITHUB: u32 = 121;
pub const CMD_OPEN_SETTINGS: u32 = 130;
pub const CMD_RELOAD_SETTINGS: u32 = 131;
pub const CMD_ABOUT: u32 = 140;
pub const CMD_AFTER_NONE: u32 = 150;
pub const CMD_AFTER_LOCK: u32 = 151;
pub const CMD_AFTER_SLEEP: u32 = 152;
pub const CMD_AFTER_DISPLAY_OFF: u32 = 153;
pub const CMD_IDLE_OFF: u32 = 160;
pub const CMD_IDLE_1: u32 = 161;
pub const CMD_IDLE_5: u32 = 162;
pub const CMD_IDLE_10: u32 = 163;
pub const CMD_IDLE_15: u32 = 164;
pub const CMD_HANDLE_LID: u32 = 170;
pub const CMD_SKIP_SIGNIN: u32 = 171;
pub const CMD_CAMERA_CALIBRATE: u32 = 172;
/// The lid fold zone entries are `CMD_FLAT_BASE + i` for the `i`-th of `FLAT_CHOICE_COUNT`.
pub const CMD_FLAT_BASE: u32 = 180;
pub const CMD_QUIT: u32 = 199;

/// Number of lid fold zone choices.
pub const FLAT_CHOICE_COUNT: u32 = 6;

/// Degrees before shut of the `i`-th lid fold zone choice: 20, 30, 40, 50, 60, 75.
pub open spec fn flat_choice_spec(i: u32) -> u32 {
    if i == 0 {
        20
    } else if i == 1 {
        30
    } else if i == 2 {
        40
    } else if i == 3 {
        50
    } else if i == 4 {
        60
    } else {
        75
    }
}

pub fn flat_choice(i: u32) -> (deg: u32)
    requires
        i < FLAT_CHOICE_COUNT,
    ensures
        deg == flat_choice_spec(i),
{
    if i == 0 {
        20
    } else if i == 1 {
        30
    } else if i == 2 {
        40
    } else if i == 3 {
        50
    } else if i == 4 {
        60
    } else {
        75
    }
}

#[derive(Clone, Copy, Debug, PartialEq, Eq, Structural)]
pub enum StyleChoice {
    Silk,
    Shade,
    Frost,
    Custom,
}

/// What a tray command asks for.
#[derive(Clone, Copy, Debug, PartialEq, Eq, Structural)]
pub enum MenuCommand {
    Settings,
    FoldNow,
    Style(StyleChoice),
    ToggleFollowHinge,
    ToggleFollowAccel,
    CalibrateAccel,
    ToggleFollowCamera,
    ToggleUnfoldOnLid,
    ToggleUnfoldOnWake,
    ToggleFoldOnSleep,
    SigninSettings,
    CalibrateCamera,
    /// Set the webcam fold zone to this many degrees before shut.
    FlatZone(u32),
    ToggleHandleLid,
    ToggleSkipSignin,
    AfterFold(AfterFold),
    IdleMinutes(u32),
    ToggleStartup,
    Donate,
    Github,
    OpenSettingsFile,
    ReloadSettings,
    About,
    Quit,
    /// Not a command of this menu.
    Ignore,
}

pub open spec fn menu_command_spec(cmd: u32) -> MenuCommand {
    if cmd == CMD_SETTINGS {
        MenuCommand::Settings
    } else if cmd == CMD_FOLD {
        MenuCommand::FoldNow
    } else if cmd == CMD_STYLE_SILK {
        MenuCommand::Style(StyleChoice::Silk)
    } else if cmd == CMD_STYLE_SHADE {
        MenuCommand::Style(StyleChoice::Shade)
    } else if cmd == CMD_STYLE_FROST {
        MenuCommand::Style(StyleChoice::Frost)
    } else if cmd == CMD_STYLE_CUSTOM {
        MenuCommand::Style(StyleChoice::Custom)
    } else if cmd == CMD_FOLLOW_HINGE {
        MenuCommand::ToggleFollowHinge
    } else if cmd == CMD_FOLLOW_ACCEL {
        MenuCommand::ToggleFollowAccel
    } else if cmd == CMD_ACCEL_CALIBRATE {
        MenuCommand::CalibrateAccel
    } else if cmd == CMD_FOLLOW_CAMERA {
        MenuCommand::ToggleFollowCamera
    } else if cmd == CMD_UNFOLD_ON_LID {
        MenuCommand::ToggleUnfoldOnLid
    } else if cmd == CMD_UNFOLD_ON_WAKE {
        MenuCommand::ToggleUnfoldOnWake
    } else if cmd == CMD_FOLD_ON_SLEEP {
        MenuCommand::ToggleFoldOnSleep
    } else if cmd == CMD_SIGNIN_SETTINGS {
        MenuCommand::SigninSettings
    } else if cmd == CMD_CAMERA_CALIBRATE {
        MenuCommand::CalibrateCamera
    } else if CMD_FLAT_BASE <= cmd < CMD_FLAT_BASE + FLAT_CHOICE_COUNT {
        MenuCommand::FlatZone(flat_choice_spec((cmd - CMD_FLAT_BASE) as u32))
    } else if cmd == CMD_HANDLE_LID {
        MenuCommand::ToggleHandleLid
    } else if cmd == CMD_SKIP_SIGNIN {
        MenuCommand::ToggleSkipSignin
    } else if cmd == CMD_AFTER_NONE {
        MenuCommand::AfterFold(AfterFold::Stay)
    } else if cmd == CMD_AFTER_LOCK {
        MenuCommand::AfterFold(AfterFold::Lock)
    } else if cmd == CMD_AFTER_SLEEP {
        MenuCommand::AfterFold(AfterFold::Sleep)
    } else if cmd == CMD_AFTER_DISPLAY_OFF {
        MenuCommand::AfterFold(AfterFold::DisplayOff)
    } else if cmd == CMD_IDLE_OFF {
        MenuCommand::IdleMinutes(0)
    } else if cmd == CMD_IDLE_1 {
        MenuCommand::IdleMinutes(1)
    } else if cmd == CMD_IDLE_5 {
        MenuCommand::IdleMinutes(5)
    } else if cmd == CMD_IDLE_10 {
        MenuCommand::IdleMinutes(10)
    } else if cmd == CMD_IDLE_15 {
        MenuCommand::IdleMinutes(15)
    } else if cmd == CMD_STARTUP {
        MenuCommand::ToggleStartup
    } else if cmd == CMD_DONATE {
        MenuCommand::Donate
    } else if cmd == CMD_GITHUB {
        MenuCommand::Github
    } else if cmd == CMD_OPEN_SETTINGS {
        MenuCommand::OpenSettingsFile
    } else if cmd == CMD_RELOAD_SETTINGS {
        MenuCommand::ReloadSettings
    } else if cmd == CMD_ABOUT {
        MenuCommand::About
    } else if cmd == CMD_QUIT {
        MenuCommand::Quit
    } else {
        MenuCommand::Ignore
    }
}

/// The command a tray menu identifier stands for.
pub fn menu_command(cmd: u32) -> (c: MenuCommand)
    ensures
        c == menu_command_spec(cmd),
{
    if cmd == CMD_SETTINGS {
        MenuCommand::Settings
    } else if cmd == CMD_FOLD {
        MenuCommand::FoldNow
    } else if cmd == CMD_STYLE_SILK {
        MenuCommand::Style(StyleChoice::Silk)
    } else if cmd == CMD_STYLE_SHADE {
        MenuCommand::Style(StyleChoice::Shade)
    } else if cmd == CMD_STYLE_FROST {
        MenuCommand::Style(StyleChoice::Frost)
    } else if cmd == CMD_STYLE_CUSTOM {
        MenuCommand::Style(StyleChoice::Custom)
    } else if cmd == CMD_FOLLOW_HINGE {
        MenuCommand::ToggleFollowHinge
    } else if cmd == CMD_FOLLOW_ACCEL {
        MenuCommand::ToggleFollowAccel
    } else if cmd == CMD_ACCEL_CALIBRATE {
        MenuCommand::CalibrateAccel
    } else if cmd == CMD_FOLLOW_CAMERA {
        MenuCommand::ToggleFollowCamera
    } else if cmd == CMD_UNFOLD_ON_LID {
        MenuCommand::ToggleUnfoldOnLid
    } else if cmd == CMD_UNFOLD_ON_WAKE {
        MenuCommand::ToggleUnfoldOnWake
    } else if cmd == CMD_FOLD_ON_SLEEP {
        MenuCommand::ToggleFoldOnSleep
    } else if cmd == CMD_SIGNIN_SETTINGS {
        MenuCommand::SigninSettings
    } else if cmd == CMD_CAMERA_CALIBRATE {
        MenuCommand::CalibrateCamera
    } else if CMD_FLAT_BASE <= cmd && cmd < CMD_FLAT_BASE + FLAT_CHOICE_COUNT {
        MenuCommand::FlatZone(flat_choice(cmd - CMD_FLAT_BASE))
    } else if cmd == CMD_HANDLE_LID {
        MenuCommand::ToggleHandleLid
    } else if cmd == CMD_SKIP_SIGNIN {
        MenuCommand::ToggleSkipSignin
    } else if cmd == CMD_AFTER_NONE {
        MenuCommand::AfterFold(AfterFold::Stay)
    } else if cmd == CMD_AFTER_LOCK {
        MenuCommand::AfterFold(AfterFold::Lock)
    } else if cmd == CMD_AFTER_SLEEP {
        MenuCommand::AfterFold(AfterFold::Sleep)
    } else if cmd == CMD_AFTER_DISPLAY_OFF {
        MenuCommand::AfterFold(AfterFold::DisplayOff)
    } else if cmd == CMD_IDLE_OFF {
        MenuCommand::IdleMinutes(0)
    } else if cmd == CMD_IDLE_1 {
        MenuCommand::IdleMinutes(1)
    } else if cmd == CMD_IDLE_5 {
        MenuCommand::IdleMinutes(5)
    } else if cmd == CMD_IDLE_10 {
        MenuCommand::IdleMinutes(10)
    } else if cmd == CMD_IDLE_15 {
        MenuCommand::IdleMinutes(15)
    } else if cmd == CMD_STARTUP {
        MenuCommand::ToggleStartup
    } else if cmd == CMD_DONATE {
        MenuCommand::Donate
    } else if cmd == CMD_GITHUB {
        MenuCommand::Github
    } else if cmd == CMD_OPEN_SETTINGS {
        MenuCommand::OpenSettingsFile
    } else if cmd == CMD_RELOAD_SETTINGS {
        MenuCommand::ReloadSettings
    } else if cmd == CMD_ABOUT {
        MenuCommand::About
    } else if cmd == CMD_QUIT {
        MenuCommand::Quit
    } else {
        MenuCommand::Ignore
    }
}

/// The `style` setting each style entry selects.
pub open spec fn style_name_spec(c: StyleChoice) -> Seq<char> {
    match c {
        StyleChoice::Silk => "silk"@,
        StyleChoice::Shade => "shade"@,
        StyleChoice::Frost => "frost"@,
        StyleChoice::Custom => "custom"@,
    }
}

pub fn style_name(c: StyleChoice) -> (s: String)
    ensures
        s@ == style_name_spec(c),
{
    match c {
        StyleChoice::Silk => String::from_str("silk"),
        StyleChoice::Shade => String::from_str("shade"),
        StyleChoice::Frost => String::from_str("frost"),
        StyleChoice::Custom => String::from_str("custom"),
    }
}

/// The `after_fold` setting each follow-up is stored as.
pub open spec fn after_fold_name_spec(a: AfterFold) -> Seq<char> {
    match a {
        AfterFold::Stay => "none"@,
        AfterFold::Lock => "lock"@,
        AfterFold::Sleep => "sleep"@,
        AfterFold::DisplayOff => "display_off"@,
    }
}

pub fn after_fold_name(a: AfterFold) -> (s: String)
    ensures
        s@ == after_fold_name_spec(a),
{
    match a {
        AfterFold::Stay => String::from_str("none"),
        AfterFold::Lock => String::from_str("lock"),
        AfterFold::Sleep => String::from_str("sleep"),
        AfterFold::DisplayOff => String::from_str("display_off"),
    }
}

/// The follow-up a tray entry stores reads back as that follow-up, and passes validation.
pub proof fn after_fold_name_reads_back(a: AfterFold)
    ensures
        after_fold_spec(after_fold_name_spec(a)) == a,
        is_after_fold(after_fold_name_spec(a)),
{
    reveal_strlit("none");
    reveal_strlit("lock");
    reveal_strlit("sleep");
    reveal_strlit("display_off");
    assert("none"@ != "lock"@) by {
        assert("none"@[0] != "lock"@[0]);
    }
    assert("none"@ != "sleep"@ && "lock"@ != "sleep"@) by {
        assert("none"@.len() != "sleep"@.len() && "lock"@.len() != "sleep"@.len());
    }
    assert("none"@ != "display_off"@ && "lock"@ != "display_off"@ && "sleep"@ != "display_off"@) by {
        assert("display_off"@.len() == 11);
    }
}

/// The style a tray entry stores passes validation.
pub proof fn style_name_is_valid(c: StyleChoice)
    ensures
        is_style(style_name_spec(c)),
{
}

// ------------------------------------------------------------------ the tray menu

/// Snapshot of what the tray menu shows.
#[derive(Clone, Debug)]
pub struct MenuState {
    pub style: String,
    pub hotkey: String,
    pub follow_hinge: bool,
    pub hinge_available: bool,
    pub unfold_on_lid_open: bool,
    pub unfold_on_wake: bool,
    pub fold_on_sleep: bool,
    pub handle_lid: bool,
    pub lid_do_nothing: bool,
    pub skip_signin: bool,
    pub after_fold: String,
    pub idle_min: u32,
    pub accel_available: bool,
    pub follow_accel: bool,
    pub accel_calibrated: bool,
    pub camera_available: bool,
    pub follow_camera: bool,
    pub camera_hotkey: String,
    pub flat_deg: u32,
    pub run_at_startup: bool,
}

impl Default for MenuState {
    fn default() -> (m: MenuState)
        ensures
            m.style@ == Seq::<char>::empty() && m.hotkey@ == Seq::<char>::empty(),
            m.after_fold@ == Seq::<char>::empty() && m.camera_hotkey@ == Seq::<char>::empty(),
            !m.follow_hinge && !m.hinge_available && !m.unfold_on_lid_open && !m.unfold_on_wake,
            !m.fold_on_sleep && !m.handle_lid && !m.lid_do_nothing && !m.skip_signin,
            !m.accel_available && !m.follow_accel && !m.accel_calibrated,
            !m.camera_available && !m.follow_camera && !m.run_at_startup,
            m.idle_min == 0 && m.flat_deg == 0,
    {
        MenuState {
            style: String::new(),
            hotkey: String::new(),
            follow_hinge: false,
            hinge_available: false,
            unfold_on_lid_open: false,
            unfold_on_wake: false,
            fold_on_sleep: false,
            handle_lid: false,
            lid_do_nothing: false,
            skip_signin: false,
            after_fold: String::new(),
            idle_min: 0,
            accel_available: false,
            follow_accel: false,
            accel_calibrated: false,
            camera_available: false,
            follow_camera: false,
            camera_hotkey: String::new(),
            flat_deg: 0,
            run_at_startup: false,
        }
    }
}

/// One line of the tray menu.
#[derive(Clone, Debug)]
pub enum MenuLine {
    /// A command; `checked` shows a check mark, an item that is not `enabled` is greyed out.
    Item { id: u32, label: String, checked: bool, enabled: bool },
    Separator,
    /// A submenu with this title begins; its lines follow until `End`.
    Submenu(String),
    End,
}

/// A menu line as plain values: its kind (0 item, 1 separator, 2 submenu, 3 end), command,
/// text, check mark and whether it is enabled.
pub open spec fn line_view(l: MenuLine) -> (u8, u32, Seq<char>, bool, bool) {
    match l {
        MenuLine::Item { id, label, checked, enabled } => (0, id, label@, checked, enabled),
        MenuLine::Separator => (1, 0, Seq::empty(), false, false),
        MenuLine::Submenu(title) => (2, 0, title@, false, false),
        MenuLine::End => (3, 0, Seq::empty(), false, false),
    }
}

pub open spec fn item_line(id: u32, label: Seq<char>, checked: bool, enabled: bool) -> (u8, u32, Seq<char>, bool, bool) {
    (0, id, label, checked, enabled)
}

pub open spec fn separator_line() -> (u8, u32, Seq<char>, bool, bool) {
    (1, 0, Seq::empty(), false, false)
}

pub open spec fn submenu_line(title: Seq<char>) -> (u8, u32, Seq<char>, bool, bool) {
    (2, 0, title, false, false)
}

pub open spec fn end_line() -> (u8, u32, Seq<char>, bool, bool) {
    (3, 0, Seq::empty(), false, false)
}

/// The top of the menu: settings, fold, and the style submenu.
pub open spec fn menu_head(st: MenuState) -> Seq<(u8, u32, Seq<char>, bool, bool)> {
    seq![
        item_line(CMD_SETTINGS, "Settings..."@, false, true),
        item_line(CMD_FOLD, "Fold now\t"@ + st.hotkey@, false, true),
        separator_line(),
        submenu_line("Style"@),
        item_line(CMD_STYLE_SILK, "Silk"@, st.style@ == "silk"@, true),
        item_line(CMD_STYLE_SHADE, "Shade"@, st.style@ == "shade"@, true),
        item_line(CMD_STYLE_FROST, "Frost"@, st.style@ == "frost"@, true),
        item_line(CMD_STYLE_CUSTOM, "Custom (from settings file)"@, st.style@ == "custom"@, true),
        end_line(),
        separator_line(),
    ]
}

/// The label of fold-zone choice `i`.
pub open spec fn zone_label(i: u32) -> Seq<char> {
    if i == 0 {
        "Last 20\u{b0} before shut"@
    } else if i == 1 {
        "Last 30\u{b0} before shut"@
    } else if i == 2 {
        "Last 40\u{b0} before shut"@
    } else if i == 3 {
        "Last 50\u{b0} before shut"@
    } else if i == 4 {
        "Last 60\u{b0} before shut"@
    } else {
        "Whole closing motion"@
    }
}

/// The lid-tracking part: the three sensors, the webcam's fold zone and calibration.
pub open spec fn menu_sensors(st: MenuState) -> Seq<(u8, u32, Seq<char>, bool, bool)> {
    let zone = |i: u32|
        item_line((CMD_FLAT_BASE + i) as u32, zone_label(i), st.flat_deg == flat_choice_spec(i), st.camera_available);
    seq![
        item_line(
            CMD_FOLLOW_HINGE,
            if st.hinge_available {
                "Follow the lid (hinge sensor)"@
            } else {
                "Follow the lid (no hinge sensor found)"@
            },
            st.follow_hinge && st.hinge_available,
            st.hinge_available,
        ),
        item_line(
            CMD_FOLLOW_ACCEL,
            if st.accel_available {
                "Follow the lid (accelerometer)"@
            } else {
                "Follow the lid (no accelerometer found)"@
            },
            st.follow_accel && st.accel_available && st.accel_calibrated,
            st.accel_available && st.accel_calibrated,
        ),
        item_line(CMD_ACCEL_CALIBRATE, "Calibrate lid tracking (lid at your normal angle)"@, false, st.accel_available),
        item_line(
            CMD_FOLLOW_CAMERA,
            if st.camera_available {
                "Follow the lid (webcam motion, camera light stays on)\t"@ + st.camera_hotkey@
            } else {
                "Follow the lid (no webcam found)"@
            },
            st.follow_camera && st.camera_available,
            st.camera_available,
        ),
        submenu_line("Lid fold zone (webcam)"@),
        zone(0),
        zone(1),
        zone(2),
        zone(3),
        zone(4),
        zone(5),
        end_line(),
        item_line(CMD_CAMERA_CALIBRATE, "Calibrate lid tracking (webcam)..."@, false, st.camera_available),
        separator_line(),
    ]
}

/// Sleep, wake and idle behaviour, and the Windows integration.
pub open spec fn menu_behaviour(st: MenuState) -> Seq<(u8, u32, Seq<char>, bool, bool)> {
    seq![
        item_line(CMD_UNFOLD_ON_LID, "Unfold when the lid opens"@, st.unfold_on_lid_open, true),
        item_line(CMD_FOLD_ON_SLEEP, "Fold when the lid closes or the PC sleeps"@, st.fold_on_sleep, true),
        item_line(CMD_UNFOLD_ON_WAKE, "Unfold on wake / unlock"@, st.unfold_on_wake, true),
        submenu_line("After the hotkey fold"@),
        item_line(CMD_AFTER_NONE, "Stay folded until I press a key"@, st.after_fold@ == "none"@, true),
        item_line(CMD_AFTER_LOCK, "Lock Windows"@, st.after_fold@ == "lock"@, true),
        item_line(CMD_AFTER_SLEEP, "Sleep"@, st.after_fold@ == "sleep"@, true),
        item_line(CMD_AFTER_DISPLAY_OFF, "Turn the screen off"@, st.after_fold@ == "display_off"@, true),
        end_line(),
        submenu_line("Fold when idle"@),
        item_line(CMD_IDLE_OFF, "Off"@, st.idle_min == 0, true),
        item_line(CMD_IDLE_1, "After 1 minute"@, st.idle_min == 1, true),
        item_line(CMD_IDLE_5, "After 5 minutes"@, st.idle_min == 5, true),
        item_line(CMD_IDLE_10, "After 10 minutes"@, st.idle_min == 10, true),
        item_line(CMD_IDLE_15, "After 15 minutes"@, st.idle_min == 15, true),
        end_line(),
        submenu_line("Windows integration"@),
        item_line(
            CMD_HANDLE_LID,
            "WinBend handles the lid: fold, then sleep  (admin prompt)"@,
            st.handle_lid && st.lid_do_nothing,
            true,
        ),
        item_line(CMD_SKIP_SIGNIN, "Skip the sign-in screen after sleep  (admin prompt)"@, st.skip_signin, true),
        item_line(CMD_SIGNIN_SETTINGS, "Open Windows sign-in settings..."@, false, true),
        end_line(),
        item_line(CMD_STARTUP, "Run at startup"@, st.run_at_startup, true),
    ]
}

/// The bottom of the menu: links, the settings file, about, quit.
pub open spec fn menu_tail() -> Seq<(u8, u32, Seq<char>, bool, bool)> {
    seq![
        separator_line(),
        item_line(CMD_DONATE, "Donate  \u{2665}"@, false, true),
        item_line(CMD_GITHUB, "WinBend on GitHub"@, false, true),
        separator_line(),
        item_line(CMD_OPEN_SETTINGS, "Open settings file"@, false, true),
        item_line(CMD_RELOAD_SETTINGS, "Reload settings"@, false, true),
        item_line(CMD_ABOUT, "About WinBend"@, false, true),
        separator_line(),
        item_line(CMD_QUIT, "Quit"@, false, true),
    ]
}

/// The whole tray menu for `st`, line by line.
pub open spec fn tray_menu_spec(st: MenuState) -> Seq<(u8, u32, Seq<char>, bool, bool)> {
    menu_head(st) + menu_sensors(st) + menu_behaviour(st) + menu_tail()
}

/// The tray's "After the hotkey fold" entries ask for what they show: with the follow-up `a`
/// stored, the entry the menu checks asks for `a`, and every other entry of that group asks
/// for another follow-up.
pub proof fn checked_follow_up_entry_asks_for_it(st: MenuState, a: AfterFold, i: int)
    requires
        st.after_fold@ == after_fold_name_spec(a),
        0 <= i < tray_menu_spec(st).len(),
        tray_menu_spec(st)[i].0 == 0,
        CMD_AFTER_NONE <= tray_menu_spec(st)[i].1 <= CMD_AFTER_DISPLAY_OFF,
    ensures
        tray_menu_spec(st)[i].3 <==> menu_command_spec(tray_menu_spec(st)[i].1) == MenuCommand::AfterFold(a),
        menu_command_spec(tray_menu_spec(st)[i].1) is AfterFold,
{
    let m = tray_menu_spec(st);
    let h = menu_head(st);
    let se = menu_sensors(st);
    let b = menu_behaviour(st);
    let t = menu_tail();
    assert(h.len() == 10 && se.len() == 14 && b.len() == 22 && t.len() == 9);
    after_fold_name_reads_back(a);
    reveal_strlit("none");
    reveal_strlit("lock");
    reveal_strlit("sleep");
    reveal_strlit("display_off");
    assert("none"@ != "lock"@) by {
        assert("none"@[0] != "lock"@[0]);
    }
    assert("none"@ != "sleep"@ && "lock"@ != "sleep"@) by {
        assert("none"@.len() != "sleep"@.len() && "lock"@.len() != "sleep"@.len());
    }
    assert("none"@ != "display_off"@ && "lock"@ != "display_off"@ && "sleep"@ != "display_off"@) by {
        assert("display_off"@.len() == 11);
    }
    if i < 10 {
        assert(m[i] == h[i]);
    } else if i < 24 {
        assert(m[i] == se[i - 10]);
    } else if i < 46 {
        assert(m[i] == b[i - 24]);
    } else {
        assert(m[i] == t[i - 46]);
    }
}

fn item(id: u32, label: &str, checked: bool, enabled: bool) -> (l: MenuLine)
    ensures
        line_view(l) == item_line(id, label@, checked, enabled),
{
    MenuLine::Item { id, label: String::from_str(label), checked, enabled }
}

fn submenu(title: &str) -> (l: MenuLine)
    ensures
        line_view(l) == submenu_line(title@),
{
    MenuLine::Submenu(String::from_str(title))
}

/// The lines `v` as plain values.
pub open spec fn views(v: Seq<MenuLine>) -> Seq<(u8, u32, Seq<char>, bool, bool)> {
    v.map_values(|l: MenuLine| line_view(l))
}

fn is_text(s: &String, lit: &str) -> (b: bool)
    ensures
        b == (s@ == lit@),
{
    let cs = chars_of(s.as_str());
    is_lit(cs.as_slice(), lit)
}

fn build_head(st: &MenuState, v: &mut Vec<MenuLine>)
    ensures
        views(final(v)@) == views(old(v)@) + menu_head(*st),
{
    let ghost v0 = v@;
    v.push(item(CMD_SETTINGS, "Settings...", false, true));
    let fold = String::from_str("Fold now\t").concat(st.hotkey.as_str());
    v.push(MenuLine::Item { id: CMD_FOLD, label: fold, checked: false, enabled: true });
    v.push(MenuLine::Separator);
    v.push(submenu("Style"));
    v.push(item(CMD_STYLE_SILK, "Silk", is_text(&st.style, "silk"), true));
    v.push(item(CMD_STYLE_SHADE, "Shade", is_text(&st.style, "shade"), true));
    v.push(item(CMD_STYLE_FROST, "Frost", is_text(&st.style, "frost"), true));
    v.push(item(CMD_STYLE_CUSTOM, "Custom (from settings file)", is_text(&st.style, "custom"), true));
    v.push(MenuLine::End);
    v.push(MenuLine::Separator);
    assert(views(v@) =~= views(v0) + menu_head(*st));
}

fn build_sensors(st: &MenuState, v: &mut Vec<MenuLine>)
    ensures
        views(final(v)@) == views(old(v)@) + menu_sensors(*st),
{
    let ghost v0 = v@;
    let hinge = if st.hinge_available {
        "Follow the lid (hinge sensor)"
    } else {
        "Follow the lid (no hinge sensor found)"
    };
    v.push(item(CMD_FOLLOW_HINGE, hinge, st.follow_hinge && st.hinge_available, st.hinge_available));
    let accel = if st.accel_available {
        "Follow the lid (accelerometer)"
    } else {
        "Follow the lid (no accelerometer found)"
    };
    v.push(
        item(
            CMD_FOLLOW_ACCEL,
            accel,
            st.follow_accel && st.accel_available && st.accel_calibrated,
            st.accel_available && st.accel_calibrated,
        ),
    );
    v.push(item(CMD_ACCEL_CALIBRATE, "Calibrate lid tracking (lid at your normal angle)", false, st.accel_available));
    let camera = if st.camera_available {
        String::from_str("Follow the lid (webcam motion, camera light stays on)\t").concat(
            st.camera_hotkey.as_str(),
        )
    } else {
        String::from_str("Follow the lid (no webcam found)")
    };
    v.push(
        MenuLine::Item {
            id: CMD_FOLLOW_CAMERA,
            label: camera,
            checked: st.follow_camera && st.camera_available,
            enabled: st.camera_available,
        },
    );
    v.push(submenu("Lid fold zone (webcam)"));
    let on = st.camera_available;
    v.push(item(CMD_FLAT_BASE, "Last 20\u{b0} before shut", st.flat_deg == flat_choice(0), on));
    v.push(item(CMD_FLAT_BASE + 1, "Last 30\u{b0} before shut", st.flat_deg == flat_choice(1), on));
    v.push(item(CMD_FLAT_BASE + 2, "Last 40\u{b0} before shut", st.flat_deg == flat_choice(2), on));
    v.push(item(CMD_FLAT_BASE + 3, "Last 50\u{b0} before shut", st.flat_deg == flat_choice(3), on));
    v.push(item(CMD_FLAT_BASE + 4, "Last 60\u{b0} before shut", st.flat_deg == flat_choice(4), on));
    v.push(item(CMD_FLAT_BASE + 5, "Whole closing motion", st.flat_deg == flat_choice(5), on));
    v.push(MenuLine::End);
    v.push(item(CMD_CAMERA_CALIBRATE, "Calibrate lid tracking (webcam)...", false, st.camera_available));
    v.push(MenuLine::Separator);
    assert(views(v@) =~= views(v0) + menu_sensors(*st));
}

fn build_behaviour(st: &MenuState, v: &mut Vec<MenuLine>)
    ensures
        views(final(v)@) == views(old(v)@) + menu_behaviour(*st),
{
    let ghost v0 = v@;
    v.push(item(CMD_UNFOLD_ON_LID, "Unfold when the lid opens", st.unfold_on_lid_open, true));
    v.push(item(CMD_FOLD_ON_SLEEP, "Fold when the lid closes or the PC sleeps", st.fold_on_sleep, true));
    v.push(item(CMD_UNFOLD_ON_WAKE, "Unfold on wake / unlock", st.unfold_on_wake, true));
    v.push(submenu("After the hotkey fold"));
    v.push(item(CMD_AFTER_NONE, "Stay folded until I press a key", is_text(&st.after_fold, "none"), true));
    v.push(item(CMD_AFTER_LOCK, "Lock Windows", is_text(&st.after_fold, "lock"), true));
    v.push(item(CMD_AFTER_SLEEP, "Sleep", is_text(&st.after_fold, "sleep"), true));
    v.push(item(CMD_AFTER_DISPLAY_OFF, "Turn the screen off", is_text(&st.after_fold, "display_off"), true));
    v.push(MenuLine::End);
    v.push(submenu("Fold when idle"));
    v.push(item(CMD_IDLE_OFF, "Off", st.idle_min == 0, true));
    v.push(item(CMD_IDLE_1, "After 1 minute", st.idle_min == 1, true));
    v.push(item(CMD_IDLE_5, "After 5 minutes", st.idle_min == 5, true));
    v.push(item(CMD_IDLE_10, "After 10 minutes", st.idle_min == 10, true));
    v.push(item(CMD_IDLE_15, "After 15 minutes", st.idle_min == 15, true));
    v.push(MenuLine::End);
    v.push(submenu("Windows integration"));
    v.push(
        item(
            CMD_HANDLE_LID,
            "WinBend handles the lid: fold, then sleep  (admin prompt)",
            st.handle_lid && st.lid_do_nothing,
            true,
        ),
    );
    v.push(item(CMD_SKIP_SIGNIN, "Skip the sign-in screen after sleep  (admin prompt)", st.skip_signin, true));
    v.push(item(CMD_SIGNIN_SETTINGS, "Open Windows sign-in settings...", false, true));
    v.push(MenuLine::End);
    v.push(item(CMD_STARTUP, "Run at startup", st.run_at_startup, true));
    assert(views(v@) =~= views(v0) + menu_behaviour(*st));
}

fn build_tail(v: &mut Vec<MenuLine>)
    ensures
        views(final(v)@) == views(old(v)@) + menu_tail(),
{
    let ghost v0 = v@;
    v.push(MenuLine::Separator);
    v.push(item(CMD_DONATE, "Donate  \u{2665}", false, true));
    v.push(item(CMD_GITHUB, "WinBend on GitHub", false, true));
    v.push(MenuLine::Separator);
    v.push(item(CMD_OPEN_SETTINGS, "Open settings file", false, true));
    v.push(item(CMD_RELOAD_SETTINGS, "Reload settings", false, true));
    v.push(item(CMD_ABOUT, "About WinBend", false, true));
    v.push(MenuLine::Separator);
    v.push(item(CMD_QUIT, "Quit", false, true));
    assert(views(v@) =~= views(v0) + menu_tail());
}

/// The tray menu for `st`, line by line; the first item (Settings) is the default one.
pub fn tray_menu(st: &MenuState) -> (v: Vec<MenuLine>)
    ensures
        views(v@) == tray_menu_spec(*st),
{
    let mut v: Vec<MenuLine> = Vec::new();
    assert(views(v@) =~= Seq::empty());
    build_head(st, &mut v);
    build_sensors(st, &mut v);
    build_behaviour(st, &mut v);
    build_tail(&mut v);
    assert(views(v@) =~= tray_menu_spec(*st));
    v
}

} // verus!
