//! Settings rules that do not involve floating point: defaults, the text-valued fields and
//! their validation, the legacy migration, and the background's hex colour.
use vstd::prelude::*;

use crate::hotkey::{hotkey_spec, parse_hotkey};
use crate::text::{chars_of, is_lit, parse_hex, parse_hex_spec, trim, trimmed};

verus! {

/// What happens once a hotkey fold completes.
#[derive(Clone, Copy, Debug, PartialEq, Eq, Structural)]
pub enum AfterFold {
    /// Stay folded until a key is pressed ("none").
    Stay,
    Lock,
    Sleep,
    DisplayOff,
}

/// The follow-up that the `after_fold` setting names; anything unrecognised stays folded.
pub open spec fn after_fold_spec(s: Seq<char>) -> AfterFold {
    if s == "lock"@ {
        AfterFold::Lock
    } else if s == "sleep"@ {
        AfterFold::Sleep
    } else if s == "display_off"@ {
        AfterFold::DisplayOff
    } else {
        AfterFold::Stay
    }
}

pub fn after_fold_from(s: &str) -> (a: AfterFold)
    ensures
        a == after_fold_spec(s@),
{
    let cs = chars_of(s);
    if is_lit(cs.as_slice(), "lock") {
        AfterFold::Lock
    } else if is_lit(cs.as_slice(), "sleep") {
        AfterFold::Sleep
    } else if is_lit(cs.as_slice(), "display_off") {
        AfterFold::DisplayOff
    } else {
        AfterFold::Stay
    }
}

fn owned(s: &str) -> (r: String)
    ensures
        r@ == s@,
{
    String::from_str(s)
}

/// Default style.
pub fn d_style() -> (r: String)
    ensures
        r@ == "silk"@,
{
    owned("silk")
}

/// Default hotkey fold duration in milliseconds.
pub fn d_fold_ms() -> (r: u32)
    ensures
        r == 1100,
{
    1100
}

/// Default fold hotkey.
pub fn d_hotkey() -> (r: String)
    ensures
        r@ == "Ctrl+Alt+B"@,
{
    owned("Ctrl+Alt+B")
}

/// Default hotkey that toggles webcam lid tracking.
pub fn d_camera_hotkey() -> (r: String)
    ensures
        r@ == "Ctrl+Alt+C"@,
{
    owned("Ctrl+Alt+C")
}

/// Default of the switches that are on unless turned off.
pub fn d_true() -> (r: bool)
    ensures
        r,
{
    true
}

/// Default background colour.
pub fn d_bg() -> (r: String)
    ensures
        r@ == "#000000"@,
{
    owned("#000000")
}

/// Default follow-up of a hotkey fold.
pub fn d_after_fold() -> (r: String)
    ensures
        r@ == "none"@,
{
    owned("none")
}

/// The legacy `lock_after_fold` flag becomes `after_fold = "lock"` when no follow-up is set.
pub open spec fn migrated_after_fold_spec(lock_after_fold: bool, after_fold: Seq<char>) -> Seq<char> {
    if lock_after_fold && after_fold == "none"@ {
        "lock"@
    } else {
        after_fold
    }
}

pub fn migrate_after_fold(lock_after_fold: bool, after_fold: String) -> (r: String)
    ensures
        r@ == migrated_after_fold_spec(lock_after_fold, after_fold@),
{
    if lock_after_fold {
        let cs = chars_of(after_fold.as_str());
        if is_lit(cs.as_slice(), "none") {
            return owned("lock");
        }
    }
    after_fold
}

/// Settings that only their own actions may change, never a generic field edit.
pub open spec fn is_dedicated_setting(key: Seq<char>) -> bool {
    key == "lock_after_fold"@ || key == "accel_calibration"@ || key == "first_run_done"@ || key
        == "handle_lid"@
}

pub fn dedicated_setting(key: &str) -> (b: bool)
    ensures
        b == is_dedicated_setting(key@),
{
    let cs = chars_of(key);
    is_lit(cs.as_slice(), "lock_after_fold") || is_lit(cs.as_slice(), "accel_calibration")
        || is_lit(cs.as_slice(), "first_run_done") || is_lit(cs.as_slice(), "handle_lid")
}

/// `s` without its leading `#` characters.
pub open spec fn strip_hashes(s: Seq<char>) -> Seq<char>
    decreases s.len(),
{
    if s.len() > 0 && s[0] == '#' {
        strip_hashes(s.drop_first())
    } else {
        s
    }
}

/// Bytes that `c` takes in UTF-8.
pub open spec fn utf8_width(c: char) -> nat {
    if (c as u32) < 0x80 {
        1
    } else if (c as u32) < 0x800 {
        2
    } else if (c as u32) < 0x10000 {
        3
    } else {
        4
    }
}

/// Bytes that `s` takes in UTF-8.
pub open spec fn utf8_len(s: Seq<char>) -> nat
    decreases s.len(),
{
    if s.len() == 0 {
        0
    } else {
        utf8_len(s.drop_last()) + utf8_width(s.last())
    }
}

/// The colour value of `#rrggbb` (surrounding whitespace and any number of leading `#`
/// allowed): six bytes read as `u32::from_str_radix(.., 16)` reads them.
pub open spec fn hex_color_value(s: Seq<char>) -> Option<u32> {
    let h = strip_hashes(trimmed(s));
    if utf8_len(h) == 6 {
        parse_hex_spec(h)
    } else {
        None
    }
}

/// The red, green and blue bytes of a colour value.
pub open spec fn channels(v: u32) -> (u8, u8, u8) {
    ((v / 0x10000 % 0x100) as u8, (v / 0x100 % 0x100) as u8, (v % 0x100) as u8)
}

/// The red, green and blue bytes of the background colour text, or `None` when it is not a
/// six-digit hex colour.
pub fn parse_hex_rgb(s: &str) -> (r: Option<(u8, u8, u8)>)
    ensures
        r == (match hex_color_value(s@) {
            Some(v) => Some(channels(v)),
            None => None,
        }),
{
    let cs = chars_of(s);
    let t = trim(cs.as_slice());
    let mut a: usize = 0;
    proof {
        assert(t@.subrange(0, t@.len() as int) =~= t@);
    }
    while a < t.len() && t[a] == '#'
        invariant
            a <= t@.len(),
            t@ == trimmed(s@),
            strip_hashes(t@) == strip_hashes(t@.subrange(a as int, t@.len() as int)),
        decreases t@.len() - a,
    {
        proof {
            assert(t@.subrange(a as int, t@.len() as int).drop_first() =~= t@.subrange(
                a + 1,
                t@.len() as int,
            ));
        }
        a = a + 1;
    }
    let h = vstd::slice::slice_subrange(t.as_slice(), a, t.len());
    assert(strip_hashes(h@) == h@);
    assert(strip_hashes(trimmed(s@)) == h@);
    let mut bytes: usize = 0;
    let mut i: usize = 0;
    while i < h.len()
        invariant
            i <= h@.len(),
            bytes == utf8_len(h@.subrange(0, i as int)),
            bytes <= 4 * i,
            h@.len() <= usize::MAX,
            strip_hashes(trimmed(s@)) == h@,
        decreases h@.len() - i,
    {
        let u = h[i] as u32;
        let w: usize = if u < 0x80 {
            1
        } else if u < 0x800 {
            2
        } else if u < 0x10000 {
            3
        } else {
            4
        };
        if bytes > 6 {
            proof {
                lemma_utf8_len_grows(h@, i as int);
            }
            return None;
        }
        bytes = bytes + w;
        proof {
            assert(h@.subrange(0, i + 1).drop_last() =~= h@.subrange(0, i as int));
        }
        i = i + 1;
    }
    assert(h@.subrange(0, h@.len() as int) =~= h@);
    if bytes != 6 {
        return None;
    }
    match parse_hex(h) {
        Some(v) => Some(((v / 0x10000 % 0x100) as u8, (v / 0x100 % 0x100) as u8, (v % 0x100) as u8)),
        None => None,
    }
}

proof fn lemma_utf8_len_grows(s: Seq<char>, i: int)
    requires
        0 <= i <= s.len(),
    ensures
        utf8_len(s) >= utf8_len(s.subrange(0, i)),
    decreases s.len() - i,
{
    if i < s.len() {
        lemma_utf8_len_grows(s, i + 1);
        assert(s.subrange(0, i + 1).drop_last() =~= s.subrange(0, i));
    } else {
        assert(s.subrange(0, i) =~= s);
    }
}

/// Why a settings change was refused.
#[derive(Clone, Copy, Debug, PartialEq, Eq, Structural)]
pub enum ConfigError {
    UnknownStyle,
    UnknownAfterFold,
    BadColor,
    InvalidHotkey,
    HotkeyNeedsModifier,
    InvalidTrackingShortcut,
    TrackingShortcutNeedsModifier,
    SameShortcuts,
}

pub open spec fn error_text(e: ConfigError) -> Seq<char> {
    match e {
        ConfigError::UnknownStyle => "Unknown style."@,
        ConfigError::UnknownAfterFold => "Unknown after-fold action."@,
        ConfigError::BadColor => "Use a six-digit color such as #102030."@,
        ConfigError::InvalidHotkey => "Invalid hotkey."@,
        ConfigError::HotkeyNeedsModifier => "Include Ctrl, Alt, or Win in the hotkey."@,
        ConfigError::InvalidTrackingShortcut => "Invalid tracking shortcut."@,
        ConfigError::TrackingShortcutNeedsModifier => "Include Ctrl, Alt, or Win in the tracking shortcut."@,
        ConfigError::SameShortcuts => "The fold and tracking shortcuts must be different."@,
    }
}

impl ConfigError {
    /// The message shown to the user.
    pub fn message(&self) -> (r: String)
        ensures
            r@ == error_text(*self),
    {
        match self {
            ConfigError::UnknownStyle => owned("Unknown style."),
            ConfigError::UnknownAfterFold => owned("Unknown after-fold action."),
            ConfigError::BadColor => owned("Use a six-digit color such as #102030."),
            ConfigError::InvalidHotkey => owned("Invalid hotkey."),
            ConfigError::HotkeyNeedsModifier => owned("Include Ctrl, Alt, or Win in the hotkey."),
            ConfigError::InvalidTrackingShortcut => owned("Invalid tracking shortcut."),
            ConfigError::TrackingShortcutNeedsModifier => owned(
                "Include Ctrl, Alt, or Win in the tracking shortcut.",
            ),
            ConfigError::SameShortcuts => owned("The fold and tracking shortcuts must be different."),
        }
    }
}

pub open spec fn is_style(s: Seq<char>) -> bool {
    s == "silk"@ || s == "shade"@ || s == "frost"@ || s == "custom"@
}

pub open spec fn is_after_fold(s: Seq<char>) -> bool {
    s == "none"@ || s == "lock"@ || s == "sleep"@ || s == "display_off"@
}

/// A hotkey needs Ctrl, Alt or Win (`MOD_ALT | MOD_CONTROL | MOD_WIN` is 11).
pub open spec fn has_main_modifier(mods: u32) -> bool {
    mods & 11 != 0
}

/// The first rule the text-valued settings break, checked in this order: style, after-fold
/// action, background colour, fold hotkey, tracking shortcut, and the two shortcuts being
/// different.
pub open spec fn text_fields_spec(
    style: Seq<char>,
    after_fold: Seq<char>,
    background: Seq<char>,
    hotkey: Seq<char>,
    camera_hotkey: Seq<char>,
) -> Result<(), ConfigError> {
    if !is_style(style) {
        Err(ConfigError::UnknownStyle)
    } else if !is_after_fold(after_fold) {
        Err(ConfigError::UnknownAfterFold)
    } else if hex_color_value(background) is None {
        Err(ConfigError::BadColor)
    } else if hotkey_spec(hotkey) is None {
        Err(ConfigError::InvalidHotkey)
    } else if !has_main_modifier(hotkey_spec(hotkey).unwrap().0) {
        Err(ConfigError::HotkeyNeedsModifier)
    } else if hotkey_spec(camera_hotkey) is None {
        Err(ConfigError::InvalidTrackingShortcut)
    } else if !has_main_modifier(hotkey_spec(camera_hotkey).unwrap().0) {
        Err(ConfigError::TrackingShortcutNeedsModifier)
    } else if hotkey_spec(hotkey) == hotkey_spec(camera_hotkey) {
        Err(ConfigError::SameShortcuts)
    } else {
        Ok(())
    }
}

/// Checks the text-valued settings (see `text_fields_spec`).
pub fn validate_text_fields(
    style: &str,
    after_fold: &str,
    background: &str,
    hotkey: &str,
    camera_hotkey: &str,
) -> (r: Result<(), ConfigError>)
    ensures
        r == text_fields_spec(style@, after_fold@, background@, hotkey@, camera_hotkey@),
{
    let st = chars_of(style);
    if !(is_lit(st.as_slice(), "silk") || is_lit(st.as_slice(), "shade") || is_lit(
        st.as_slice(),
        "frost",
    ) || is_lit(st.as_slice(), "custom")) {
        return Err(ConfigError::UnknownStyle);
    }
    let af = chars_of(after_fold);
    if !(is_lit(af.as_slice(), "none") || is_lit(af.as_slice(), "lock") || is_lit(
        af.as_slice(),
        "sleep",
    ) || is_lit(af.as_slice(), "display_off")) {
        return Err(ConfigError::UnknownAfterFold);
    }
    if parse_hex_rgb(background).is_none() {
        return Err(ConfigError::BadColor);
    }
    let fold = parse_hotkey(hotkey);
    let (mods, vk) = match fold {
        Some(p) => p,
        None => {
            return Err(ConfigError::InvalidHotkey);
        },
    };
    if mods & 11 == 0 {
        return Err(ConfigError::HotkeyNeedsModifier);
    }
    let cam = parse_hotkey(camera_hotkey);
    let (cam_mods, cam_vk) = match cam {
        Some(p) => p,
        None => {
            return Err(ConfigError::InvalidTrackingShortcut);
        },
    };
    if cam_mods & 11 == 0 {
        return Err(ConfigError::TrackingShortcutNeedsModifier);
    }
    if mods == cam_mods && vk == cam_vk {
        return Err(ConfigError::SameShortcuts);
    }
    Ok(())
}

/// The fold hotkey and the tracking shortcut are refused as the same exactly when both are
/// valid and name the same chord: the same modifier flags and the same key. Two shortcuts on
/// one key with different modifiers are never refused as the same.
pub proof fn same_shortcuts_are_the_same_chord(
    style: Seq<char>,
    after_fold: Seq<char>,
    background: Seq<char>,
    hotkey: Seq<char>,
    camera_hotkey: Seq<char>,
)
    ensures
        text_fields_spec(style, after_fold, background, hotkey, camera_hotkey) == Err::<(), ConfigError>(
            ConfigError::SameShortcuts,
        ) ==> hotkey_spec(hotkey) is Some && hotkey_spec(hotkey) == hotkey_spec(camera_hotkey),
        ({
            match (hotkey_spec(hotkey), hotkey_spec(camera_hotkey)) {
                (Some((m1, v1)), Some((m2, v2))) => m1 != m2 || v1 != v2 ==> text_fields_spec(
                    style,
                    after_fold,
                    background,
                    hotkey,
                    camera_hotkey,
                ) != Err::<(), ConfigError>(ConfigError::SameShortcuts),
                _ => true,
            }
        }),
        ({
            &&& is_style(style)
            &&& is_after_fold(after_fold)
            &&& hex_color_value(background) is Some
            &&& hotkey_spec(hotkey) matches Some((m, v))
            &&& has_main_modifier(m)
            &&& hotkey_spec(camera_hotkey) == hotkey_spec(hotkey)
        }) ==> text_fields_spec(style, after_fold, background, hotkey, camera_hotkey) == Err::<
            (),
            ConfigError,
        >(ConfigError::SameShortcuts),
{
}

/// The hotkey fold duration kept in range: 150..=5000 milliseconds.
pub fn clamp_fold_ms(ms: u32) -> (r: u32)
    ensures
        r == (if ms < 150 {
            150
        } else if ms > 5000 {
            5000
        } else {
            ms
        }),
{
    if ms < 150 {
        150
    } else if ms > 5000 {
        5000
    } else {
        ms
    }
}

/// The idle timeout kept in range: at most a day, in minutes.
pub fn clamp_idle_minutes(min: u32) -> (r: u32)
    ensures
        r == (if min > 1440 {
            1440
        } else {
            min
        }),
{
    if min > 1440 {
        1440
    } else {
        min
    }
}

} // verus!
