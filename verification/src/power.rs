//! The two Windows power settings WinBend manages: the lid-close action (0 = do nothing,
//! 1 = sleep, 2 = hibernate, 3 = shut down) and whether waking requires signing in (1) or not
//! (0). Writes happen in an elevated helper started as `winbend --set-power lid|lock VALUE`.
use vstd::prelude::*;

use crate::text::{chars_of, is_lit, parse_u32, parse_u32_spec};

verus! {

#[derive(Clone, Copy, Debug, PartialEq, Eq, Structural)]
pub enum Setting {
    LidAction,
    LockOnWake,
}

/// The command-line word for each setting.
pub open spec fn arg_spec(s: Setting) -> Seq<char> {
    match s {
        Setting::LidAction => "lid"@,
        Setting::LockOnWake => "lock"@,
    }
}

pub open spec fn from_arg_spec(a: Seq<char>) -> Option<Setting> {
    if a == "lid"@ {
        Some(Setting::LidAction)
    } else if a == "lock"@ {
        Some(Setting::LockOnWake)
    } else {
        None
    }
}

impl Setting {
    /// The setting a command-line word names.
    pub fn from_arg(s: &str) -> (r: Option<Setting>)
        ensures
            r == from_arg_spec(s@),
    {
        let cs = chars_of(s);
        if is_lit(cs.as_slice(), "lid") {
            Some(Setting::LidAction)
        } else if is_lit(cs.as_slice(), "lock") {
            Some(Setting::LockOnWake)
        } else {
            None
        }
    }

    /// The command-line word of the setting.
    pub fn arg(self) -> (r: &'static str)
        ensures
            r@ == arg_spec(self),
    {
        match self {
            Setting::LidAction => "lid",
            Setting::LockOnWake => "lock",
        }
    }
}

/// The word of a setting names that setting again.
pub proof fn from_arg_inverts_arg(s: Setting)
    ensures
        from_arg_spec(arg_spec(s)) == Some(s),
{
    reveal_strlit("lid");
    reveal_strlit("lock");
    assert("lid"@ != "lock"@) by {
        assert("lid"@.len() != "lock"@.len());
    }
}

/// The request the elevated helper acts on: a known setting and a value of at most 3.
pub open spec fn set_power_spec(setting: Seq<char>, value: Seq<char>) -> Option<(Setting, u32)> {
    match (from_arg_spec(setting), parse_u32_spec(value)) {
        (Some(s), Some(v)) => if v <= 3 {
            Some((s, v))
        } else {
            None
        },
        _ => None,
    }
}

/// Reads the `--set-power SETTING VALUE` arguments.
pub fn set_power_request(setting: &str, value: &str) -> (r: Option<(Setting, u32)>)
    ensures
        r == set_power_spec(setting@, value@),
{
    let s = Setting::from_arg(setting);
    let vs = chars_of(value);
    let v = parse_u32(vs.as_slice());
    match (s, v) {
        (Some(s), Some(v)) => {
            if v <= 3 {
                Some((s, v))
            } else {
                None
            }
        },
        _ => None,
    }
}

/// Both the AC and the DC value of a setting, as read back, equal `value`.
pub fn is_set_to(read: Option<(u32, u32)>, value: u32) -> (b: bool)
    ensures
        b == (read == Some((value, value))),
{
    match read {
        Some((ac, dc)) => ac == value && dc == value,
        None => false,
    }
}

} // verus!
