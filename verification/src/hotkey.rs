//! Global hotkeys written as text, e.g. "Ctrl+Alt+B", "Ctrl+Shift+F12", "Win+Alt+L".
use vstd::multiset::Multiset;
use vstd::prelude::*;
use vstd::slice::slice_subrange;

use crate::text::{
    chars_of, digits_value, is_digit, is_lit, lower, lower_all, lowercase, parse_u32, parse_u32_spec,
    split_on, trim, trimmed, unsigned_body, upper, lemma_split_nonempty, to_upper,
};

verus! {

/// `MOD_NOREPEAT`, always set.
pub const MOD_NOREPEAT: u32 = 0x4000;

/// A part of the hotkey text as it is compared: trimmed and ASCII-lowercased.
pub open spec fn norm(p: Seq<char>) -> Seq<char> {
    lower_all(trimmed(p))
}

/// The `RegisterHotKey` modifier flag a part names (`MOD_ALT` 1, `MOD_CONTROL` 2,
/// `MOD_SHIFT` 4, `MOD_WIN` 8), or 0 when it names no modifier.
pub open spec fn modifier_bit(k: Seq<char>) -> u32 {
    if k == "ctrl"@ || k == "control"@ {
        2
    } else if k == "alt"@ {
        1
    } else if k == "shift"@ {
        4
    } else if k == "win"@ || k == "super"@ || k == "meta"@ {
        8
    } else {
        0
    }
}

pub open spec fn is_ascii_alnum(c: char) -> bool {
    ('0' <= c && c <= '9') || ('A' <= c && c <= 'Z') || ('a' <= c && c <= 'z')
}

/// The virtual key code a (normalized) part names: a named key, a single ASCII letter or
/// digit, or `f` followed by a decimal number 1..=24.
pub open spec fn key_code(k: Seq<char>) -> Option<u32> {
    if k == "space"@ {
        Some(0x20)
    } else if k == "esc"@ || k == "escape"@ {
        Some(0x1b)
    } else if k == "tab"@ {
        Some(0x09)
    } else if k == "enter"@ || k == "return"@ {
        Some(0x0d)
    } else if k == "backspace"@ {
        Some(0x08)
    } else if k == "pause"@ {
        Some(0x13)
    } else if k == "home"@ {
        Some(0x24)
    } else if k == "end"@ {
        Some(0x23)
    } else if k == "insert"@ {
        Some(0x2d)
    } else if k == "delete"@ {
        Some(0x2e)
    } else if k == "pageup"@ {
        Some(0x21)
    } else if k == "pagedown"@ {
        Some(0x22)
    } else if k == "up"@ {
        Some(0x26)
    } else if k == "down"@ {
        Some(0x28)
    } else if k == "left"@ {
        Some(0x25)
    } else if k == "right"@ {
        Some(0x27)
    } else if k == "`"@ || k == "grave"@ {
        Some(0xc0)
    } else if k == "-"@ || k == "minus"@ {
        Some(0xbd)
    } else if k == "="@ || k == "equals"@ {
        Some(0xbb)
    } else if k.len() == 1 && (k[0] as u32) < 0x80 && is_ascii_alnum(upper(k[0])) {
        Some(upper(k[0]) as u32)
    } else if k.len() > 1 && k[0] == 'f' {
        match f_number(k.drop_first()) {
            Some(n) => Some((0x6f + n) as u32),
            None => None,
        }
    } else {
        None
    }
}

/// The function-key number that `d` writes: `u32::from_str` of `d` (leading zeros allowed),
/// when it lies in 1..=24.
pub open spec fn f_number(d: Seq<char>) -> Option<int> {
    match parse_u32_spec(d) {
        Some(n) => if 1 <= n && n <= 24 {
            Some(n as int)
        } else {
            None
        },
        None => None,
    }
}

/// One part of the hotkey: a modifier adds its flag; the first other part names the key; a
/// second key, or a part that names nothing, makes the hotkey invalid.
pub open spec fn scan_step(acc: Option<(u32, Option<u32>)>, part: Seq<char>) -> Option<
    (u32, Option<u32>),
> {
    match acc {
        None => None,
        Some((m, vk)) => {
            let k = norm(part);
            if modifier_bit(k) != 0 {
                Some((m | modifier_bit(k), vk))
            } else if vk is Some {
                None
            } else {
                match key_code(k) {
                    Some(c) => Some((m, Some(c))),
                    None => None,
                }
            }
        },
    }
}

pub open spec fn hotkey_scan(parts: Seq<Seq<char>>) -> Option<(u32, Option<u32>)>
    decreases parts.len(),
{
    if parts.len() == 0 {
        Some((MOD_NOREPEAT, None))
    } else {
        scan_step(hotkey_scan(parts.drop_last()), parts.last())
    }
}

/// The hotkey the text names: the `+`-separated parts read in order, starting from
/// `MOD_NOREPEAT`; valid when exactly one part names a key.
pub open spec fn hotkey_spec(s: Seq<char>) -> Option<(u32, u32)> {
    match hotkey_scan(split_on(s, '+')) {
        Some((m, Some(v))) => Some((m, v)),
        _ => None,
    }
}

fn modifier_flag(k: &[char]) -> (b: u32)
    ensures
        b == modifier_bit(k@),
{
    if is_lit(k, "ctrl") || is_lit(k, "control") {
        2
    } else if is_lit(k, "alt") {
        1
    } else if is_lit(k, "shift") {
        4
    } else if is_lit(k, "win") || is_lit(k, "super") || is_lit(k, "meta") {
        8
    } else {
        0
    }
}

fn named_key(k: &[char]) -> (r: Option<u32>)
    ensures
        r == key_code(k@),
{
    if is_lit(k, "space") {
        Some(0x20)
    } else if is_lit(k, "esc") || is_lit(k, "escape") {
        Some(0x1b)
    } else if is_lit(k, "tab") {
        Some(0x09)
    } else if is_lit(k, "enter") || is_lit(k, "return") {
        Some(0x0d)
    } else if is_lit(k, "backspace") {
        Some(0x08)
    } else if is_lit(k, "pause") {
        Some(0x13)
    } else if is_lit(k, "home") {
        Some(0x24)
    } else if is_lit(k, "end") {
        Some(0x23)
    } else if is_lit(k, "insert") {
        Some(0x2d)
    } else if is_lit(k, "delete") {
        Some(0x2e)
    } else if is_lit(k, "pageup") {
        Some(0x21)
    } else if is_lit(k, "pagedown") {
        Some(0x22)
    } else if is_lit(k, "up") {
        Some(0x26)
    } else if is_lit(k, "down") {
        Some(0x28)
    } else if is_lit(k, "left") {
        Some(0x25)
    } else if is_lit(k, "right") {
        Some(0x27)
    } else if is_lit(k, "`") || is_lit(k, "grave") {
        Some(0xc0)
    } else if is_lit(k, "-") || is_lit(k, "minus") {
        Some(0xbd)
    } else if is_lit(k, "=") || is_lit(k, "equals") {
        Some(0xbb)
    } else if k.len() == 1 && (k[0] as u32) < 0x80 {
        let c = to_upper(k[0]);
        if ('0' <= c && c <= '9') || ('A' <= c && c <= 'Z') || ('a' <= c && c <= 'z') {
            Some(c as u32)
        } else {
            None
        }
    } else if k.len() > 1 && k[0] == 'f' {
        let d = slice_subrange(k, 1, k.len());
        proof {
            assert(d@ =~= k@.drop_first());
        }
        match parse_u32(d) {
            Some(n) => if 1 <= n && n <= 24 {
                Some(0x6f + n)
            } else {
                None
            },
            None => None,
        }
    } else {
        None
    }
}

fn step(acc: Option<(u32, Option<u32>)>, part: &[char]) -> (r: Option<(u32, Option<u32>)>)
    ensures
        r == scan_step(acc, part@),
{
    match acc {
        None => None,
        Some((m, vk)) => {
            let t = trim(part);
            let k = lowercase(t.as_slice());
            let b = modifier_flag(k.as_slice());
            if b != 0 {
                Some((m | b, vk))
            } else if vk.is_some() {
                None
            } else {
                match named_key(k.as_slice()) {
                    Some(c) => Some((m, Some(c))),
                    None => None,
                }
            }
        },
    }
}

/// The `RegisterHotKey` modifier flags (with `MOD_NOREPEAT`) and virtual key code that the
/// hotkey text names, or `None` when it names no key, names two, or names an unknown one.
pub fn parse_hotkey(s: &str) -> (r: Option<(u32, u32)>)
    ensures
        r == hotkey_spec(s@),
{
    let cs = chars_of(s);
    let mut acc: Option<(u32, Option<u32>)> = Some((MOD_NOREPEAT, None));
    let mut cur: Vec<char> = Vec::new();
    let mut i: usize = 0;
    proof {
        assert(cs@.subrange(0, 0) =~= Seq::<char>::empty());
    }
    while i < cs.len()
        invariant
            i <= cs@.len(),
            cs@ == s@,
            acc == hotkey_scan(split_on(cs@.subrange(0, i as int), '+').drop_last()),
            cur@ == split_on(cs@.subrange(0, i as int), '+').last(),
            split_on(cs@.subrange(0, i as int), '+').len() >= 1,
        decreases cs@.len() - i,
    {
        let ghost pre = cs@.subrange(0, i as int);
        let ghost next = cs@.subrange(0, i + 1);
        proof {
            assert(next.drop_last() =~= pre);
            assert(next.last() == cs@[i as int]);
            lemma_split_nonempty(pre, '+');
        }
        let c = cs[i];
        if c == '+' {
            proof {
                let r = split_on(pre, '+');
                assert(split_on(next, '+') == r.push(Seq::<char>::empty()));
                assert(r.push(Seq::<char>::empty()).drop_last() =~= r);
                assert(r =~= r.drop_last().push(r.last()));
            }
            acc = step(acc, cur.as_slice());
            cur = Vec::new();
        } else {
            proof {
                let r = split_on(pre, '+');
                let r2 = r.update(r.len() - 1, r.last().push(c));
                assert(split_on(next, '+') == r2);
                assert(r2.drop_last() =~= r.drop_last());
            }
            cur.push(c);
        }
        i = i + 1;
    }
    proof {
        let parts = split_on(cs@, '+');
        assert(cs@.subrange(0, cs@.len() as int) =~= cs@);
        assert(parts =~= parts.drop_last().push(parts.last()));
    }
    let fin = step(acc, cur.as_slice());
    match fin {
        Some((m, Some(v))) => Some((m, v)),
        _ => None,
    }
}

/// The normalized parts of a hotkey text, counted without regard to their order.
pub open spec fn part_counts(s: Seq<char>) -> Multiset<Seq<char>> {
    counts_of(split_on(s, '+'))
}

pub open spec fn counts_of(parts: Seq<Seq<char>>) -> Multiset<Seq<char>> {
    parts.map_values(|p: Seq<char>| norm(p)).to_multiset()
}

/// Some counted part is a modifier with flag `b`.
pub open spec fn names_flag(m: Multiset<Seq<char>>, b: u32) -> bool {
    exists|k: Seq<char>| m.count(k) > 0 && modifier_bit(k) == b
}

/// `k` is counted and names no modifier, so it stands for the key.
pub open spec fn is_key_part(m: Multiset<Seq<char>>, k: Seq<char>) -> bool {
    m.count(k) > 0 && modifier_bit(k) == 0
}

pub open spec fn names_bad_key(m: Multiset<Seq<char>>) -> bool {
    exists|k: Seq<char>| #[trigger] is_key_part(m, k) && key_code(k) is None
}

pub open spec fn names_two_keys(m: Multiset<Seq<char>>) -> bool {
    exists|k: Seq<char>, j: Seq<char>|
        #[trigger] is_key_part(m, k) && #[trigger] is_key_part(m, j) && (k != j || m.count(k) >= 2)
}

pub open spec fn flag_word(alt: bool, ctrl: bool, shift: bool, win: bool) -> u32 {
    0x4000u32 | (if alt { 1u32 } else { 0u32 }) | (if ctrl { 2u32 } else { 0u32 }) | (if shift {
        4u32
    } else {
        0u32
    }) | (if win { 8u32 } else { 0u32 })
}

/// The modifier flags that the counted parts name, with `MOD_NOREPEAT`.
pub open spec fn flags_of(m: Multiset<Seq<char>>) -> u32 {
    flag_word(names_flag(m, 1), names_flag(m, 2), names_flag(m, 4), names_flag(m, 8))
}

/// What a scan of the parts gives, told from their counts alone.
pub open spec fn scan_agrees(r: Option<(u32, Option<u32>)>, m: Multiset<Seq<char>>) -> bool {
    match r {
        None => names_two_keys(m) || names_bad_key(m),
        Some((f, vk)) => {
            &&& !names_two_keys(m)
            &&& !names_bad_key(m)
            &&& f == flags_of(m)
            &&& match vk {
                None => forall|k: Seq<char>| !#[trigger] is_key_part(m, k),
                Some(c) => exists|k: Seq<char>| #[trigger] is_key_part(m, k) && key_code(k) == Some(c),
            }
        },
    }
}

proof fn lemma_flag_word_or(a: bool, c: bool, s: bool, w: bool, b: u32)
    by (bit_vector)
    requires
        b == 1 || b == 2 || b == 4 || b == 8,
    ensures
        flag_word(a, c, s, w) | b == flag_word(a || b == 1, c || b == 2, s || b == 4, w || b == 8),
{
}

proof fn lemma_scan_by_counts(parts: Seq<Seq<char>>)
    ensures
        scan_agrees(hotkey_scan(parts), counts_of(parts)),
    decreases parts.len(),
{
    broadcast use vstd::multiset::group_multiset_axioms;
    broadcast use vstd::multiset::lemma_insert_containment;
    broadcast use vstd::multiset::lemma_insert_increases_count_by_1;
    broadcast use vstd::multiset::lemma_insert_other_elements_unchanged;
    broadcast use vstd::seq_lib::group_to_multiset_ensures;

    let m = counts_of(parts);
    if parts.len() == 0 {
        assert forall|k: Seq<char>| m.count(k) == 0 by {
            assert(m.count(k) <= m.len());
        }
        assert(!names_flag(m, 1) && !names_flag(m, 2) && !names_flag(m, 4) && !names_flag(m, 8));
        assert(flag_word(false, false, false, false) == 0x4000u32) by (bit_vector);
    } else {
        let p0 = parts.drop_last();
        lemma_scan_by_counts(p0);
        let m0 = counts_of(p0);
        let k = norm(parts.last());
        assert(parts.map_values(|p: Seq<char>| norm(p)) =~= p0.map_values(
            |p: Seq<char>| norm(p),
        ).push(k));
        vstd::seq_lib::to_multiset_build(p0.map_values(|p: Seq<char>| norm(p)), k);
        assert(m =~= m0.insert(k));
        let b = modifier_bit(k);
        match hotkey_scan(p0) {
            None => {
                if names_two_keys(m0) {
                    let (x, y) = choose|x: Seq<char>, y: Seq<char>|
                        #[trigger] is_key_part(m0, x) && #[trigger] is_key_part(m0, y) && (x != y
                            || m0.count(x) >= 2);
                    assert(is_key_part(m, x) && is_key_part(m, y));
                } else {
                    let x = choose|x: Seq<char>| #[trigger] is_key_part(m0, x) && key_code(x) is None;
                    assert(is_key_part(m, x));
                }
            },
            Some((f, vk)) => {
                if b != 0 {
                    assert(b == 1 || b == 2 || b == 4 || b == 8);
                    assert forall|j: Seq<char>| #[trigger] is_key_part(m, j) <==> is_key_part(m0, j) by {
                        if j == k {
                        }
                    }
                    assert forall|j: Seq<char>| is_key_part(m, j) implies m.count(j) == m0.count(j) by {
                        if j == k {
                        }
                    }
                    if names_two_keys(m) {
                        let (x, y) = choose|x: Seq<char>, y: Seq<char>|
                            #[trigger] is_key_part(m, x) && #[trigger] is_key_part(m, y) && (x
                                != y || m.count(x) >= 2);
                        assert(is_key_part(m0, x) && is_key_part(m0, y));
                    }
                    if names_bad_key(m) {
                        let x = choose|x: Seq<char>| #[trigger] is_key_part(m, x) && key_code(x) is None;
                        assert(is_key_part(m0, x));
                    }
                    assert forall|c: u32| c == 1 || c == 2 || c == 4 || c == 8 implies names_flag(
                        m,
                        c,
                    ) == (names_flag(m0, c) || b == c) by {
                        if names_flag(m, c) {
                            let x = choose|x: Seq<char>| m.count(x) > 0 && modifier_bit(x) == c;
                            if x != k {
                                assert(m0.count(x) > 0);
                            }
                        }
                        if names_flag(m0, c) {
                            let x = choose|x: Seq<char>| m0.count(x) > 0 && modifier_bit(x) == c;
                            assert(m.count(x) > 0);
                        }
                        if b == c {
                            assert(m.count(k) > 0);
                        }
                    }
                    lemma_flag_word_or(
                        names_flag(m0, 1),
                        names_flag(m0, 2),
                        names_flag(m0, 4),
                        names_flag(m0, 8),
                        b,
                    );
                    match vk {
                        None => {},
                        Some(c) => {
                            let x = choose|x: Seq<char>| #[trigger] is_key_part(m0, x) && key_code(x) == Some(c);
                            assert(is_key_part(m, x));
                        },
                    }
                } else if vk is Some {
                    let c = vk->0;
                    let x = choose|x: Seq<char>| #[trigger] is_key_part(m0, x) && key_code(x) == Some(c);
                    assert(is_key_part(m, x) && is_key_part(m, k));
                    if x == k {
                        assert(m.count(k) >= 2);
                    }
                } else {
                    assert(is_key_part(m, k));
                    assert(!is_key_part(m0, k));
                    assert(m.count(k) == 1);
                    assert forall|j: Seq<char>| #[trigger] is_key_part(m, j) implies j == k by {
                        if j != k {
                            assert(is_key_part(m0, j));
                        }
                    }
                    assert forall|c: u32| c == 1 || c == 2 || c == 4 || c == 8 implies names_flag(
                        m,
                        c,
                    ) == names_flag(m0, c) by {
                        if names_flag(m, c) {
                            let x = choose|x: Seq<char>| m.count(x) > 0 && modifier_bit(x) == c;
                            assert(x != k);
                            assert(m0.count(x) > 0);
                        }
                        if names_flag(m0, c) {
                            let x = choose|x: Seq<char>| m0.count(x) > 0 && modifier_bit(x) == c;
                            assert(m.count(x) > 0);
                        }
                    }
                    assert(names_flag(m, 1) == names_flag(m0, 1));
                    assert(names_flag(m, 2) == names_flag(m0, 2));
                    assert(names_flag(m, 4) == names_flag(m0, 4));
                    assert(names_flag(m, 8) == names_flag(m0, 8));
                    if names_two_keys(m) {
                        let (x, y) = choose|x: Seq<char>, y: Seq<char>|
                            #[trigger] is_key_part(m, x) && #[trigger] is_key_part(m, y) && (x
                                != y || m.count(x) >= 2);
                        assert(x == k && y == k);
                    }
                }
            },
        }
    }
}

/// The hotkey that a text names depends only on its parts as compared: the order of the
/// `+`-separated parts, their ASCII case and the blanks around them change nothing.
pub proof fn hotkey_ignores_order_case_and_padding(s: Seq<char>, t: Seq<char>)
    requires
        part_counts(s) == part_counts(t),
    ensures
        hotkey_spec(s) == hotkey_spec(t),
{
    let m = part_counts(s);
    lemma_scan_by_counts(split_on(s, '+'));
    lemma_scan_by_counts(split_on(t, '+'));
    match (hotkey_scan(split_on(s, '+')), hotkey_scan(split_on(t, '+'))) {
        (Some((f1, Some(c1))), Some((f2, Some(c2)))) => {
            let x = choose|x: Seq<char>| #[trigger] is_key_part(m, x) && key_code(x) == Some(c1);
            let y = choose|y: Seq<char>| #[trigger] is_key_part(m, y) && key_code(y) == Some(c2);
            if x != y {
                assert(is_key_part(m, x) && is_key_part(m, y));
                assert(names_two_keys(m));
            }
        },
        (Some((f1, Some(c1))), Some((f2, None))) => {
            let x = choose|x: Seq<char>| #[trigger] is_key_part(m, x) && key_code(x) == Some(c1);
            assert(is_key_part(m, x));
        },
        (Some((f1, None)), Some((f2, Some(c2)))) => {
            let y = choose|y: Seq<char>| #[trigger] is_key_part(m, y) && key_code(y) == Some(c2);
            assert(is_key_part(m, y));
        },
        _ => {},
    }
}

// ------------------------------------------------------------------ Windows virtual keys

pub const VK_BACK: u32 = 0x08;
pub const VK_TAB: u32 = 0x09;
pub const VK_RETURN: u32 = 0x0d;
pub const VK_PAUSE: u32 = 0x13;
pub const VK_ESCAPE: u32 = 0x1b;
pub const VK_SPACE: u32 = 0x20;
pub const VK_PRIOR: u32 = 0x21;
pub const VK_NEXT: u32 = 0x22;
pub const VK_END: u32 = 0x23;
pub const VK_HOME: u32 = 0x24;
pub const VK_LEFT: u32 = 0x25;
pub const VK_UP: u32 = 0x26;
pub const VK_RIGHT: u32 = 0x27;
pub const VK_DOWN: u32 = 0x28;
pub const VK_INSERT: u32 = 0x2d;
pub const VK_DELETE: u32 = 0x2e;
pub const VK_F1: u32 = 0x70;
pub const VK_OEM_PLUS: u32 = 0xbb;
pub const VK_OEM_MINUS: u32 = 0xbd;
pub const VK_OEM_3: u32 = 0xc0;

/// The keys a hotkey names by a word or a sign, with the Windows virtual-key code of each
/// (`=` is the key that carries `+`, `` ` `` the one that carries `~`).
pub open spec fn windows_key_names() -> Map<Seq<char>, u32> {
    map![
        "space"@ => VK_SPACE,
        "esc"@ => VK_ESCAPE,
        "escape"@ => VK_ESCAPE,
        "tab"@ => VK_TAB,
        "enter"@ => VK_RETURN,
        "return"@ => VK_RETURN,
        "backspace"@ => VK_BACK,
        "pause"@ => VK_PAUSE,
        "home"@ => VK_HOME,
        "end"@ => VK_END,
        "insert"@ => VK_INSERT,
        "delete"@ => VK_DELETE,
        "pageup"@ => VK_PRIOR,
        "pagedown"@ => VK_NEXT,
        "up"@ => VK_UP,
        "down"@ => VK_DOWN,
        "left"@ => VK_LEFT,
        "right"@ => VK_RIGHT,
        "`"@ => VK_OEM_3,
        "grave"@ => VK_OEM_3,
        "-"@ => VK_OEM_MINUS,
        "minus"@ => VK_OEM_MINUS,
        "="@ => VK_OEM_PLUS,
        "equals"@ => VK_OEM_PLUS
    ]
}

/// In a valid hotkey, a part that names no modifier is the key, and its code is the one the
/// hotkey carries.
proof fn lemma_key_part_is_the_key(s: Seq<char>, i: int)
    requires
        0 <= i < split_on(s, '+').len(),
        modifier_bit(norm(split_on(s, '+')[i])) == 0,
        hotkey_spec(s) is Some,
    ensures
        key_code(norm(split_on(s, '+')[i])) == Some(hotkey_spec(s).unwrap().1),
{
    broadcast use vstd::seq_lib::group_to_multiset_ensures;

    let parts = split_on(s, '+');
    let ns = parts.map_values(|p: Seq<char>| norm(p));
    let m = counts_of(parts);
    let k = norm(parts[i]);
    lemma_scan_by_counts(parts);
    assert(ns[i] == k);
    assert(ns.contains(k));
    assert(is_key_part(m, k));
    let v = hotkey_spec(s).unwrap().1;
    let x = choose|x: Seq<char>| #[trigger] is_key_part(m, x) && key_code(x) == Some(v);
    if x != k {
        assert(is_key_part(m, x) && is_key_part(m, k));
        assert(names_two_keys(m));
    }
}

proof fn lemma_windows_key_names(k: Seq<char>)
    requires
        windows_key_names().dom().contains(k),
    ensures
        modifier_bit(k) == 0,
        key_code(k) == Some(windows_key_names()[k]),
{
    reveal_strlit("space");
    reveal_strlit("esc");
    reveal_strlit("escape");
    reveal_strlit("tab");
    reveal_strlit("enter");
    reveal_strlit("return");
    reveal_strlit("backspace");
    reveal_strlit("pause");
    reveal_strlit("home");
    reveal_strlit("end");
    reveal_strlit("insert");
    reveal_strlit("delete");
    reveal_strlit("pageup");
    reveal_strlit("pagedown");
    reveal_strlit("up");
    reveal_strlit("down");
    reveal_strlit("left");
    reveal_strlit("right");
    reveal_strlit("`");
    reveal_strlit("grave");
    reveal_strlit("-");
    reveal_strlit("minus");
    reveal_strlit("=");
    reveal_strlit("equals");
    reveal_strlit("ctrl");
    reveal_strlit("control");
    reveal_strlit("alt");
    reveal_strlit("shift");
    reveal_strlit("win");
    reveal_strlit("super");
    reveal_strlit("meta");
    let t = windows_key_names();
    if k == "space"@ {
        assert(t["space"@] == t[k]);
    } else if k == "esc"@ {
        assert(t["esc"@] == t[k]);
    } else if k == "escape"@ {
        assert(t["escape"@] == t[k]);
    } else if k == "tab"@ {
        assert(t["tab"@] == t[k]);
    } else if k == "enter"@ {
        assert(t["enter"@] == t[k]);
    } else if k == "return"@ {
        assert(t["return"@] == t[k]);
    } else if k == "backspace"@ {
        assert(t["backspace"@] == t[k]);
    } else if k == "pause"@ {
        assert(t["pause"@] == t[k]);
    } else if k == "home"@ {
        assert(t["home"@] == t[k]);
    } else if k == "end"@ {
        assert(t["end"@] == t[k]);
    } else if k == "insert"@ {
        assert(t["insert"@] == t[k]);
    } else if k == "delete"@ {
        assert(t["delete"@] == t[k]);
    } else if k == "pageup"@ {
        assert(t["pageup"@] == t[k]);
    } else if k == "pagedown"@ {
        assert(t["pagedown"@] == t[k]);
    } else if k == "up"@ {
        assert(t["up"@] == t[k]);
    } else if k == "down"@ {
        assert(t["down"@] == t[k]);
    } else if k == "left"@ {
        assert(t["left"@] == t[k]);
    } else if k == "right"@ {
        assert(t["right"@] == t[k]);
    } else if k == "`"@ {
        assert(t["`"@] == t[k]);
    } else if k == "grave"@ {
        assert(t["grave"@] == t[k]);
    } else if k == "-"@ {
        assert(t["-"@] == t[k]);
    } else if k == "minus"@ {
        assert(t["minus"@] == t[k]);
    } else if k == "="@ {
        assert(t["="@] == t[k]);
    } else if k == "equals"@ {
        assert(t["equals"@] == t[k]);
    }
}

/// Every key a hotkey names by a word or a sign registers as its Windows virtual key: in a
/// valid hotkey with such a part (in any case, with any blanks around it), the key code is
/// that key's code, e.g. `VK_HOME` for "Home" and `VK_END` for "End".
pub proof fn named_keys_are_windows_virtual_keys(s: Seq<char>, i: int)
    requires
        0 <= i < split_on(s, '+').len(),
        windows_key_names().dom().contains(norm(split_on(s, '+')[i])),
        hotkey_spec(s) is Some,
    ensures
        hotkey_spec(s).unwrap().1 == windows_key_names()[norm(split_on(s, '+')[i])],
{
    lemma_windows_key_names(norm(split_on(s, '+')[i]));
    lemma_key_part_is_the_key(s, i);
}

/// A key named by its letter or digit (in either case) registers as the virtual key whose
/// code is the upper-case ASCII code of that character.
pub proof fn letter_keys_are_their_ascii_codes(s: Seq<char>, i: int, c: char)
    requires
        0 <= i < split_on(s, '+').len(),
        norm(split_on(s, '+')[i]) == seq![c],
        ('a' <= c && c <= 'z') || ('0' <= c && c <= '9'),
        hotkey_spec(s) is Some,
    ensures
        hotkey_spec(s).unwrap().1 as int == if 'a' <= c && c <= 'z' {
            c as int - 32
        } else {
            c as int
        },
{
    let k = norm(split_on(s, '+')[i]);
    reveal_strlit("ctrl");
    reveal_strlit("control");
    reveal_strlit("alt");
    reveal_strlit("shift");
    reveal_strlit("win");
    reveal_strlit("super");
    reveal_strlit("meta");
    assert(k.len() == 1 && k[0] == c);
    assert(modifier_bit(k) == 0) by {
        assert(k != "ctrl"@ && k != "control"@ && k != "alt"@ && k != "shift"@ && k != "win"@
            && k != "super"@ && k != "meta"@);
    }
    lemma_key_part_is_the_key(s, i);
    lemma_single_char_key(k, c);
}

proof fn lemma_single_char_key(k: Seq<char>, c: char)
    requires
        k == seq![c],
        ('a' <= c && c <= 'z') || ('0' <= c && c <= '9'),
    ensures
        key_code(k) is Some,
        key_code(k).unwrap() as int == if 'a' <= c && c <= 'z' {
            c as int - 32
        } else {
            c as int
        },
{
    reveal_strlit("space");
    reveal_strlit("esc");
    reveal_strlit("escape");
    reveal_strlit("tab");
    reveal_strlit("enter");
    reveal_strlit("return");
    reveal_strlit("backspace");
    reveal_strlit("pause");
    reveal_strlit("home");
    reveal_strlit("end");
    reveal_strlit("insert");
    reveal_strlit("delete");
    reveal_strlit("pageup");
    reveal_strlit("pagedown");
    reveal_strlit("up");
    reveal_strlit("down");
    reveal_strlit("left");
    reveal_strlit("right");
    reveal_strlit("`");
    reveal_strlit("grave");
    reveal_strlit("-");
    reveal_strlit("minus");
    reveal_strlit("=");
    reveal_strlit("equals");
}

/// A function key written `F` and a decimal number from 1 to 24 (in either case, leading
/// zeros allowed) registers as `VK_F1` plus the number less one.
pub proof fn function_keys_are_windows_virtual_keys(s: Seq<char>, i: int, d: Seq<char>)
    requires
        0 <= i < split_on(s, '+').len(),
        norm(split_on(s, '+')[i]) == seq!['f'] + d,
        d.len() >= 1,
        forall|j: int| 0 <= j < d.len() ==> is_digit(#[trigger] d[j]),
        1 <= digits_value(d, 10) <= 24,
        hotkey_spec(s) is Some,
    ensures
        hotkey_spec(s).unwrap().1 == VK_F1 + digits_value(d, 10) - 1,
{
    let k = norm(split_on(s, '+')[i]);
    reveal_strlit("ctrl");
    reveal_strlit("control");
    reveal_strlit("alt");
    reveal_strlit("shift");
    reveal_strlit("win");
    reveal_strlit("super");
    reveal_strlit("meta");
    assert(k[0] == 'f' && k.len() == d.len() + 1);
    assert(k.drop_first() =~= d);
    assert(modifier_bit(k) == 0) by {
        if k == "ctrl"@ || k == "control"@ || k == "alt"@ || k == "shift"@ || k == "win"@
            || k == "super"@ || k == "meta"@ {
            assert(k[0] != 'f');
        }
    }
    assert(is_digit(d[0]));
    assert(unsigned_body(d) == d);
    assert(parse_u32_spec(d) == Some(digits_value(d, 10) as u32));
    lemma_key_part_is_the_key(s, i);
    lemma_f_key(k, d);
}

proof fn lemma_f_key(k: Seq<char>, d: Seq<char>)
    requires
        k[0] == 'f',
        k.len() >= 2,
        k.drop_first() == d,
        f_number(d) is Some,
    ensures
        key_code(k) == Some((0x6f + f_number(d).unwrap()) as u32),
{
    reveal_strlit("space");
    reveal_strlit("esc");
    reveal_strlit("escape");
    reveal_strlit("tab");
    reveal_strlit("enter");
    reveal_strlit("return");
    reveal_strlit("backspace");
    reveal_strlit("pause");
    reveal_strlit("home");
    reveal_strlit("end");
    reveal_strlit("insert");
    reveal_strlit("delete");
    reveal_strlit("pageup");
    reveal_strlit("pagedown");
    reveal_strlit("up");
    reveal_strlit("down");
    reveal_strlit("left");
    reveal_strlit("right");
    reveal_strlit("`");
    reveal_strlit("grave");
    reveal_strlit("-");
    reveal_strlit("minus");
    reveal_strlit("=");
    reveal_strlit("equals");
}

} // verus!
