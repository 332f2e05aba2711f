//! Character-level text handling used by the settings: Unicode whitespace trimming, ASCII
//! case folding, splitting on a separator, and decimal and hexadecimal numbers as Rust's
//! standard library reads them.
use vstd::prelude::*;

verus! {

/// Unicode `White_Space`, the property behind `char::is_whitespace` and `str::trim`.
pub open spec fn is_ws(c: char) -> bool {
    let u = c as u32;
    ||| 0x09 <= u <= 0x0d
    ||| u == 0x20
    ||| u == 0x85
    ||| u == 0xa0
    ||| u == 0x1680
    ||| 0x2000 <= u <= 0x200a
    ||| u == 0x2028
    ||| u == 0x2029
    ||| u == 0x202f
    ||| u == 0x205f
    ||| u == 0x3000
}

/// `s` without its leading whitespace.
pub open spec fn trim_start(s: Seq<char>) -> Seq<char>
    decreases s.len(),
{
    if s.len() > 0 && is_ws(s[0]) {
        trim_start(s.drop_first())
    } else {
        s
    }
}

/// `s` without its trailing whitespace.
pub open spec fn trim_end(s: Seq<char>) -> Seq<char>
    decreases s.len(),
{
    if s.len() > 0 && is_ws(s.last()) {
        trim_end(s.drop_last())
    } else {
        s
    }
}

/// `s` without leading and trailing whitespace.
pub open spec fn trimmed(s: Seq<char>) -> Seq<char> {
    trim_end(trim_start(s))
}

/// ASCII lowercase of `c`; other characters are unchanged.
pub open spec fn lower(c: char) -> char {
    if 'A' <= c && c <= 'Z' {
        ((c as u32) + 32) as char
    } else {
        c
    }
}

/// ASCII uppercase of `c`; other characters are unchanged.
pub open spec fn upper(c: char) -> char {
    if 'a' <= c && c <= 'z' {
        ((c as u32) - 32) as char
    } else {
        c
    }
}

pub open spec fn lower_all(s: Seq<char>) -> Seq<char> {
    s.map_values(|c: char| lower(c))
}

pub open spec fn is_digit(c: char) -> bool {
    '0' <= c && c <= '9'
}

pub open spec fn is_hex_digit(c: char) -> bool {
    is_digit(c) || ('a' <= c && c <= 'f') || ('A' <= c && c <= 'F')
}

pub open spec fn digit_value(c: char) -> nat {
    if is_digit(c) {
        (c as u32 - '0' as u32) as nat
    } else if 'a' <= c && c <= 'f' {
        (c as u32 - 'a' as u32 + 10) as nat
    } else {
        (c as u32 - 'A' as u32 + 10) as nat
    }
}

/// The number that the digits `d` spell in base `radix`.
pub open spec fn digits_value(d: Seq<char>, radix: nat) -> nat
    decreases d.len(),
{
    if d.len() == 0 {
        0
    } else {
        digits_value(d.drop_last(), radix) * radix + digit_value(d.last())
    }
}

/// `s` without one leading `+`.
pub open spec fn unsigned_body(s: Seq<char>) -> Seq<char> {
    if s.len() > 0 && s[0] == '+' {
        s.drop_first()
    } else {
        s
    }
}

/// `u32::from_str(s)`: an optional `+` and at least one decimal digit, in range.
pub open spec fn parse_u32_spec(s: Seq<char>) -> Option<u32> {
    let d = unsigned_body(s);
    if d.len() > 0 && (forall|i: int| 0 <= i < d.len() ==> is_digit(#[trigger] d[i]))
        && digits_value(d, 10) <= u32::MAX {
        Some(digits_value(d, 10) as u32)
    } else {
        None
    }
}

/// `u32::from_str_radix(s, 16)`: an optional `+` and at least one hex digit, in range.
pub open spec fn parse_hex_spec(s: Seq<char>) -> Option<u32> {
    let d = unsigned_body(s);
    if d.len() > 0 && (forall|i: int| 0 <= i < d.len() ==> is_hex_digit(#[trigger] d[i]))
        && digits_value(d, 16) <= u32::MAX {
        Some(digits_value(d, 16) as u32)
    } else {
        None
    }
}

/// `s.split(sep)`: the pieces between separators, in order, empty pieces included.
pub open spec fn split_on(s: Seq<char>, sep: char) -> Seq<Seq<char>>
    decreases s.len(),
{
    if s.len() == 0 {
        seq![Seq::<char>::empty()]
    } else {
        let r = split_on(s.drop_last(), sep);
        if s.last() == sep {
            r.push(Seq::<char>::empty())
        } else {
            r.update(r.len() - 1, r.last().push(s.last()))
        }
    }
}

pub proof fn lemma_split_nonempty(s: Seq<char>, sep: char)
    ensures
        split_on(s, sep).len() >= 1,
    decreases s.len(),
{
    if s.len() > 0 {
        lemma_split_nonempty(s.drop_last(), sep);
    }
}

pub fn is_whitespace(c: char) -> (b: bool)
    ensures
        b == is_ws(c),
{
    let u = c as u32;
    (0x09 <= u && u <= 0x0d) || u == 0x20 || u == 0x85 || u == 0xa0 || u == 0x1680 || (0x2000
        <= u && u <= 0x200a) || u == 0x2028 || u == 0x2029 || u == 0x202f || u == 0x205f || u
        == 0x3000
}

pub fn to_lower(c: char) -> (r: char)
    ensures
        r == lower(c),
{
    if 'A' <= c && c <= 'Z' {
        let b = (c as u32) as u8;
        (b + 32) as char
    } else {
        c
    }
}

pub fn to_upper(c: char) -> (r: char)
    ensures
        r == upper(c),
{
    if 'a' <= c && c <= 'z' {
        let b = (c as u32) as u8;
        (b - 32) as char
    } else {
        c
    }
}

/// The characters of `s`.
pub fn chars_of(s: &str) -> (v: Vec<char>)
    ensures
        v@ == s@,
{
    let n = s.unicode_len();
    let mut v: Vec<char> = Vec::new();
    let mut i: usize = 0;
    while i < n
        invariant
            n == s@.len(),
            i <= n,
            v@ == s@.subrange(0, i as int),
        decreases n - i,
    {
        v.push(s.get_char(i));
        i = i + 1;
        assert(v@ =~= s@.subrange(0, i as int));
    }
    assert(v@ =~= s@);
    v
}

/// Whether the characters `a` spell `lit`.
pub fn is_lit(a: &[char], lit: &str) -> (b: bool)
    ensures
        b == (a@ == lit@),
{
    let n = lit.unicode_len();
    if a.len() != n {
        return false;
    }
    let mut i: usize = 0;
    while i < n
        invariant
            n == lit@.len(),
            n == a@.len(),
            i <= n,
            forall|k: int| 0 <= k < i ==> a@[k] == lit@[k],
        decreases n - i,
    {
        if a[i] != lit.get_char(i) {
            return false;
        }
        i = i + 1;
    }
    assert(a@ =~= lit@);
    true
}

proof fn lemma_trim_start_step(s: Seq<char>, i: int)
    requires
        0 <= i < s.len(),
        is_ws(s[i]),
    ensures
        trim_start(s.subrange(i, s.len() as int)) == trim_start(s.subrange(i + 1, s.len() as int)),
{
    assert(s.subrange(i, s.len() as int).drop_first() =~= s.subrange(i + 1, s.len() as int));
}

proof fn lemma_trim_end_step(s: Seq<char>, j: int)
    requires
        0 < j <= s.len(),
        is_ws(s[j - 1]),
    ensures
        trim_end(s.subrange(0, j)) == trim_end(s.subrange(0, j - 1)),
{
    assert(s.subrange(0, j).drop_last() =~= s.subrange(0, j - 1));
}

/// `s` without leading and trailing Unicode whitespace.
pub fn trim(s: &[char]) -> (v: Vec<char>)
    ensures
        v@ == trimmed(s@),
{
    let n = s.len();
    let mut a: usize = 0;
    assert(s@.subrange(0, n as int) =~= s@);
    while a < n && is_whitespace(s[a])
        invariant
            n == s@.len(),
            a <= n,
            trim_start(s@) == trim_start(s@.subrange(a as int, n as int)),
        decreases n - a,
    {
        proof {
            lemma_trim_start_step(s@, a as int);
        }
        a = a + 1;
    }
    let ghost t = s@.subrange(a as int, n as int);
    assert(trim_start(t) == t);
    assert(trim_start(s@) == t);
    let mut b: usize = n;
    assert(t.subrange(0, n - a) =~= t);
    while b > a && is_whitespace(s[b - 1])
        invariant
            n == s@.len(),
            a <= b <= n,
            t == s@.subrange(a as int, n as int),
            trim_end(t) == trim_end(t.subrange(0, b - a)),
        decreases b - a,
    {
        proof {
            assert(t[b - a - 1] == s@[b - 1]);
            lemma_trim_end_step(t, (b - a) as int);
        }
        b = b - 1;
    }
    let ghost u = t.subrange(0, b - a);
    assert(trim_end(u) == u);
    let mut v: Vec<char> = Vec::new();
    let mut i: usize = a;
    while i < b
        invariant
            n == s@.len(),
            a <= i <= b <= n,
            v@ == s@.subrange(a as int, i as int),
        decreases b - i,
    {
        v.push(s[i]);
        i = i + 1;
        assert(v@ =~= s@.subrange(a as int, i as int));
    }
    assert(v@ =~= u);
    v
}

/// The characters of `s`, ASCII-lowercased.
pub fn lowercase(s: &[char]) -> (v: Vec<char>)
    ensures
        v@ == lower_all(s@),
{
    let mut v: Vec<char> = Vec::new();
    let mut i: usize = 0;
    while i < s.len()
        invariant
            i <= s@.len(),
            v@ == lower_all(s@.subrange(0, i as int)),
        decreases s@.len() - i,
    {
        v.push(to_lower(s[i]));
        i = i + 1;
        assert(v@ =~= lower_all(s@.subrange(0, i as int)));
    }
    assert(s@.subrange(0, s@.len() as int) =~= s@);
    v
}

pub fn digit_val(c: char) -> (d: u32)
    requires
        is_hex_digit(c),
    ensures
        d == digit_value(c),
        d < 16,
{
    let u = c as u32;
    if '0' <= c && c <= '9' {
        u - ('0' as u32)
    } else if 'a' <= c && c <= 'f' {
        u - ('a' as u32) + 10
    } else {
        u - ('A' as u32) + 10
    }
}

/// A value above every `u32`, where digit accumulation saturates.
pub open spec fn cap() -> nat {
    0x1_0000_0000
}

pub open spec fn capped(v: nat) -> nat {
    if v < cap() {
        v
    } else {
        cap()
    }
}

/// `u32::from_str_radix(s, radix)` for radix 10 and 16 (see `parse_u32_spec`, `parse_hex_spec`).
fn parse_unsigned(s: &[char], hex: bool) -> (r: Option<u32>)
    ensures
        r == (if hex {
            parse_hex_spec(s@)
        } else {
            parse_u32_spec(s@)
        }),
{
    let ghost radix: nat = if hex {
        16
    } else {
        10
    };
    let start: usize = if s.len() > 0 && s[0] == '+' {
        1
    } else {
        0
    };
    let ghost d = unsigned_body(s@);
    assert(d =~= s@.subrange(start as int, s@.len() as int));
    if start >= s.len() {
        return None;
    }
    let mut acc: u64 = 0;
    let mut i: usize = start;
    while i < s.len()
        invariant
            start <= i <= s@.len(),
            d == s@.subrange(start as int, s@.len() as int),
            d == unsigned_body(s@),
            radix == (if hex {
                16nat
            } else {
                10nat
            }),
            forall|k: int| 0 <= k < i - start ==> (if hex {
                is_hex_digit(#[trigger] d[k])
            } else {
                is_digit(d[k])
            }),
            acc == capped(digits_value(d.subrange(0, i - start), radix)),
        decreases s@.len() - i,
    {
        let c = s[i];
        let ok = if hex {
            ('0' <= c && c <= '9') || ('a' <= c && c <= 'f') || ('A' <= c && c <= 'F')
        } else {
            '0' <= c && c <= '9'
        };
        if !ok {
            proof {
                assert(d[i - start] == c);
                let j = i - start;
                assert(0 <= j < d.len());
                if hex {
                    assert(!is_hex_digit(d[j]));
                    assert(!(forall|k: int| 0 <= k < d.len() ==> is_hex_digit(#[trigger] d[k])));
                    assert(parse_hex_spec(s@) is None);
                } else {
                    assert(!is_digit(d[j]));
                    assert(!(forall|k: int| 0 <= k < d.len() ==> is_digit(#[trigger] d[k])));
                    assert(parse_u32_spec(s@) is None);
                }
            }
            return None;
        }
        let dv = digit_val(c) as u64;
        let base: u64 = if hex {
            16
        } else {
            10
        };
        let next = acc * base + dv;
        acc = if next > 0x1_0000_0000 {
            0x1_0000_0000
        } else {
            next
        };
        proof {
            let p = d.subrange(0, i - start);
            let q = d.subrange(0, i + 1 - start);
            assert(q.drop_last() =~= p);
            assert(q.last() == c);
            let v = digits_value(p, radix);
            assert(digits_value(q, radix) == v * radix + digit_value(c));
            if v >= cap() {
                assert(v * radix >= cap()) by (nonlinear_arith)
                    requires
                        v >= cap(),
                        radix >= 10,
                ;
            }
        }
        i = i + 1;
    }
    assert(d.subrange(0, s@.len() - start) =~= d);
    if acc > 0xffff_ffff {
        None
    } else {
        Some(acc as u32)
    }
}

/// `u32::from_str(s)` on the characters `s`.
pub fn parse_u32(s: &[char]) -> (r: Option<u32>)
    ensures
        r == parse_u32_spec(s@),
{
    parse_unsigned(s, false)
}

/// `u32::from_str_radix(s, 16)` on the characters `s`.
pub fn parse_hex(s: &[char]) -> (r: Option<u32>)
    ensures
        r == parse_hex_spec(s@),
{
    parse_unsigned(s, true)
}

} // verus!
