//! The settings page's live preview: its size, and the PNG data URL it is shipped as.
use vstd::prelude::*;

verus! {

/// Width of the preview image in pixels.
pub const PREVIEW_WIDTH: u32 = 512;

/// Height of the preview of a `cap_w` x `cap_h` capture: the width scaled by the capture's
/// aspect ratio, rounded to nearest (halves up), kept within 1..=960. A capture of no width
/// has an unbounded ratio (960), or none at all when it has no height either (1).
pub open spec fn preview_height_spec(cap_w: u32, cap_h: u32) -> u32 {
    if cap_w == 0 {
        if cap_h == 0 {
            1
        } else {
            960
        }
    } else {
        let r = (2 * PREVIEW_WIDTH * cap_h + cap_w) / (2 * cap_w);
        if r < 1 {
            1
        } else if r > 960 {
            960
        } else {
            r as u32
        }
    }
}

/// The preview's height for a `cap_w` x `cap_h` capture (see `preview_height_spec`).
pub fn preview_height(cap_w: u32, cap_h: u32) -> (h: u32)
    ensures
        h == preview_height_spec(cap_w, cap_h),
{
    if cap_w == 0 {
        return if cap_h == 0 {
            1
        } else {
            960
        };
    }
    let ch = cap_h as u64;
    let cw = cap_w as u64;
    assert(1024 * ch <= 1024 * 0xffff_ffff) by (nonlinear_arith)
        requires
            ch <= 0xffff_ffff,
    ;
    let r: u64 = (1024 * ch + cw) / (2 * cw);
    if r < 1 {
        1
    } else if r > 960 {
        960
    } else {
        r as u32
    }
}

/// The base64 alphabet of RFC 4648.
pub open spec fn b64_symbol(i: int) -> char {
    if i < 26 {
        ('A' as u32 + i) as char
    } else if i < 52 {
        ('a' as u32 + i - 26) as char
    } else if i < 62 {
        ('0' as u32 + i - 52) as char
    } else if i == 62 {
        '+'
    } else {
        '/'
    }
}

/// Byte `j` of `b`, or 0 past its end.
pub open spec fn byte_or_zero(b: Seq<u8>, j: int) -> int {
    if j < b.len() {
        b[j] as int
    } else {
        0
    }
}

/// The 24-bit group that the `g`-th three bytes of `b` form (missing bytes count as 0).
pub open spec fn group24(b: Seq<u8>, g: int) -> int {
    byte_or_zero(b, 3 * g) * 65536 + byte_or_zero(b, 3 * g + 1) * 256 + byte_or_zero(b, 3 * g + 2)
}

/// Character `4 * g + p` of the padded base64 encoding of `b`: the `p`-th six bits of group
/// `g`, or `=` where the group has no byte behind those bits.
pub open spec fn b64_char(b: Seq<u8>, g: int, p: int) -> char {
    if 3 * g + p > b.len() {
        '='
    } else {
        let shift: int = if p == 0 {
            262144
        } else if p == 1 {
            4096
        } else if p == 2 {
            64
        } else {
            1
        };
        b64_symbol((group24(b, g) / shift) % 64)
    }
}

/// Number of base64 groups for `n` bytes.
pub open spec fn b64_groups(n: int) -> int {
    (n + 2) / 3
}

/// The padded base64 encoding of `b`, character by character.
pub open spec fn b64_encode(b: Seq<u8>) -> Seq<char> {
    Seq::new((4 * b64_groups(b.len() as int)) as nat, |i: int| b64_char(b, i / 4, i % 4))
}

/// The value 0..=63 that a base64 symbol stands for (RFC 4648, table 1).
pub open spec fn b64_value(c: char) -> int {
    if 'A' <= c && c <= 'Z' {
        c as int - 'A' as int
    } else if 'a' <= c && c <= 'z' {
        c as int - 'a' as int + 26
    } else if '0' <= c && c <= '9' {
        c as int - '0' as int + 52
    } else if c == '+' {
        62
    } else {
        63
    }
}

/// The six bits a character of a quantum stands for; padding stands for none.
pub open spec fn b64_bits_or_pad(c: char) -> int {
    if c == '=' {
        0
    } else {
        b64_value(c)
    }
}

/// The 24-bit value of a four-character quantum.
pub open spec fn b64_quantum_value(q: Seq<char>) -> int {
    b64_value(q[0]) * 262144 + b64_value(q[1]) * 4096 + b64_bits_or_pad(q[2]) * 64
        + b64_bits_or_pad(q[3])
}

/// The bytes a four-character quantum decodes to: three, or one or two when it ends in
/// `==` or `=`.
pub open spec fn b64_quantum_bytes(q: Seq<char>) -> Seq<u8> {
    let v = b64_quantum_value(q);
    let all = seq![(v / 65536 % 256) as u8, (v / 256 % 256) as u8, (v % 256) as u8];
    if q[2] == '=' {
        all.take(1)
    } else if q[3] == '=' {
        all.take(2)
    } else {
        all
    }
}

/// RFC 4648 decoding of padded base64 text, quantum by quantum.
pub open spec fn b64_decode(s: Seq<char>) -> Seq<u8>
    decreases s.len(),
{
    if s.len() < 4 {
        Seq::empty()
    } else {
        b64_quantum_bytes(s.take(4)) + b64_decode(s.skip(4))
    }
}

proof fn lemma_symbol_value(i: int)
    requires
        0 <= i < 64,
    ensures
        b64_value(b64_symbol(i)) == i,
        b64_symbol(i) != '=',
{
}

proof fn lemma_b64_bits(b0: u32, b1: u32, b2: u32)
    by (bit_vector)
    requires
        b0 < 256,
        b1 < 256,
        b2 < 256,
    ensures
        ((b0 * 65536 + b1 * 256 + b2) / 262144 % 64) * 262144 + ((b0 * 65536 + b1 * 256 + b2)
            / 4096 % 64) * 4096 + ((b0 * 65536 + b1 * 256 + b2) / 64 % 64) * 64 + (b0 * 65536
            + b1 * 256 + b2) % 64 == b0 * 65536 + b1 * 256 + b2,
        (b0 * 65536 + b1 * 256 + b2) / 65536 % 256 == b0,
        (b0 * 65536 + b1 * 256 + b2) / 256 % 256 == b1,
        (b0 * 65536 + b1 * 256 + b2) % 256 == b2,
        b2 == 0 ==> (b0 * 65536 + b1 * 256 + b2) % 64 == 0,
        b1 == 0 && b2 == 0 ==> (b0 * 65536 + b1 * 256 + b2) / 64 % 64 == 0,
{
}

/// The first quantum of the encoding of `b` decodes to its first (up to three) bytes.
proof fn lemma_first_quantum(b: Seq<u8>)
    requires
        b.len() >= 1,
    ensures
        b64_quantum_bytes(b64_encode(b).take(4)) == b.take(if b.len() < 3 {
            b.len() as int
        } else {
            3
        }),
{
    let q = b64_encode(b).take(4);
    let b0 = byte_or_zero(b, 0);
    let b1 = byte_or_zero(b, 1);
    let b2 = byte_or_zero(b, 2);
    lemma_b64_bits(b0 as u32, b1 as u32, b2 as u32);
    let v = group24(b, 0);
    assert(v == b0 * 65536 + b1 * 256 + b2);
    lemma_symbol_value(v / 262144 % 64);
    lemma_symbol_value(v / 4096 % 64);
    lemma_symbol_value(v / 64 % 64);
    lemma_symbol_value(v % 64);
    assert(q[0] == b64_char(b, 0, 0));
    assert(q[1] == b64_char(b, 0, 1));
    assert(q[2] == b64_char(b, 0, 2));
    assert(q[3] == b64_char(b, 0, 3));
    assert(b64_quantum_value(q) == v);
    if b.len() == 1 {
        assert(b64_quantum_bytes(q) =~= b.take(1));
    } else if b.len() == 2 {
        assert(b64_quantum_bytes(q) =~= b.take(2));
    } else {
        assert(b64_quantum_bytes(q) =~= b.take(3));
    }
}

/// Past its first quantum, the encoding of `b` is the encoding of `b` past its first three
/// bytes.
proof fn lemma_encode_skip(b: Seq<u8>)
    requires
        b.len() > 3,
    ensures
        b64_encode(b).skip(4) == b64_encode(b.skip(3)),
{
    let e = b64_encode(b);
    let r = b.skip(3);
    assert(b64_groups(r.len() as int) == b64_groups(b.len() as int) - 1);
    assert forall|i: int| 0 <= i < e.len() - 4 implies #[trigger] e.skip(4)[i] == b64_encode(
        r,
    )[i] by {
        let g = i / 4;
        let p = i % 4;
        assert((i + 4) / 4 == g + 1 && (i + 4) % 4 == p);
        assert(byte_or_zero(b, 3 * (g + 1)) == byte_or_zero(r, 3 * g));
        assert(byte_or_zero(b, 3 * (g + 1) + 1) == byte_or_zero(r, 3 * g + 1));
        assert(byte_or_zero(b, 3 * (g + 1) + 2) == byte_or_zero(r, 3 * g + 2));
        assert(group24(b, g + 1) == group24(r, g));
    }
    assert(e.skip(4) =~= b64_encode(r));
}

/// Decoding what `base64` writes, by RFC 4648, gives the bytes back.
pub proof fn base64_decodes_back(bytes: Seq<u8>)
    ensures
        b64_decode(b64_encode(bytes)) == bytes,
    decreases bytes.len(),
{
    let e = b64_encode(bytes);
    if bytes.len() == 0 {
        assert(e.len() == 0);
        assert(b64_decode(e) =~= bytes);
    } else {
        lemma_first_quantum(bytes);
        if bytes.len() <= 3 {
            assert(e.len() == 4);
            assert(b64_decode(e.skip(4)) == Seq::<u8>::empty());
            assert(b64_decode(e) =~= bytes);
        } else {
            lemma_encode_skip(bytes);
            base64_decodes_back(bytes.skip(3));
            assert(b64_decode(e) =~= bytes.take(3) + bytes.skip(3));
            assert(bytes.take(3) + bytes.skip(3) =~= bytes);
        }
    }
}

fn symbol(i: u32) -> (c: char)
    requires
        i < 64,
    ensures
        c == b64_symbol(i as int),
{
    if i < 26 {
        ((65u32 + i) as u8) as char
    } else if i < 52 {
        ((97u32 + i - 26) as u8) as char
    } else if i < 62 {
        ((48u32 + i - 52) as u8) as char
    } else if i == 62 {
        '+'
    } else {
        '/'
    }
}

/// Appends `c` to `s` (`String::push`).
#[verifier::external_body]
fn push_char(s: &mut String, c: char)
    ensures
        final(s)@ == old(s)@.push(c),
{
    s.push(c);
}

/// The characters `cs` as a `String`.
fn string_from_chars(cs: &[char]) -> (s: String)
    ensures
        s@ == cs@,
{
    let mut s = String::new();
    let mut i: usize = 0;
    while i < cs.len()
        invariant
            i <= cs@.len(),
            s@ == cs@.subrange(0, i as int),
        decreases cs@.len() - i,
    {
        push_char(&mut s, cs[i]);
        proof {
            assert(cs@.subrange(0, i + 1) =~= cs@.subrange(0, i as int).push(cs@[i as int]));
        }
        i = i + 1;
    }
    assert(cs@.subrange(0, cs@.len() as int) =~= cs@);
    s
}

/// Standard, padded base64 (RFC 4648) of `bytes`.
pub fn base64(bytes: &[u8]) -> (s: String)
    ensures
        s@ == b64_encode(bytes@),
        s@.len() == 4 * b64_groups(bytes@.len() as int),
        forall|g: int, p: int|
            0 <= g < b64_groups(bytes@.len() as int) && 0 <= p < 4 ==> #[trigger] s@[4 * g + p]
                == b64_char(bytes@, g, p),
{
    let n = bytes.len();
    let groups = n / 3 + if n % 3 == 0 {
        0
    } else {
        1
    };
    assert(groups == b64_groups(n as int));
    let mut out: Vec<char> = Vec::new();
    let mut g: usize = 0;
    while g < groups
        invariant
            n == bytes@.len(),
            groups == b64_groups(n as int),
            g <= groups,
            out@.len() == 4 * g,
            forall|gg: int, p: int|
                0 <= gg < g && 0 <= p < 4 ==> #[trigger] out@[4 * gg + p] == b64_char(
                    bytes@,
                    gg,
                    p,
                ),
        decreases groups - g,
    {
        let i = 3 * g;
        let b0 = bytes[i] as u32;
        let b1: u32 = if i + 1 < n {
            bytes[i + 1] as u32
        } else {
            0
        };
        let b2: u32 = if i + 2 < n {
            bytes[i + 2] as u32
        } else {
            0
        };
        let v = b0 * 65536 + b1 * 256 + b2;
        assert(v == group24(bytes@, g as int));
        let ghost before = out@;
        out.push(symbol(v / 262144 % 64));
        out.push(symbol(v / 4096 % 64));
        out.push(
            if i + 1 < n {
                symbol(v / 64 % 64)
            } else {
                '='
            },
        );
        out.push(
            if i + 2 < n {
                symbol(v % 64)
            } else {
                '='
            },
        );
        proof {
            assert forall|gg: int, p: int| 0 <= gg < g + 1 && 0 <= p < 4 implies #[trigger] out@[4
                * gg + p] == b64_char(bytes@, gg, p) by {
                if gg < g {
                    assert(out@[4 * gg + p] == before[4 * gg + p]);
                }
            }
        }
        g = g + 1;
    }
    proof {
        assert forall|i: int| 0 <= i < out@.len() implies #[trigger] out@[i] == b64_encode(
            bytes@,
        )[i] by {
            assert(out@[4 * (i / 4) + i % 4] == b64_char(bytes@, i / 4, i % 4));
        }
        assert(out@ =~= b64_encode(bytes@));
    }
    string_from_chars(out.as_slice())
}

/// Name for the bytes that the `png` crate writes for an 8-bit RGBA image of `width` x
/// `height` with fast compression and the Sub filter, or `None` when it refuses to.
pub uninterp spec fn png_rgba8(rgba: Seq<u8>, width: u32, height: u32) -> Option<Seq<u8>>;

/// Encodes an 8-bit RGBA image as PNG with the `png` crate: `Encoder::new` on a byte vector,
/// `set_color(Rgba)`, `set_depth(Eight)`, `set_compression(Fast)`, `set_filter(Sub)`,
/// `write_header`, then `Writer::write_image_data`; the writer finishes the stream when it
/// is dropped. The contract claims that the outcome is determined by the arguments, and
/// that data of any length other than `4 * width * height` bytes is refused (the size check
/// at the top of `write_image_data`, which computes that size in `usize` and is exact only
/// while it fits, hence the `requires`).
#[verifier::external_body]
fn encode_png(rgba: &[u8], width: u32, height: u32) -> (r: Option<Vec<u8>>)
    requires
        4 * width * height <= usize::MAX,
    ensures
        match r {
            Some(v) => png_rgba8(rgba@, width, height) == Some(v@),
            None => png_rgba8(rgba@, width, height) is None,
        },
        rgba@.len() != 4 * width * height ==> r is None,
{
    let mut bytes = Vec::new();
    {
        let mut enc = png::Encoder::new(&mut bytes, width, height);
        enc.set_color(png::ColorType::Rgba);
        enc.set_depth(png::BitDepth::Eight);
        enc.set_compression(png::Compression::Fast);
        enc.set_filter(png::FilterType::Sub);
        let mut writer = enc.write_header().ok()?;
        writer.write_image_data(rgba).ok()?;
    }
    Some(bytes)
}

/// Prefix of the preview's data URL.
pub open spec fn data_url_prefix() -> Seq<char> {
    "data:image/png;base64,"@
}

/// The preview as a `data:` URL: the PNG of the `width` x `height` RGBA image, base64
/// encoded behind `data:image/png;base64,`. `None` when the PNG encoder refuses the image.
pub fn png_data_url(rgba: &[u8], width: u32, height: u32) -> (r: Option<String>)
    requires
        4 * width * height <= usize::MAX,
    ensures
        png_rgba8(rgba@, width, height) is None <==> r is None,
        r matches Some(url) ==> ({
            let png = png_rgba8(rgba@, width, height).unwrap();
            &&& url@.len() == data_url_prefix().len() + 4 * b64_groups(png.len() as int)
            &&& url@.subrange(0, data_url_prefix().len() as int) == data_url_prefix()
            &&& forall|g: int, p: int|
                0 <= g < b64_groups(png.len() as int) && 0 <= p < 4 ==> #[trigger] url@[data_url_prefix().len() + 4 * g + p]
                    == b64_char(png, g, p)
        }),
{
    let png = encode_png(rgba, width, height)?;
    let body = base64(png.as_slice());
    let prefix = String::from_str("data:image/png;base64,");
    let url = prefix.concat(body.as_str());
    proof {
        let k = data_url_prefix().len() as int;
        assert(url@.subrange(0, k) =~= data_url_prefix());
        assert forall|g: int, p: int|
            0 <= g < b64_groups(png@.len() as int) && 0 <= p < 4 implies #[trigger] url@[k + 4 * g + p]
            == b64_char(png@, g, p) by {
            assert(url@[k + 4 * g + p] == body@[4 * g + p]);
        }
    }
    Some(url)
}

} // verus!
