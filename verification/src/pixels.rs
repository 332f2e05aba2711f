//! Pixel conversions between the GPU's BGRA layout and the RGBA layout that PNG expects.
use vstd::prelude::*;

verus! {

/// The RGBA pixel that a BGRA pixel `px` (four bytes) becomes: red and blue swap, alpha is opaque.
pub open spec fn swizzled(px: Seq<u8>) -> Seq<u8> {
    seq![px[2], px[1], px[0], 255u8]
}

/// Number of whole pixels shared by a source row of `a` bytes and a destination of `b` bytes.
pub open spec fn whole_pixels(a: int, b: int) -> int {
    if a / 4 <= b / 4 { a / 4 } else { b / 4 }
}

/// Converts BGRA pixels of `row` into opaque RGBA pixels in `out`, pixel by pixel, for as
/// many whole pixels as both slices hold; the bytes of `out` past them are left alone.
pub fn bgra_row(row: &[u8], out: &mut [u8])
    ensures
        final(out)@.len() == old(out)@.len(),
        forall|i: int|
            0 <= i < whole_pixels(row@.len() as int, old(out)@.len() as int)
                ==> #[trigger] final(out)@.subrange(4 * i, 4 * i + 4)
                == swizzled(row@.subrange(4 * i, 4 * i + 4)),
        forall|j: int|
            4 * whole_pixels(row@.len() as int, old(out)@.len() as int) <= j < old(out)@.len()
                ==> #[trigger] final(out)@[j] == old(out)@[j],
{
    let n = if row.len() / 4 <= out.len() / 4 { row.len() / 4 } else { out.len() / 4 };
    let mut i: usize = 0;
    assert(4 * n <= row@.len() && 4 * n <= out@.len()) by (nonlinear_arith)
        requires
            n == row@.len() / 4 || n == out@.len() / 4,
            n <= row@.len() / 4,
            n <= out@.len() / 4;
    while i < n
        invariant
            n == whole_pixels(row@.len() as int, old(out)@.len() as int),
            i <= n,
            4 * n <= row@.len(),
            row@.len() <= usize::MAX,
            4 * n <= out@.len(),
            out@.len() == old(out)@.len(),
            forall|k: int|
                0 <= k < i ==> #[trigger] out@.subrange(4 * k, 4 * k + 4) == swizzled(
                    row@.subrange(4 * k, 4 * k + 4),
                ),
            forall|j: int| 4 * i <= j < out@.len() ==> #[trigger] out@[j] == old(out)@[j],
        decreases n - i,
    {
        let ghost before = out@;
        let b = row[4 * i];
        let g = row[4 * i + 1];
        let r = row[4 * i + 2];
        out[4 * i] = r;
        out[4 * i + 1] = g;
        out[4 * i + 2] = b;
        out[4 * i + 3] = 255;
        assert(out@.subrange(4 * i as int, 4 * i + 4) =~= swizzled(
            row@.subrange(4 * i as int, 4 * i + 4),
        ));
        assert forall|k: int| 0 <= k < i implies #[trigger] out@.subrange(4 * k, 4 * k + 4)
            == swizzled(row@.subrange(4 * k, 4 * k + 4)) by {
            assert(out@.subrange(4 * k, 4 * k + 4) =~= before.subrange(4 * k, 4 * k + 4));
        }
        i = i + 1;
    }
}

/// Packs `h` rows of `w` BGRA pixels, which start `pitch` bytes apart in `mapped` (a mapped
/// GPU staging texture), into tightly packed opaque RGBA.
pub fn pack_rows(mapped: &[u8], pitch: usize, w: u32, h: u32) -> (out: Vec<u8>)
    requires
        w >= 1,
        h >= 1 ==> (h - 1) * pitch + 4 * w <= mapped@.len(),
        4 * w * h <= usize::MAX,
    ensures
        out@.len() == 4 * w * h,
        forall|y: int, x: int, c: int|
            0 <= y < h && 0 <= x < w && 0 <= c < 4 ==> #[trigger] out@[4 * (y * w + x) + c] == (
            if c == 3 {
                255u8
            } else {
                mapped@[y * pitch + 4 * x + (2 - c)]
            }),
{
    let w = w as usize;
    let h = h as usize;
    let mlen = mapped.len();
    let mut out: Vec<u8> = Vec::new();
    let mut y: usize = 0;
    while y < h
        invariant
            mlen == mapped@.len(),
            w >= 1,
            y <= h,
            h >= 1 ==> (h - 1) * pitch + 4 * w <= mapped@.len(),
            4 * w * h <= usize::MAX,
            out@.len() == 4 * w * y,
            forall|yy: int, x: int, c: int|
                0 <= yy < y && 0 <= x < w && 0 <= c < 4 ==> #[trigger] out@[4 * (yy * w + x) + c]
                    == (if c == 3 {
                    255u8
                } else {
                    mapped@[yy * pitch + 4 * x + (2 - c)]
                }),
        decreases h - y,
    {
        assert(y * pitch + 4 * w <= mapped@.len()) by (nonlinear_arith)
            requires
                y < h,
                (h - 1) * pitch + 4 * w <= mapped@.len(),
        ;
        assert(4 * w * (y + 1) <= 4 * w * h) by (nonlinear_arith)
            requires
                y < h,
        ;
        let base = y * pitch;
        let mut x: usize = 0;
        while x < w
            invariant
                mlen == mapped@.len(),
                w >= 1,
                y < h,
                x <= w,
                base == y * pitch,
                base + 4 * w <= mapped@.len(),
                4 * w * (y + 1) <= usize::MAX,
                out@.len() == 4 * w * y + 4 * x,
                forall|yy: int, xx: int, c: int|
                    ((0 <= yy < y && 0 <= xx < w) || (yy == y && 0 <= xx < x)) && 0 <= c < 4
                        ==> #[trigger] out@[4 * (yy * w + xx) + c] == (if c == 3 {
                        255u8
                    } else {
                        mapped@[yy * pitch + 4 * xx + (2 - c)]
                    }),
            decreases w - x,
        {
            let i = base + 4 * x;
            let ghost before = out@;
            out.push(mapped[i + 2]);
            out.push(mapped[i + 1]);
            out.push(mapped[i]);
            out.push(255);
            proof {
                assert(4 * (y * w + x) == 4 * w * y + 4 * x) by (nonlinear_arith);
                assert forall|yy: int, xx: int, c: int|
                    ((0 <= yy < y && 0 <= xx < w) || (yy == y && 0 <= xx < x + 1)) && 0 <= c < 4
                    implies #[trigger] out@[4 * (yy * w + xx) + c] == (if c == 3 {
                    255u8
                } else {
                    mapped@[yy * pitch + 4 * xx + (2 - c)]
                }) by {
                    if yy == y && xx == x {
                    } else {
                        assert(4 * (yy * w + xx) + c < 4 * w * y + 4 * x) by (nonlinear_arith)
                            requires
                                (0 <= yy < y && 0 <= xx < w) || (yy == y && 0 <= xx < x),
                                0 <= c < 4,
                        ;
                        assert(out@[4 * (yy * w + xx) + c] == before[4 * (yy * w + xx) + c]);
                    }
                }
            }
            x = x + 1;
        }
        assert(4 * w * y + 4 * w == 4 * w * (y + 1)) by (nonlinear_arith);
        y = y + 1;
    }
    out
}

/// Colour layouts a decoded PNG can arrive in after normalising to 8 bits with alpha.
#[derive(Clone, Copy, Debug, PartialEq, Eq, Structural)]
pub enum DecodedColor {
    Rgba,
    GrayscaleAlpha,
    /// Any other layout, which the loader refuses.
    Other,
}

/// Bytes per source pixel of a supported layout.
pub open spec fn src_bpp(color: DecodedColor) -> int {
    if color is Rgba {
        4
    } else {
        2
    }
}

/// The opaque BGRA pixel a decoded pixel `s` becomes.
pub open spec fn to_bgra_px(color: DecodedColor, s: Seq<u8>) -> Seq<u8> {
    if color is Rgba {
        seq![s[2], s[1], s[0], 255u8]
    } else {
        seq![s[0], s[0], s[0], 255u8]
    }
}

/// Converts a decoded PNG of `w` x `h` pixels into a BGRA buffer of `4 * w * h` bytes: each
/// whole source pixel that fits becomes an opaque BGRA pixel, in order; the rest stay zero.
/// Other layouts are refused.
pub fn decoded_to_bgra(buf: &[u8], color: DecodedColor, w: u32, h: u32) -> (r: Option<Vec<u8>>)
    requires
        4 * w * h <= u32::MAX,
    ensures
        color is Other <==> r is None,
        r matches Some(out) ==> {
            let n = (buf@.len() as int) / src_bpp(color);
            &&& out@.len() == 4 * w * h
            &&& forall|i: int|
                0 <= i < w * h && i < n ==> #[trigger] out@.subrange(4 * i, 4 * i + 4) == to_bgra_px(
                    color,
                    buf@.subrange(src_bpp(color) * i, src_bpp(color) * i + src_bpp(color)),
                )
            &&& forall|j: int| 4 * n <= j < out@.len() ==> #[trigger] out@[j] == 0
        },
{
    if matches!(color, DecodedColor::Other) {
        return None;
    }
    assert(w * h <= 4 * w * h && 4 * (w * h) == 4 * w * h) by (nonlinear_arith);
    let pixels: usize = (w as usize) * (h as usize);
    let bpp: usize = if matches!(color, DecodedColor::Rgba) {
        4
    } else {
        2
    };
    let n = buf.len() / bpp;
    let mut out: Vec<u8> = Vec::new();
    let mut i: usize = 0;
    while i < pixels
        invariant
            !(color is Other),
            bpp == src_bpp(color),
            n == (buf@.len() as int) / src_bpp(color),
            pixels == w * h,
            4 * pixels <= u32::MAX,
            i <= pixels,
            out@.len() == 4 * i,
            forall|k: int|
                0 <= k < i && k < n ==> #[trigger] out@.subrange(4 * k, 4 * k + 4) == to_bgra_px(
                    color,
                    buf@.subrange(bpp * k, bpp * k + bpp),
                ),
            forall|j: int| 4 * n <= j < out@.len() ==> #[trigger] out@[j] == 0,
        decreases pixels - i,
    {
        let ghost before = out@;
        if i < n {
            assert(bpp * i + bpp <= buf@.len()) by (nonlinear_arith)
                requires
                    i < n,
                    n == (buf@.len() as int) / (bpp as int),
                    bpp == 2 || bpp == 4,
            ;
            let s = bpp * i;
            if bpp == 4 {
                out.push(buf[s + 2]);
                out.push(buf[s + 1]);
                out.push(buf[s]);
            } else {
                out.push(buf[s]);
                out.push(buf[s]);
                out.push(buf[s]);
            }
            out.push(255);
            assert(out@.subrange(4 * i as int, 4 * i + 4) =~= to_bgra_px(
                color,
                buf@.subrange(bpp * i as int, bpp * i + bpp),
            ));
        } else {
            out.push(0);
            out.push(0);
            out.push(0);
            out.push(0);
        }
        assert forall|k: int|
            0 <= k < i + 1 && k < n implies #[trigger] out@.subrange(4 * k, 4 * k + 4) == to_bgra_px(
            color,
            buf@.subrange(bpp * k, bpp * k + bpp),
        ) by {
            if k < i {
                assert(out@.subrange(4 * k, 4 * k + 4) =~= before.subrange(4 * k, 4 * k + 4));
            }
        }
        i = i + 1;
    }
    Some(out)
}

} // verus!
