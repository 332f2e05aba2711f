//! Webcam lid tracking, the integer parts: box-downsampling a luma plane to the analysis grid,
//! and the encoding of the tracked tilt into a window message.
use vstd::prelude::*;

verus! {

/// Analysis frame width.
pub const SW: usize = 64;

/// Analysis frame height.
pub const SH: usize = 48;

/// Added to the tilt (centi-degrees) in the message word, so that small negative tilts fit.
pub const OFFSET: usize = 100_000;

/// `y[start] + y[start + step] + ... `, `n` samples.
pub open spec fn run_sum(y: Seq<u8>, start: int, step: int, n: int) -> int
    decreases n,
{
    if n <= 0 {
        0
    } else {
        run_sum(y, start, step, n - 1) + y[start + (n - 1) * step] as int
    }
}

/// Sum of the luma samples in the first `rows` rows of analysis cell (`oy`, `ox`), whose
/// cells are `bw` x `bh` samples; rows lie `stride` bytes apart and samples `step` bytes apart.
pub open spec fn cell_sum(
    y: Seq<u8>,
    stride: int,
    step: int,
    bw: int,
    bh: int,
    oy: int,
    ox: int,
    rows: int,
) -> int
    decreases rows,
{
    if rows <= 0 {
        0
    } else {
        cell_sum(y, stride, step, bw, bh, oy, ox, rows - 1) + run_sum(
            y,
            (oy * bh + rows - 1) * stride + ox * bw * step,
            step,
            bw,
        )
    }
}

/// Sums the luma plane `y` (`w` x `h` samples; rows `stride` bytes apart, samples `step` bytes
/// apart) over a `SW` x `SH` grid of equal cells, row by row. `None` when the frame is smaller
/// than the grid; the caller then keeps its previous analysis frame.
pub fn box_sums(y: &[u8], stride: usize, step: usize, w: usize, h: usize) -> (r: Option<Vec<u32>>)
    requires
        step >= 1,
        w * step <= stride,
        stride * h <= y@.len(),
        (w / SW) * (h / SH) * 255 <= u32::MAX,
    ensures
        r is None <==> (w / SW == 0 || h / SH == 0),
        r matches Some(out) ==> {
            &&& out@.len() == SW * SH
            &&& forall|oy: int, ox: int|
                0 <= oy < SH && 0 <= ox < SW ==> #[trigger] out@[oy * SW + ox] == cell_sum(
                    y@,
                    stride as int,
                    step as int,
                    (w / SW) as int,
                    (h / SH) as int,
                    oy,
                    ox,
                    (h / SH) as int,
                )
        },
{
    let bw = w / SW;
    let bh = h / SH;
    if bw == 0 || bh == 0 {
        return None;
    }
    let ghost len = y@.len() as int;
    let ylen = y.len();
    let mut out: Vec<u32> = Vec::new();
    let mut oy: usize = 0;
    while oy < SH
        invariant
            bw == w / SW,
            bh == h / SH,
            bw >= 1 && bh >= 1,
            step >= 1,
            w * step <= stride,
            stride * h <= len,
            len == y@.len(),
            ylen == y@.len(),
            bw * bh * 255 <= u32::MAX,
            oy <= SH,
            out@.len() == oy * SW,
            forall|a: int, b: int|
                0 <= a < oy && 0 <= b < SW ==> #[trigger] out@[a * SW + b] == cell_sum(
                    y@,
                    stride as int,
                    step as int,
                    bw as int,
                    bh as int,
                    a,
                    b,
                    bh as int,
                ),
        decreases SH - oy,
    {
        let mut ox: usize = 0;
        while ox < SW
            invariant
                bw == w / SW,
                bh == h / SH,
                bw >= 1 && bh >= 1,
                step >= 1,
                w * step <= stride,
                stride * h <= len,
                len == y@.len(),
                ylen == y@.len(),
                bw * bh * 255 <= u32::MAX,
                oy < SH,
                ox <= SW,
                out@.len() == oy * SW + ox,
                forall|a: int, b: int|
                    (0 <= a < oy && 0 <= b < SW) || (a == oy && 0 <= b < ox) ==> #[trigger] out@[a
                        * SW + b] == cell_sum(
                        y@,
                        stride as int,
                        step as int,
                        bw as int,
                        bh as int,
                        a,
                        b,
                        bh as int,
                    ),
            decreases SW - ox,
        {
            let mut acc: u32 = 0;
            let mut yy: usize = 0;
            while yy < bh
                invariant
                    bw == w / SW,
                    bh == h / SH,
                    bw >= 1 && bh >= 1,
                    step >= 1,
                    w * step <= stride,
                    stride * h <= len,
                    len == y@.len(),
                    ylen == y@.len(),
                    bw * bh * 255 <= u32::MAX,
                    oy < SH,
                    ox < SW,
                    yy <= bh,
                    acc == cell_sum(
                        y@,
                        stride as int,
                        step as int,
                        bw as int,
                        bh as int,
                        oy as int,
                        ox as int,
                        yy as int,
                    ),
                    acc <= 255 * bw * yy,
                decreases bh - yy,
            {
                proof {
                    lemma_cell_index(
                        w as int,
                        h as int,
                        stride as int,
                        step as int,
                        bw as int,
                        bh as int,
                        oy as int,
                        ox as int,
                        yy as int,
                        len,
                    );
                }
                let row = oy * bh + yy;
                let start = row * stride + ox * bw * step;
                let mut idx = start;
                let mut k: usize = 0;
                let ghost base = acc as int;
                while k < bw
                    invariant
                        bw >= 1,
                        step >= 1,
                        k <= bw,
                        idx == start + k * step,
                        start + bw * step <= len,
                        len == y@.len(),
                        bw * bh * 255 <= u32::MAX,
                        yy < bh,
                        acc == base + run_sum(y@, start as int, step as int, k as int),
                        base <= 255 * bw * yy,
                        acc <= base + 255 * k,
                    decreases bw - k,
                {
                    assert(idx < len) by (nonlinear_arith)
                        requires
                            idx == start + k * step,
                            k < bw,
                            step >= 1,
                            start + bw * step <= len,
                    ;
                    assert(base + 255 * (k + 1) <= bw * bh * 255) by (nonlinear_arith)
                        requires
                            base <= 255 * bw * yy,
                            k < bw,
                            yy < bh,
                    ;
                    acc = acc + y[idx] as u32;
                    assert(idx + step <= start + bw * step) by (nonlinear_arith)
                        requires
                            idx == start + k * step,
                            k < bw,
                    ;
                    idx = idx + step;
                    k = k + 1;
                    assert(idx == start + k * step) by (nonlinear_arith)
                        requires
                            idx == start + (k - 1) * step + step,
                    ;
                }
                assert(acc <= 255 * bw * (yy + 1)) by (nonlinear_arith)
                    requires
                        acc <= base + 255 * bw,
                        base <= 255 * bw * yy,
                ;
                yy = yy + 1;
            }
            let ghost before = out@;
            out.push(acc);
            proof {
                assert(oy * SW + ox == before.len());
                assert forall|a: int, b: int|
                    (0 <= a < oy && 0 <= b < SW) || (a == oy && 0 <= b < ox + 1) implies #[trigger] out@[a
                    * SW + b] == cell_sum(
                    y@,
                    stride as int,
                    step as int,
                    bw as int,
                    bh as int,
                    a,
                    b,
                    bh as int,
                ) by {
                    if a == oy && b == ox {
                    } else {
                        assert(a * SW + b < oy * SW + ox) by (nonlinear_arith)
                            requires
                                (0 <= a < oy && 0 <= b < SW) || (a == oy && 0 <= b < ox),
                        ;
                        assert(out@[a * SW + b] == before[a * SW + b]);
                    }
                }
            }
            ox = ox + 1;
        }
        oy = oy + 1;
    }
    Some(out)
}

/// The samples of row `yy` of cell (`oy`, `ox`) lie inside the plane.
proof fn lemma_cell_index(
    w: int,
    h: int,
    stride: int,
    step: int,
    bw: int,
    bh: int,
    oy: int,
    ox: int,
    yy: int,
    len: int,
)
    requires
        bw == w / (SW as int),
        bh == h / (SH as int),
        bw >= 1,
        bh >= 1,
        step >= 1,
        w * step <= stride,
        stride * h <= len,
        0 <= oy < SH,
        0 <= ox < SW,
        0 <= yy < bh,
        len <= usize::MAX,
    ensures
        oy * bh + yy < h,
        0 <= ox * bw <= w,
        (oy * bh + yy) * stride + ox * bw * step + bw * step <= len,
        (oy * bh + yy) * stride + ox * bw * step + bw * step <= len + step,
        0 <= oy * bh + yy,
{
    assert(SH * bh <= h) by (nonlinear_arith)
        requires
            bh == h / 48,
            h >= 0,
    ;
    assert(SW * bw <= w) by (nonlinear_arith)
        requires
            bw == w / 64,
            w >= 0,
    ;
    assert(oy * bh + yy < h) by (nonlinear_arith)
        requires
            0 <= oy < 48,
            0 <= yy < bh,
            48 * bh <= h,
    ;
    assert((oy * bh + yy) * stride + (ox * bw + bw) * step <= len) by (nonlinear_arith)
        requires
            0 <= oy * bh + yy < h,
            0 <= ox < 64,
            64 * bw <= w,
            w * step <= stride,
            stride * h <= len,
            step >= 1,
            bw >= 1,
    ;
    assert(ox * bw * step + bw * step == (ox * bw + bw) * step) by (nonlinear_arith);
    assert(0 <= ox * bw <= w) by (nonlinear_arith)
        requires
            0 <= ox < 64,
            64 * bw <= w,
            bw >= 1,
    ;
}

/// The message word that carries a tilt of `centi` centi-degrees: shifted up by `OFFSET`,
/// and 0 for anything further below.
pub open spec fn tilt_word_spec(centi: int) -> usize {
    if centi + OFFSET < 0 {
        0
    } else {
        (centi + OFFSET) as usize
    }
}

/// Encodes a tilt in centi-degrees as a message word.
pub fn tilt_word(centi: isize) -> (w: usize)
    requires
        centi + OFFSET <= isize::MAX,
    ensures
        w == tilt_word_spec(centi as int),
{
    let v = centi + OFFSET as isize;
    if v < 0 {
        0
    } else {
        v as usize
    }
}

/// Decodes the tilt in centi-degrees that a message word carries.
pub fn word_tilt(w: usize) -> (centi: isize)
    requires
        w <= isize::MAX,
    ensures
        centi == w - OFFSET,
{
    w as isize - OFFSET as isize
}

/// A tilt survives the message when it is not more than `OFFSET` centi-degrees negative.
pub proof fn tilt_word_round_trip(centi: int)
    requires
        -(OFFSET as int) <= centi,
        centi + OFFSET <= isize::MAX,
    ensures
        tilt_word_spec(centi) - OFFSET == centi,
{
}

} // verus!
