//! Accelerometer readings travel to the message window packed into one word: x, y and z in
//! milli-g as three signed 16-bit fields, x in the low bits.
use vstd::prelude::*;

verus! {

/// The word that carries `x`, `y` and `z` (milli-g): each as its 16-bit two's complement
/// pattern, x in bits 0..16, y in bits 16..32, z in bits 32..48.
pub open spec fn packed(x: i16, y: i16, z: i16) -> u64 {
    (x as u16 as u64) | ((y as u16 as u64) << 16u64) | ((z as u16 as u64) << 32u64)
}

/// The signed 16-bit field of `w` that starts at bit `shift`.
pub open spec fn field(w: u64, shift: u64) -> i16 {
    ((w >> shift) & 0xffff) as u16 as i16
}

/// Packs an accelerometer reading (milli-g per axis) into one message word.
pub fn pack_milli_g(x: i16, y: i16, z: i16) -> (w: u64)
    ensures
        w == packed(x, y, z),
{
    (x as u16 as u64) | ((y as u16 as u64) << 16u64) | ((z as u16 as u64) << 32u64)
}

/// Unpacks the three milli-g fields of a message word.
pub fn unpack_milli_g(w: u64) -> (r: (i16, i16, i16))
    ensures
        r == (field(w, 0), field(w, 16), field(w, 32)),
{
    (((w >> 0u64) & 0xffff) as u16 as i16, ((w >> 16u64) & 0xffff) as u16 as i16, ((w >> 32u64)
        & 0xffff) as u16 as i16)
}

/// Unpacking a packed reading gives the reading back.
pub proof fn unpack_inverts_pack(x: i16, y: i16, z: i16)
    ensures
        field(packed(x, y, z), 0) == x,
        field(packed(x, y, z), 16) == y,
        field(packed(x, y, z), 32) == z,
{
    let a = x as u16;
    let b = y as u16;
    let c = z as u16;
    let w = packed(x, y, z);
    assert(w == (a as u64) | ((b as u64) << 16u64) | ((c as u64) << 32u64));
    assert(((w >> 0u64) & 0xffff) == a as u64 && ((w >> 16u64) & 0xffff) == b as u64 && ((w
        >> 32u64) & 0xffff) == c as u64) by (bit_vector)
        requires
            w == (a as u64) | ((b as u64) << 16u64) | ((c as u64) << 32u64),
    ;
    assert((x as u16) as i16 == x) by (bit_vector);
    assert((y as u16) as i16 == y) by (bit_vector);
    assert((z as u16) as i16 == z) by (bit_vector);
}

} // verus!
