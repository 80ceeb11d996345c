//! The integer layout of a compressed rotation: the index of the largest
//! component in the top two bits, then the three other components, scaled to
//! ten bits each. Scaling the components is floating-point work that the
//! application does.
use vstd::prelude::*;

verus! {

/// The largest value that ten bits hold.
pub const TEN_BITS_MAX: u32 = 0x3FF;

/// The packed word of a rotation whose largest component is at
/// `largest_index`, the others scaled to `a`, `b` and `c`.
pub open spec fn packed(largest_index: u32, a: u16, b: u16, c: u16) -> int {
    largest_index * 0x4000_0000 + a * 0x10_0000 + b * 0x400 + c
}

/// Packs the index of the largest component and the three scaled others
/// into one word.
pub fn pack_quaternion(largest_index: u32, a: u16, b: u16, c: u16) -> (r: u32)
    requires
        largest_index < 4,
        a <= TEN_BITS_MAX,
        b <= TEN_BITS_MAX,
        c <= TEN_BITS_MAX,
    ensures
        r == packed(largest_index, a, b, c),
{
    let a32 = a as u32;
    let b32 = b as u32;
    let c32 = c as u32;
    let r = (largest_index << 30u32) | (a32 << 20u32) | (b32 << 10u32) | c32;
    assert(r == largest_index * 0x4000_0000 + a32 * 0x10_0000 + b32 * 0x400 + c32) by (bit_vector)
        requires
            largest_index < 4,
            a32 <= 0x3FF,
            b32 <= 0x3FF,
            c32 <= 0x3FF,
            r == (largest_index << 30u32) | (a32 << 20u32) | (b32 << 10u32) | c32,
    ;
    r
}

/// Splits a packed word into the index of the largest component and the
/// three scaled others.
pub fn unpack_quaternion(data: u32) -> (r: (usize, u16, u16, u16))
    ensures
        r.0 < 4,
        r.1 <= TEN_BITS_MAX,
        r.2 <= TEN_BITS_MAX,
        r.3 <= TEN_BITS_MAX,
        data == packed(r.0 as u32, r.1, r.2, r.3),
{
    let c = data & TEN_BITS_MAX;
    let b = (data >> 10u32) & TEN_BITS_MAX;
    let a = (data >> 20u32) & TEN_BITS_MAX;
    let i = data >> 30u32;
    assert(i < 4 && a <= 0x3FF && b <= 0x3FF && c <= 0x3FF && data == i * 0x4000_0000 + a * 0x10_0000
        + b * 0x400 + c) by (bit_vector)
        requires
            c == data & 0x3FF,
            b == (data >> 10u32) & 0x3FF,
            a == (data >> 20u32) & 0x3FF,
            i == data >> 30u32,
    ;
    (i as usize, a as u16, b as u16, c as u16)
}

/// Law: a packed rotation unpacks to the index and the three scaled
/// components that were packed.
pub proof fn lemma_quaternion_roundtrip(largest_index: u32, a: u16, b: u16, c: u16, i2: u32, a2: u16, b2: u16, c2: u16)
    requires
        largest_index < 4,
        a <= TEN_BITS_MAX,
        b <= TEN_BITS_MAX,
        c <= TEN_BITS_MAX,
        i2 < 4,
        a2 <= TEN_BITS_MAX,
        b2 <= TEN_BITS_MAX,
        c2 <= TEN_BITS_MAX,
        packed(largest_index, a, b, c) == packed(i2, a2, b2, c2),
    ensures
        largest_index == i2,
        a == a2,
        b == b2,
        c == c2,
{
}

} // verus!
