//! Hashes of names that stay the same on every machine and in every run:
//! 32-bit FNV-1a over the name's bytes, folded to 16 bits for message ids
//! and cut to 16 bits for remote-call ids.
use vstd::prelude::*;
use vstd::utf8::encode_utf8;

verus! {

pub open spec fn fnv_offset_basis() -> u32 {
    0x811c_9dc5
}

pub open spec fn fnv_prime() -> u32 {
    0x0100_0193
}

/// One FNV-1a step: mix in a byte, then multiply modulo `2^32`.
pub open spec fn fnv_step(h: u32, b: u8) -> u32 {
    (((h ^ (b as u32)) as int * fnv_prime() as int) % 0x1_0000_0000) as u32
}

/// The 32-bit FNV-1a hash of `bytes`.
pub open spec fn fnv1a(bytes: Seq<u8>) -> u32
    decreases bytes.len(),
{
    if bytes.len() == 0 {
        fnv_offset_basis()
    } else {
        fnv_step(fnv1a(bytes.drop_last()), bytes.last())
    }
}

/// A 32-bit hash folded to 16 bits: the high half xor the low half.
pub open spec fn fold16(h: u32) -> u16 {
    ((h >> 16u32) ^ h) as u16
}

/// The id of a message type with the given full name.
pub open spec fn spec_hash16(name: Seq<char>) -> u16 {
    fold16(fnv1a(encode_utf8(name)))
}

/// The id of a remote call with the given full name.
pub open spec fn spec_fn_hash(name: Seq<char>) -> u16 {
    (fnv1a(encode_utf8(name)) % 0x1_0000) as u16
}

/// The 32-bit FNV-1a hash of a name's UTF-8 bytes.
pub fn stable_hash(name: &str) -> (r: u32)
    ensures
        r == fnv1a(encode_utf8(name@)),
{
    let bytes = name.as_bytes();
    let n = bytes.len();
    let mut h: u32 = 0x811c_9dc5;
    let mut i: usize = 0;
    assert(bytes@.subrange(0, 0) =~= Seq::<u8>::empty());
    while i < n
        invariant
            n == bytes@.len(),
            bytes@ == encode_utf8(name@),
            i <= n,
            h == fnv1a(bytes@.subrange(0, i as int)),
        decreases n - i,
    {
        let mixed: u32 = h ^ (bytes[i] as u32);
        h = ((mixed as u64 * 0x0100_0193u64) % 0x1_0000_0000u64) as u32;
        i = i + 1;
        assert(bytes@.subrange(0, i as int).drop_last() =~= bytes@.subrange(0, i - 1));
    }
    assert(bytes@.subrange(0, n as int) =~= bytes@);
    h
}

/// The 16-bit id of a message type: its stable hash folded to 16 bits.
pub fn hash16(name: &str) -> (r: u16)
    ensures
        r == spec_hash16(name@),
{
    let h = stable_hash(name);
    ((h >> 16u32) ^ h) as u16
}

/// The 16-bit id of a remote call: the low half of its stable hash.
pub fn fn_hash(name: &str) -> (r: u16)
    ensures
        r == spec_fn_hash(name@),
{
    let h = stable_hash(name);
    (h % 0x1_0000) as u16
}

} // verus!
