//! Fixed-size values that are copied to and from the wire byte for byte,
//! in little-endian order.
use crate::le_bytes::{
    decode_le, encode_le, le_bytes, le_value, lemma_le_bytes_len, lemma_le_roundtrip,
    lemma_le_value_bound, lemma_pow256_table, pow256,
};
use vstd::prelude::*;

verus! {

/// A value with a fixed-size little-endian image.
pub trait Blittable: Sized {
    /// Number of bytes of the image.
    spec fn byte_size() -> nat;

    /// The image of a value.
    spec fn spec_to_bytes(&self) -> Seq<u8>;

    /// The value that an image of `byte_size()` bytes denotes.
    spec fn spec_from_bytes(bytes: Seq<u8>) -> Self;

    /// The value that an image of zero bytes denotes.
    spec fn spec_zero() -> Self;

    fn size() -> (r: usize)
        ensures
            r as nat == Self::byte_size(),
            1 <= r <= 8,
    ;

    fn to_le(&self) -> (r: Vec<u8>)
        ensures
            r@ == self.spec_to_bytes(),
    ;

    fn from_le(bytes: &[u8]) -> (r: Self)
        requires
            bytes@.len() == Self::byte_size(),
        ensures
            r == Self::spec_from_bytes(bytes@),
    ;

    fn zero() -> (r: Self)
        ensures
            r == Self::spec_zero(),
    ;

    /// The image has `byte_size()` bytes and denotes the value again.
    proof fn lemma_image(v: Self)
        ensures
            v.spec_to_bytes().len() == Self::byte_size(),
            Self::spec_from_bytes(v.spec_to_bytes()) == v,
            1 <= Self::byte_size() <= 8,
    ;

    /// The all-zero image denotes the zero value.
    proof fn lemma_zero_image()
        ensures
            Self::spec_from_bytes(Seq::new(Self::byte_size(), |i: int| 0u8)) == Self::spec_zero(),
    ;
}

/// `n` zero bytes.
pub open spec fn zeros(n: nat) -> Seq<u8> {
    Seq::new(n, |i: int| 0u8)
}

pub proof fn lemma_le_value_zeros(n: nat)
    ensures
        le_value(zeros(n)) == 0,
    decreases n,
{
    if n > 0 {
        assert(zeros(n).drop_first() =~= zeros((n - 1) as nat));
        lemma_le_value_zeros((n - 1) as nat);
    }
}

proof fn lemma_unsigned_image(v: nat, n: nat)
    requires
        v < pow256(n),
    ensures
        le_bytes(v, n).len() == n,
        le_value(le_bytes(v, n)) == v,
{
    lemma_le_bytes_len(v, n);
    lemma_le_roundtrip(v, n);
}

impl Blittable for u8 {
    open spec fn byte_size() -> nat {
        1
    }

    open spec fn spec_to_bytes(&self) -> Seq<u8> {
        le_bytes(*self as nat, 1)
    }

    open spec fn spec_from_bytes(bytes: Seq<u8>) -> u8 {
        le_value(bytes) as u8
    }

    open spec fn spec_zero() -> u8 {
        0
    }

    fn size() -> usize {
        1
    }

    fn to_le(&self) -> Vec<u8> {
        encode_le(*self as u64, 1)
    }

    fn from_le(bytes: &[u8]) -> u8 {
        proof {
            lemma_le_value_bound(bytes@);
            lemma_pow256_table();
        }
        decode_le(bytes) as u8
    }

    fn zero() -> u8 {
        0
    }

    proof fn lemma_image(v: u8) {
        lemma_pow256_table();
        lemma_unsigned_image(v as nat, 1);
    }

    proof fn lemma_zero_image() {
        lemma_le_value_zeros(1);
    }
}

impl Blittable for u16 {
    open spec fn byte_size() -> nat {
        2
    }

    open spec fn spec_to_bytes(&self) -> Seq<u8> {
        le_bytes(*self as nat, 2)
    }

    open spec fn spec_from_bytes(bytes: Seq<u8>) -> u16 {
        le_value(bytes) as u16
    }

    open spec fn spec_zero() -> u16 {
        0
    }

    fn size() -> usize {
        2
    }

    fn to_le(&self) -> Vec<u8> {
        encode_le(*self as u64, 2)
    }

    fn from_le(bytes: &[u8]) -> u16 {
        proof {
            lemma_le_value_bound(bytes@);
            lemma_pow256_table();
        }
        decode_le(bytes) as u16
    }

    fn zero() -> u16 {
        0
    }

    proof fn lemma_image(v: u16) {
        lemma_pow256_table();
        lemma_unsigned_image(v as nat, 2);
    }

    proof fn lemma_zero_image() {
        lemma_le_value_zeros(2);
    }
}

impl Blittable for u32 {
    open spec fn byte_size() -> nat {
        4
    }

    open spec fn spec_to_bytes(&self) -> Seq<u8> {
        le_bytes(*self as nat, 4)
    }

    open spec fn spec_from_bytes(bytes: Seq<u8>) -> u32 {
        le_value(bytes) as u32
    }

    open spec fn spec_zero() -> u32 {
        0
    }

    fn size() -> usize {
        4
    }

    fn to_le(&self) -> Vec<u8> {
        encode_le(*self as u64, 4)
    }

    fn from_le(bytes: &[u8]) -> u32 {
        proof {
            lemma_le_value_bound(bytes@);
            lemma_pow256_table();
        }
        decode_le(bytes) as u32
    }

    fn zero() -> u32 {
        0
    }

    proof fn lemma_image(v: u32) {
        lemma_pow256_table();
        lemma_unsigned_image(v as nat, 4);
    }

    proof fn lemma_zero_image() {
        lemma_le_value_zeros(4);
    }
}

impl Blittable for u64 {
    open spec fn byte_size() -> nat {
        8
    }

    open spec fn spec_to_bytes(&self) -> Seq<u8> {
        le_bytes(*self as nat, 8)
    }

    open spec fn spec_from_bytes(bytes: Seq<u8>) -> u64 {
        le_value(bytes) as u64
    }

    open spec fn spec_zero() -> u64 {
        0
    }

    fn size() -> usize {
        8
    }

    fn to_le(&self) -> Vec<u8> {
        encode_le(*self, 8)
    }

    fn from_le(bytes: &[u8]) -> u64 {
        decode_le(bytes)
    }

    fn zero() -> u64 {
        0
    }

    proof fn lemma_image(v: u64) {
        lemma_pow256_table();
        lemma_unsigned_image(v as nat, 8);
    }

    proof fn lemma_zero_image() {
        lemma_le_value_zeros(8);
    }
}

/// The two's-complement image of a signed value in `n` bytes.
pub open spec fn twos_complement(v: int, n: nat) -> nat {
    if v >= 0 {
        v as nat
    } else {
        (v + pow256(n)) as nat
    }
}

/// The signed value that an unsigned `n`-byte number denotes.
pub open spec fn from_twos_complement(u: nat, n: nat) -> int {
    if u < pow256(n) / 2 {
        u as int
    } else {
        u - pow256(n)
    }
}

impl Blittable for i8 {
    open spec fn byte_size() -> nat {
        1
    }

    open spec fn spec_to_bytes(&self) -> Seq<u8> {
        le_bytes(twos_complement(*self as int, 1), 1)
    }

    open spec fn spec_from_bytes(bytes: Seq<u8>) -> i8 {
        from_twos_complement(le_value(bytes), 1) as i8
    }

    open spec fn spec_zero() -> i8 {
        0
    }

    fn size() -> usize {
        1
    }

    fn to_le(&self) -> Vec<u8> {
        proof {
            lemma_pow256_table();
        }
        let u: u64 = if *self >= 0 {
            *self as u64
        } else {
            (*self as i64 + 256) as u64
        };
        encode_le(u, 1)
    }

    fn from_le(bytes: &[u8]) -> i8 {
        proof {
            lemma_le_value_bound(bytes@);
            lemma_pow256_table();
        }
        let u = decode_le(bytes);
        if u < 128 {
            u as i8
        } else {
            (u as i64 - 256) as i8
        }
    }

    fn zero() -> i8 {
        0
    }

    proof fn lemma_image(v: i8) {
        lemma_pow256_table();
        lemma_unsigned_image(twos_complement(v as int, 1), 1);
    }

    proof fn lemma_zero_image() {
        lemma_le_value_zeros(1);
        lemma_pow256_table();
    }
}

impl Blittable for i16 {
    open spec fn byte_size() -> nat {
        2
    }

    open spec fn spec_to_bytes(&self) -> Seq<u8> {
        le_bytes(twos_complement(*self as int, 2), 2)
    }

    open spec fn spec_from_bytes(bytes: Seq<u8>) -> i16 {
        from_twos_complement(le_value(bytes), 2) as i16
    }

    open spec fn spec_zero() -> i16 {
        0
    }

    fn size() -> usize {
        2
    }

    fn to_le(&self) -> Vec<u8> {
        proof {
            lemma_pow256_table();
        }
        let u: u64 = if *self >= 0 {
            *self as u64
        } else {
            (*self as i64 + 65536) as u64
        };
        encode_le(u, 2)
    }

    fn from_le(bytes: &[u8]) -> i16 {
        proof {
            lemma_le_value_bound(bytes@);
            lemma_pow256_table();
        }
        let u = decode_le(bytes);
        if u < 32768 {
            u as i16
        } else {
            (u as i64 - 65536) as i16
        }
    }

    fn zero() -> i16 {
        0
    }

    proof fn lemma_image(v: i16) {
        lemma_pow256_table();
        lemma_unsigned_image(twos_complement(v as int, 2), 2);
    }

    proof fn lemma_zero_image() {
        lemma_le_value_zeros(2);
        lemma_pow256_table();
    }
}

impl Blittable for i32 {
    open spec fn byte_size() -> nat {
        4
    }

    open spec fn spec_to_bytes(&self) -> Seq<u8> {
        le_bytes(twos_complement(*self as int, 4), 4)
    }

    open spec fn spec_from_bytes(bytes: Seq<u8>) -> i32 {
        from_twos_complement(le_value(bytes), 4) as i32
    }

    open spec fn spec_zero() -> i32 {
        0
    }

    fn size() -> usize {
        4
    }

    fn to_le(&self) -> Vec<u8> {
        proof {
            lemma_pow256_table();
        }
        let u: u64 = if *self >= 0 {
            *self as u64
        } else {
            (*self as i64 + 0x1_0000_0000) as u64
        };
        encode_le(u, 4)
    }

    fn from_le(bytes: &[u8]) -> i32 {
        proof {
            lemma_le_value_bound(bytes@);
            lemma_pow256_table();
        }
        let u = decode_le(bytes);
        if u < 0x8000_0000 {
            u as i32
        } else {
            (u as i64 - 0x1_0000_0000) as i32
        }
    }

    fn zero() -> i32 {
        0
    }

    proof fn lemma_image(v: i32) {
        lemma_pow256_table();
        lemma_unsigned_image(twos_complement(v as int, 4), 4);
    }

    proof fn lemma_zero_image() {
        lemma_le_value_zeros(4);
        lemma_pow256_table();
    }
}

impl Blittable for i64 {
    open spec fn byte_size() -> nat {
        8
    }

    open spec fn spec_to_bytes(&self) -> Seq<u8> {
        le_bytes(twos_complement(*self as int, 8), 8)
    }

    open spec fn spec_from_bytes(bytes: Seq<u8>) -> i64 {
        from_twos_complement(le_value(bytes), 8) as i64
    }

    open spec fn spec_zero() -> i64 {
        0
    }

    fn size() -> usize {
        8
    }

    fn to_le(&self) -> Vec<u8> {
        proof {
            lemma_pow256_table();
        }
        let u: u64 = if *self >= 0 {
            *self as u64
        } else {
            (u64::MAX - ((-(*self + 1)) as u64))
        };
        encode_le(u, 8)
    }

    fn from_le(bytes: &[u8]) -> i64 {
        proof {
            lemma_le_value_bound(bytes@);
            lemma_pow256_table();
        }
        let u = decode_le(bytes);
        if u < 0x8000_0000_0000_0000 {
            u as i64
        } else {
            -((u64::MAX - u) as i64) - 1
        }
    }

    fn zero() -> i64 {
        0
    }

    proof fn lemma_image(v: i64) {
        lemma_pow256_table();
        lemma_unsigned_image(twos_complement(v as int, 8), 8);
    }

    proof fn lemma_zero_image() {
        lemma_le_value_zeros(8);
        lemma_pow256_table();
    }
}

impl Blittable for bool {
    open spec fn byte_size() -> nat {
        1
    }

    open spec fn spec_to_bytes(&self) -> Seq<u8> {
        seq![if *self { 1u8 } else { 0u8 }]
    }

    open spec fn spec_from_bytes(bytes: Seq<u8>) -> bool {
        bytes[0] != 0
    }

    open spec fn spec_zero() -> bool {
        false
    }

    fn size() -> usize {
        1
    }

    fn to_le(&self) -> Vec<u8> {
        let mut r: Vec<u8> = Vec::new();
        r.push(if *self { 1u8 } else { 0u8 });
        r
    }

    fn from_le(bytes: &[u8]) -> bool {
        bytes[0] != 0
    }

    fn zero() -> bool {
        false
    }

    proof fn lemma_image(v: bool) {
    }

    proof fn lemma_zero_image() {
    }
}

} // verus!
