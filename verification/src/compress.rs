//! The variable-length integer encoding of the wire format: small numbers
//! take one byte, the largest nine; signed numbers are zig-zag mapped first.
use crate::le_bytes::{
    le_bytes, le_value, lemma_le_bytes_len, lemma_le_roundtrip, lemma_le_value_bound,
    lemma_pow256_table, pow256,
};
use crate::network_reader::{byte_or_zero, min_nat, padded, NetworkReader};
use crate::network_writer::NetworkWriter;
use vstd::prelude::*;

verus! {

/// The number of little-endian bytes behind a tag byte of 250 and above.
pub open spec fn tail_width(tag: u8) -> nat {
    (tag - 247) as nat
}

/// The encoding of `v`.
pub open spec fn compressed_u64(v: u64) -> Seq<u8> {
    if v <= 240 {
        seq![v as u8]
    } else if v <= 2287 {
        seq![((v - 240) / 256 + 241) as u8, ((v - 240) % 256) as u8]
    } else if v <= 67823 {
        seq![249u8, ((v - 2288) / 256) as u8, ((v - 2288) % 256) as u8]
    } else if v <= 0xFF_FFFF {
        seq![250u8] + le_bytes(v as nat, 3)
    } else if v <= 0xFFFF_FFFF {
        seq![251u8] + le_bytes(v as nat, 4)
    } else if v <= 0xFF_FFFF_FFFF {
        seq![252u8] + le_bytes(v as nat, 5)
    } else if v <= 0xFFFF_FFFF_FFFF {
        seq![253u8] + le_bytes(v as nat, 6)
    } else if v <= 0xFF_FFFF_FFFF_FFFF {
        seq![254u8] + le_bytes(v as nat, 7)
    } else {
        seq![255u8] + le_bytes(v as nat, 8)
    }
}

/// The number of bytes that an encoding with first byte `tag` has.
pub open spec fn compressed_width(tag: u8) -> nat {
    if tag < 241 {
        1
    } else if tag <= 248 {
        2
    } else {
        (tag - 246) as nat
    }
}

/// The number that the bytes `s` decode to; missing bytes read as zero.
pub open spec fn decompressed_u64(s: Seq<u8>) -> u64 {
    let a0 = byte_or_zero(s, 0);
    let a1 = byte_or_zero(s, 1);
    let a2 = byte_or_zero(s, 2);
    if a0 < 241 {
        a0 as u64
    } else if a0 <= 248 {
        (240 + (a0 - 241) * 256 + a1) as u64
    } else if a0 == 249 {
        (2288 + a1 * 256 + a2) as u64
    } else {
        le_value(padded(s, 1, tail_width(a0))) as u64
    }
}

/// The number of bytes that decoding `s` consumes.
pub open spec fn decompressed_len(s: Seq<u8>) -> nat {
    min_nat(compressed_width(byte_or_zero(s, 0)), s.len())
}

/// The zig-zag image of a signed number: `0, -1, 1, -2, 2, ...` become
/// `0, 1, 2, 3, 4, ...`.
pub open spec fn zigzag(v: i64) -> u64 {
    if v >= 0 {
        (2 * v) as u64
    } else {
        (-2 * v - 1) as u64
    }
}

/// The signed number that the decoder gives for `u`: the inverse of
/// `zigzag` below `2^63`; above, the decoder's arithmetic shift of a
/// negative number displaces the result by `2^63`.
pub open spec fn unzigzag(u: u64) -> i64 {
    if u < 0x8000_0000_0000_0000 {
        if u % 2 == 0 {
            (u / 2) as i64
        } else {
            (-(u / 2) - 1) as i64
        }
    } else {
        if u % 2 == 0 {
            (u / 2 - 0x8000_0000_0000_0000) as i64
        } else {
            (0x7FFF_FFFF_FFFF_FFFF - u / 2) as i64
        }
    }
}

/// The bytes by which a byte sequence and its length are written.
pub open spec fn spec_slice_and_size(s: Seq<u8>) -> Seq<u8> {
    if s.len() == 0 {
        compressed_u64(0)
    } else {
        compressed_u64((s.len() + 1) as u64) + s
    }
}

/// What reading a byte sequence with its length from `s` gives, and the
/// number of bytes it consumes.
pub open spec fn spec_read_slice_and_size(s: Seq<u8>) -> (Seq<u8>, nat) {
    let count = decompressed_u64(s) as u32;
    let k = decompressed_len(s);
    let after = s.subrange(k as int, s.len() as int);
    if count == 0 {
        (Seq::empty(), k)
    } else if after.len() < count - 1 {
        (Seq::empty(), k)
    } else {
        (after.subrange(0, count - 1), k + (count - 1) as nat)
    }
}

pub proof fn lemma_compressed_len(v: u64)
    ensures
        1 <= compressed_u64(v).len() <= 9,
        compressed_u64(v).len() == compressed_width(compressed_u64(v)[0]),
{
    lemma_le_bytes_len(v as nat, 3);
    lemma_le_bytes_len(v as nat, 4);
    lemma_le_bytes_len(v as nat, 5);
    lemma_le_bytes_len(v as nat, 6);
    lemma_le_bytes_len(v as nat, 7);
    lemma_le_bytes_len(v as nat, 8);
    if 240 < v <= 2287 {
        assert((v - 240) / 256 <= 7);
    }
}

proof fn lemma_tail_roundtrip(v: u64, tag: u8, n: nat, rest: Seq<u8>)
    requires
        v < pow256(n),
        tag >= 250,
        n == tail_width(tag),
    ensures
        decompressed_u64(seq![tag] + le_bytes(v as nat, n) + rest) == v,
        decompressed_len(seq![tag] + le_bytes(v as nat, n) + rest) == n + 1,
{
    let s = seq![tag] + le_bytes(v as nat, n) + rest;
    lemma_le_bytes_len(v as nat, n);
    lemma_le_roundtrip(v as nat, n);
    assert(padded(s, 1, n) =~= le_bytes(v as nat, n));
    if tag == 250 {
        assert(byte_or_zero(s, 0) == 250);
    }
}

/// Law: decoding an encoding gives the number back and consumes exactly the
/// encoding, whatever follows it.
pub proof fn lemma_u64_roundtrip(v: u64, rest: Seq<u8>)
    ensures
        decompressed_u64(compressed_u64(v) + rest) == v,
        decompressed_len(compressed_u64(v) + rest) == compressed_u64(v).len(),
{
    lemma_pow256_table();
    let s = compressed_u64(v) + rest;
    if v <= 240 {
        assert(byte_or_zero(s, 0) == v as u8);
    } else if v <= 2287 {
        let d = (v - 240) as int;
        assert(d / 256 <= 7);
        assert(byte_or_zero(s, 0) == (d / 256 + 241) as u8);
        assert(byte_or_zero(s, 1) == (d % 256) as u8);
        assert(240 + (d / 256) * 256 + d % 256 == v) by (nonlinear_arith)
            requires
                d == v - 240,
        ;
    } else if v <= 67823 {
        let d = (v - 2288) as int;
        assert(d / 256 < 256);
        assert(byte_or_zero(s, 0) == 249u8);
        assert(byte_or_zero(s, 1) == (d / 256) as u8);
        assert(byte_or_zero(s, 2) == (d % 256) as u8);
        assert(2288 + (d / 256) * 256 + d % 256 == v) by (nonlinear_arith)
            requires
                d == v - 2288,
        ;
    } else if v <= 0xFF_FFFF {
        assert(s =~= seq![250u8] + le_bytes(v as nat, 3) + rest);
        lemma_tail_roundtrip(v, 250, 3, rest);
        lemma_le_bytes_len(v as nat, 3);
    } else if v <= 0xFFFF_FFFF {
        assert(s =~= seq![251u8] + le_bytes(v as nat, 4) + rest);
        lemma_tail_roundtrip(v, 251, 4, rest);
        lemma_le_bytes_len(v as nat, 4);
    } else if v <= 0xFF_FFFF_FFFF {
        assert(s =~= seq![252u8] + le_bytes(v as nat, 5) + rest);
        lemma_tail_roundtrip(v, 252, 5, rest);
        lemma_le_bytes_len(v as nat, 5);
    } else if v <= 0xFFFF_FFFF_FFFF {
        assert(s =~= seq![253u8] + le_bytes(v as nat, 6) + rest);
        lemma_tail_roundtrip(v, 253, 6, rest);
        lemma_le_bytes_len(v as nat, 6);
    } else if v <= 0xFF_FFFF_FFFF_FFFF {
        assert(s =~= seq![254u8] + le_bytes(v as nat, 7) + rest);
        lemma_tail_roundtrip(v, 254, 7, rest);
        lemma_le_bytes_len(v as nat, 7);
    } else {
        assert(s =~= seq![255u8] + le_bytes(v as nat, 8) + rest);
        lemma_tail_roundtrip(v, 255, 8, rest);
        lemma_le_bytes_len(v as nat, 8);
    }
}

/// Law: the decoder inverts the zig-zag map on `[-2^62, 2^62)`.
pub proof fn lemma_zigzag_roundtrip(v: i64)
    requires
        -0x4000_0000_0000_0000 <= v < 0x4000_0000_0000_0000,
    ensures
        unzigzag(zigzag(v)) == v,
{
}

/// Law: a byte sequence written with its length is read back whole, when its
/// length plus one fits in 32 bits.
pub proof fn lemma_slice_and_size_roundtrip(s: Seq<u8>, rest: Seq<u8>)
    requires
        s.len() + 1 <= u32::MAX,
    ensures
        spec_read_slice_and_size(spec_slice_and_size(s) + rest) == (
            s,
            spec_slice_and_size(s).len(),
        ),
{
    if s.len() == 0 {
        lemma_u64_roundtrip(0, rest);
        assert(compressed_u64(0) =~= seq![0u8]);
    } else {
        let n = (s.len() + 1) as u64;
        let c = compressed_u64(n);
        lemma_u64_roundtrip(n, s + rest);
        lemma_compressed_len(n);
        assert(spec_slice_and_size(s) + rest =~= c + (s + rest));
        let all = c + (s + rest);
        assert(all.subrange(c.len() as int, all.len() as int) =~= s + rest);
        assert((s + rest).subrange(0, s.len() as int) =~= s);
    }
}

/// Types written in the variable-length encoding.
pub trait WriteCompress: Sized {
    /// The encoding of a value.
    spec fn spec_compressed(&self) -> Seq<u8>;

    fn compress(&self, writer: &mut NetworkWriter)
        requires
            old(writer).wf(),
            old(writer).pos() + 9 <= usize::MAX,
        ensures
            final(writer).wf(),
            final(writer).data().len() >= old(writer).data().len(),
            final(writer)@ == old(writer)@ + self.spec_compressed(),
            final(writer).pos() == old(writer).pos() + self.spec_compressed().len(),
            self.spec_compressed().len() <= 9,
    ;
}

/// Types read in the variable-length encoding.
pub trait ReadCompress: Sized {
    /// The value that decoding the bytes `s` gives.
    spec fn spec_decompressed(s: Seq<u8>) -> Self;

    fn decompress(reader: &mut NetworkReader) -> (r: Self)
        requires
            old(reader).wf(),
        ensures
            r == Self::spec_decompressed(old(reader).rest()),
            NetworkReader::advanced(
                *old(reader),
                *final(reader),
                decompressed_len(old(reader).rest()),
            ),
    ;
}

impl WriteCompress for u64 {
    open spec fn spec_compressed(&self) -> Seq<u8> {
        compressed_u64(*self)
    }

    fn compress(&self, writer: &mut NetworkWriter) {
        let v = *self;
        proof {
            lemma_compressed_len(v);
            lemma_pow256_table();
        }
        if v <= 240 {
            writer.write_byte(v as u8);
            return;
        }
        if v <= 2287 {
            writer.write_byte(((v - 240) / 256 + 241) as u8);
            writer.write_byte(((v - 240) % 256) as u8);
            assert(writer@ =~= old(writer)@ + compressed_u64(v));
            return;
        }
        if v <= 67823 {
            writer.write_byte(249);
            writer.write_byte(((v - 2288) / 256) as u8);
            writer.write_byte(((v - 2288) % 256) as u8);
            assert(writer@ =~= old(writer)@ + compressed_u64(v));
            return;
        }
        let (tag, n): (u8, usize) = if v <= 0xFF_FFFF {
            (250, 3)
        } else if v <= 0xFFFF_FFFF {
            (251, 4)
        } else if v <= 0xFF_FFFF_FFFF {
            (252, 5)
        } else if v <= 0xFFFF_FFFF_FFFF {
            (253, 6)
        } else if v <= 0xFF_FFFF_FFFF_FFFF {
            (254, 7)
        } else {
            (255, 8)
        };
        writer.write_byte(tag);
        let tail = crate::le_bytes::encode_le(v, n);
        proof {
            lemma_le_bytes_len(v as nat, n as nat);
        }
        writer.write_slice(tail.as_slice(), 0, n);
        assert(tail@.subrange(0, n as int) =~= tail@);
        assert(writer@ =~= old(writer)@ + compressed_u64(v));
    }
}

impl ReadCompress for u64 {
    open spec fn spec_decompressed(s: Seq<u8>) -> u64 {
        decompressed_u64(s)
    }

    fn decompress(reader: &mut NetworkReader) -> (r: u64) {
        let ghost s = old(reader).rest();
        let a0 = reader.read_byte() as u64;
        if a0 < 241 {
            return a0;
        }
        let ghost s1 = reader.rest();
        assert(s1 =~= s.drop_first());
        let width: usize = if a0 <= 248 {
            1
        } else {
            (a0 - 247) as usize
        };
        let tail = reader.read_padded(width);
        assert forall|i: int| 0 <= i < width implies byte_or_zero(s1, i) == byte_or_zero(
            s,
            1 + i,
        ) by {}
        assert(tail@ =~= padded(s, 1, width as nat));
        let a1 = tail[0] as u64;
        if a0 <= 248 {
            return 240 + (a0 - 241) * 256 + a1;
        }
        let a2 = tail[1] as u64;
        if a0 == 249 {
            return 2288 + a1 * 256 + a2;
        }
        proof {
            lemma_le_value_bound(tail@);
            lemma_pow256_table();
        }
        crate::le_bytes::decode_le(tail.as_slice())
    }
}

impl WriteCompress for u32 {
    open spec fn spec_compressed(&self) -> Seq<u8> {
        compressed_u64(*self as u64)
    }

    fn compress(&self, writer: &mut NetworkWriter) {
        (*self as u64).compress(writer)
    }
}

impl ReadCompress for u32 {
    open spec fn spec_decompressed(s: Seq<u8>) -> u32 {
        decompressed_u64(s) as u32
    }

    fn decompress(reader: &mut NetworkReader) -> (r: u32) {
        let v = <u64 as ReadCompress>::decompress(reader);
        v as u32
    }
}

impl WriteCompress for i64 {
    open spec fn spec_compressed(&self) -> Seq<u8> {
        compressed_u64(zigzag(*self))
    }

    fn compress(&self, writer: &mut NetworkWriter) {
        let v = *self;
        let zigzagged: u64 = if v >= 0 {
            (v as u64) * 2
        } else {
            ((-(v + 1)) as u64) * 2 + 1
        };
        zigzagged.compress(writer)
    }
}

impl ReadCompress for i64 {
    open spec fn spec_decompressed(s: Seq<u8>) -> i64 {
        unzigzag(decompressed_u64(s))
    }

    fn decompress(reader: &mut NetworkReader) -> (r: i64) {
        let u = <u64 as ReadCompress>::decompress(reader);
        if u < 0x8000_0000_0000_0000 {
            if u % 2 == 0 {
                (u / 2) as i64
            } else {
                -((u / 2) as i64) - 1
            }
        } else {
            if u % 2 == 0 {
                ((u / 2) as i64) - 0x7FFF_FFFF_FFFF_FFFF - 1
            } else {
                0x7FFF_FFFF_FFFF_FFFF - ((u / 2) as i64)
            }
        }
    }
}

impl WriteCompress for i32 {
    open spec fn spec_compressed(&self) -> Seq<u8> {
        compressed_u64(zigzag(*self as i64))
    }

    fn compress(&self, writer: &mut NetworkWriter) {
        (*self as i64).compress(writer)
    }
}

impl ReadCompress for i32 {
    open spec fn spec_decompressed(s: Seq<u8>) -> i32 {
        unzigzag(decompressed_u64(s)) as i32
    }

    fn decompress(reader: &mut NetworkReader) -> (r: i32) {
        let v = <i64 as ReadCompress>::decompress(reader);
        v as i32
    }
}

/// Law: every `u32` comes back from its encoding.
pub proof fn lemma_u32_roundtrip(v: u32, rest: Seq<u8>)
    ensures
        <u32 as ReadCompress>::spec_decompressed(v.spec_compressed() + rest) == v,
        decompressed_len(v.spec_compressed() + rest) == v.spec_compressed().len(),
{
    lemma_u64_roundtrip(v as u64, rest);
}

/// Law: every `i32` comes back from its encoding.
pub proof fn lemma_i32_roundtrip(v: i32, rest: Seq<u8>)
    ensures
        <i32 as ReadCompress>::spec_decompressed(v.spec_compressed() + rest) == v,
        decompressed_len(v.spec_compressed() + rest) == v.spec_compressed().len(),
{
    lemma_u64_roundtrip(zigzag(v as i64), rest);
    lemma_zigzag_roundtrip(v as i64);
}

/// Law: an `i64` in `[-2^62, 2^62)` comes back from its encoding.
pub proof fn lemma_i64_roundtrip(v: i64, rest: Seq<u8>)
    requires
        -0x4000_0000_0000_0000 <= v < 0x4000_0000_0000_0000,
    ensures
        <i64 as ReadCompress>::spec_decompressed(v.spec_compressed() + rest) == v,
        decompressed_len(v.spec_compressed() + rest) == v.spec_compressed().len(),
{
    lemma_u64_roundtrip(zigzag(v), rest);
    lemma_zigzag_roundtrip(v);
}

} // verus!
