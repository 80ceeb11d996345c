//! A byte buffer with a read position, from which messages are deserialized.
//! Reading past the end yields zero values and does not move the position.
use crate::blittable::{zeros, Blittable};
use crate::le_bytes::{le_value, lemma_pow256_table};
use vstd::prelude::*;
use vstd::utf8::{decode_utf8, valid_utf8};

verus! {

/// The byte at `i` of `s`, or zero where `s` has none.
pub open spec fn byte_or_zero(s: Seq<u8>, i: int) -> u8 {
    if 0 <= i < s.len() {
        s[i]
    } else {
        0
    }
}

/// The `n` bytes of `s` from `start` on, zeros standing for missing ones.
pub open spec fn padded(s: Seq<u8>, start: int, n: nat) -> Seq<u8> {
    Seq::new(n, |i: int| byte_or_zero(s, start + i))
}

pub open spec fn min_nat(a: nat, b: nat) -> nat {
    if a <= b {
        a
    } else {
        b
    }
}

/// Converts bytes into a string when they are valid UTF-8, by calling
/// `String::from_utf8` on a copy of them. Trusted, not proved: the call
/// succeeds exactly when the bytes are valid UTF-8, and the string then holds
/// the characters that the bytes encode.
#[verifier::external_body]
fn utf8_to_string(bytes: &[u8]) -> (r: Option<String>)
    ensures
        r is Some <==> valid_utf8(bytes@),
        r matches Some(s) ==> s@ == decode_utf8(bytes@),
{
    String::from_utf8(bytes.to_vec()).ok()
}

/// Byte buffer with a read position.
pub struct NetworkReader {
    buffer: Vec<u8>,
    position: usize,
}

impl NetworkReader {
    /// The whole buffer.
    pub closed spec fn data(&self) -> Seq<u8> {
        self.buffer@
    }

    /// The read position.
    pub closed spec fn pos(&self) -> nat {
        self.position as nat
    }

    /// The read position lies within the buffer.
    pub open spec fn wf(&self) -> bool {
        self.pos() <= self.data().len()
    }

    /// The bytes not yet read.
    pub open spec fn rest(&self) -> Seq<u8> {
        self.data().subrange(self.pos() as int, self.data().len() as int)
    }

    pub fn position(&self) -> (r: usize)
        ensures
            r == self.pos(),
    {
        self.position
    }

    /// Moves the read position within the buffer.
    pub fn set_position(&mut self, position: usize)
        requires
            position <= old(self).data().len(),
        ensures
            final(self).wf(),
            final(self).data() == old(self).data(),
            final(self).pos() == position,
    {
        self.position = position;
    }

    /// The reader after a read that consumed `n` bytes.
    pub open spec fn advanced(old_r: NetworkReader, new_r: NetworkReader, n: nat) -> bool {
        &&& new_r.wf()
        &&& new_r.data() == old_r.data()
        &&& new_r.pos() == old_r.pos() + n
    }

    /// What a string read from `s` gives, and the number of bytes it consumes.
    pub open spec fn spec_read_string(s: Seq<u8>) -> (Seq<char>, nat) {
        if s.len() < 2 {
            (Seq::empty(), 0)
        } else {
            let size = le_value(s.subrange(0, 2));
            let after = s.subrange(2, s.len() as int);
            if size == 0 {
                (Seq::empty(), 2)
            } else if after.len() < size - 1 {
                (Seq::empty(), 2)
            } else {
                let bytes = after.subrange(0, size - 1);
                if valid_utf8(bytes) {
                    (decode_utf8(bytes), (size + 1) as nat)
                } else {
                    (Seq::empty(), (size + 1) as nat)
                }
            }
        }
    }

    pub fn new(segment: Vec<u8>) -> (r: Self)
        ensures
            r.wf(),
            r.data() == segment@,
            r.pos() == 0,
    {
        NetworkReader { buffer: segment, position: 0 }
    }

    pub fn set_vec(&mut self, segment: Vec<u8>)
        ensures
            final(self).wf(),
            final(self).data() == segment@,
            final(self).pos() == 0,
    {
        self.buffer = segment;
        self.position = 0;
    }

    pub fn set_slice(&mut self, segment: &[u8])
        ensures
            final(self).wf(),
            final(self).data() == segment@,
            final(self).pos() == 0,
    {
        self.buffer = vstd::slice::slice_to_vec(segment);
        self.position = 0;
    }

    pub fn to_slice(&self) -> (r: &[u8])
        requires
            self.wf(),
        ensures
            r@ == self.rest(),
    {
        vstd::slice::slice_subrange(self.buffer.as_slice(), self.position, self.buffer.len())
    }

    pub fn to_vec(&self) -> (r: Vec<u8>)
        requires
            self.wf(),
        ensures
            r@ == self.rest(),
    {
        vstd::slice::slice_to_vec(self.to_slice())
    }

    pub fn remaining(&self) -> (r: usize)
        requires
            self.wf(),
        ensures
            r == self.rest().len(),
            r == self.data().len() - self.pos(),
    {
        self.buffer.len() - self.position
    }

    pub fn capacity(&self) -> (r: usize)
        ensures
            r == self.data().len(),
    {
        self.buffer.len()
    }

    pub fn reset(&mut self)
        ensures
            final(self).data() == old(self).data(),
            final(self).pos() == 0,
            final(self).wf(),
    {
        self.position = 0;
    }

    /// Reads the little-endian image of a `T`; the zero value when fewer
    /// bytes remain, in which case nothing is consumed.
    pub fn read_blittable<T: Blittable>(&mut self) -> (r: T)
        requires
            old(self).wf(),
        ensures
            old(self).rest().len() < T::byte_size() ==> r == T::spec_zero() && Self::advanced(
                *old(self),
                *final(self),
                0,
            ),
            old(self).rest().len() >= T::byte_size() ==> r == T::spec_from_bytes(
                old(self).rest().subrange(0, T::byte_size() as int),
            ) && Self::advanced(*old(self), *final(self), T::byte_size()),
    {
        let size = T::size();
        let len = self.buffer.len();
        if len - self.position < size {
            return T::zero();
        }
        let end = self.position + size;
        let bytes = vstd::slice::slice_subrange(self.buffer.as_slice(), self.position, end);
        let value = T::from_le(bytes);
        self.position = end;
        assert(bytes@ =~= old(self).rest().subrange(0, T::byte_size() as int));
        value
    }

    /// Reads a value in the variable-length encoding of its type.
    pub fn read_blittable_compress<T: crate::compress::ReadCompress>(&mut self) -> (r: T)
        requires
            old(self).wf(),
        ensures
            r == T::spec_decompressed(old(self).rest()),
            Self::advanced(
                *old(self),
                *final(self),
                crate::compress::decompressed_len(old(self).rest()),
            ),
    {
        T::decompress(self)
    }

    /// Reads a presence byte, then the value when the byte is not zero;
    /// the zero value otherwise.
    pub fn read_blittable_nullable<T: Blittable>(&mut self) -> (r: T)
        requires
            old(self).wf(),
        ensures
            final(self).wf(),
            final(self).data() == old(self).data(),
            ({
                let s = old(self).rest();
                if byte_or_zero(s, 0) == 0 {
                    r == T::spec_zero() && final(self).pos() == old(self).pos() + min_nat(
                        1,
                        s.len(),
                    )
                } else if s.len() - 1 < T::byte_size() {
                    r == T::spec_zero() && final(self).pos() == old(self).pos() + 1
                } else {
                    r == T::spec_from_bytes(s.subrange(1, 1 + T::byte_size() as int))
                        && final(self).pos() == old(self).pos() + 1 + T::byte_size()
                }
            }),
    {
        let ghost s = old(self).rest();
        let flag = self.read_byte();
        if flag != 0 {
            assert(self.rest() =~= s.subrange(1, s.len() as int));
            let r = self.read_blittable::<T>();
            proof {
                if s.len() - 1 >= T::byte_size() {
                    assert(s.subrange(1, 1 + T::byte_size() as int) =~= s.subrange(
                        1,
                        s.len() as int,
                    ).subrange(0, T::byte_size() as int));
                }
            }
            return r;
        }
        T::zero()
    }

    pub fn read_byte(&mut self) -> (r: u8)
        requires
            old(self).wf(),
        ensures
            r == byte_or_zero(old(self).rest(), 0),
            Self::advanced(*old(self), *final(self), min_nat(1, old(self).rest().len())),
    {
        proof {
            lemma_pow256_table();
            reveal_with_fuel(le_value, 2);
        }
        self.read_blittable::<u8>()
    }

    /// Reads `n` bytes, zeros standing for those past the end.
    pub(crate) fn read_padded(&mut self, n: usize) -> (r: Vec<u8>)
        requires
            old(self).wf(),
        ensures
            r@ == padded(old(self).rest(), 0, n as nat),
            Self::advanced(*old(self), *final(self), min_nat(n as nat, old(self).rest().len())),
    {
        let mut r: Vec<u8> = Vec::new();
        let mut i: usize = 0;
        while i < n
            invariant
                i <= n,
                self.wf(),
                self.data() == old(self).data(),
                self.position == old(self).pos() + min_nat(i as nat, old(self).rest().len()),
                r@ == padded(old(self).rest(), 0, i as nat),
            decreases n - i,
        {
            let b = self.read_byte();
            r.push(b);
            i = i + 1;
            assert(r@ =~= padded(old(self).rest(), 0, i as nat));
        }
        r
    }

    /// Reads `count` bytes; none, when fewer remain, in which case nothing
    /// is consumed.
    pub fn read_slice(&mut self, count: usize) -> (r: &[u8])
        requires
            old(self).wf(),
        ensures
            old(self).rest().len() < count ==> r@ == Seq::<u8>::empty() && Self::advanced(
                *old(self),
                *final(self),
                0,
            ),
            old(self).rest().len() >= count ==> r@ == old(self).rest().subrange(0, count as int)
                && Self::advanced(*old(self), *final(self), count as nat),
    {
        let len = self.buffer.len();
        if len - self.position < count {
            return &[];
        }
        let start = self.position;
        self.position = start + count;
        let r = vstd::slice::slice_subrange(self.buffer.as_slice(), start, start + count);
        assert(r@ =~= old(self).rest().subrange(0, count as int));
        r
    }

    /// Reads a string written by `NetworkWriter::write_str`: the empty string
    /// for a count of zero, for too few remaining bytes and for invalid UTF-8.
    pub fn read_string(&mut self) -> (r: String)
        requires
            old(self).wf(),
        ensures
            r@ == Self::spec_read_string(old(self).rest()).0,
            Self::advanced(*old(self), *final(self), Self::spec_read_string(old(self).rest()).1),
    {
        let ghost s = old(self).rest();
        let size = self.read_blittable::<u16>();
        proof {
            lemma_pow256_table();
            crate::le_bytes::lemma_le_value_bound(s.subrange(0, 2));
            if s.len() < 2 {
                crate::blittable::lemma_le_value_zeros(2);
            }
        }
        if size == 0 {
            return String::new();
        }
        let real_size = size - 1;
        if real_size > crate::network_writer::NetworkWriter::max_string_length() {
            return String::new();
        }
        let ghost mid = self.rest();
        assert(mid =~= s.subrange(2, s.len() as int));
        let bytes = self.read_slice(real_size as usize);
        match utf8_to_string(bytes) {
            Some(text) => text,
            None => String::new(),
        }
    }

    /// Reads a byte sequence written by `NetworkWriter::write_slice_and_size`.
    pub fn read_slice_and_size(&mut self) -> (r: &[u8])
        requires
            old(self).wf(),
        ensures
            r@ == crate::compress::spec_read_slice_and_size(old(self).rest()).0,
            Self::advanced(
                *old(self),
                *final(self),
                crate::compress::spec_read_slice_and_size(old(self).rest()).1,
            ),
    {
        let count: u32 = self.read_blittable_compress();
        if count == 0 {
            return &[];
        }
        self.read_slice(count as usize - 1)
    }
}

} // verus!
