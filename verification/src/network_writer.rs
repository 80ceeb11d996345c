//! A growable byte buffer with a write position, into which messages are
//! serialized.
use crate::blittable::Blittable;
use crate::le_bytes::{le_bytes, lemma_le_bytes_len, lemma_pow256_table};
use vstd::prelude::*;
use vstd::utf8::encode_utf8;

verus! {

/// The capacity that a buffer of `cap` bytes has once `needed` bytes must fit:
/// unchanged when they fit, else the larger of `needed` and twice `cap`.
pub open spec fn grown_capacity(cap: nat, needed: nat) -> nat {
    if cap < needed {
        let doubled = if 2 * cap <= usize::MAX {
            2 * cap
        } else {
            usize::MAX as nat
        };
        if needed >= doubled {
            needed
        } else {
            doubled
        }
    } else {
        cap
    }
}

/// `data` extended with zero bytes up to `grown_capacity(data.len(), needed)`.
pub open spec fn grow(data: Seq<u8>, needed: nat) -> Seq<u8> {
    data + Seq::new((grown_capacity(data.len(), needed) - data.len()) as nat, |i: int| 0u8)
}

/// `data` with the bytes from `pos` on replaced by `bytes`.
pub open spec fn splice(data: Seq<u8>, pos: int, bytes: Seq<u8>) -> Seq<u8> {
    data.subrange(0, pos) + bytes + data.subrange(pos + bytes.len(), data.len() as int)
}

/// Whether `s` holds the character `'\0'`.
pub open spec fn has_nul(s: Seq<char>) -> bool {
    exists|i: int| 0 <= i < s.len() && s[i] == '\0'
}

/// Growable byte buffer; the bytes before `position` are the written ones.
pub struct NetworkWriter {
    buffer: Vec<u8>,
    position: usize,
}

impl View for NetworkWriter {
    type V = Seq<u8>;

    /// The bytes written so far.
    closed spec fn view(&self) -> Seq<u8> {
        self.buffer@.subrange(0, self.position as int)
    }
}

impl NetworkWriter {
    /// The whole buffer, written or not; its length is the capacity.
    pub closed spec fn data(&self) -> Seq<u8> {
        self.buffer@
    }

    /// The write position.
    pub closed spec fn pos(&self) -> nat {
        self.position as nat
    }

    /// The write position lies within the buffer.
    pub open spec fn wf(&self) -> bool {
        &&& self.pos() <= self.data().len()
        &&& self@ == self.data().subrange(0, self.pos() as int)
    }

    pub fn position(&self) -> (r: usize)
        ensures
            r == self.pos(),
    {
        self.position
    }

    /// Moves the write position within the buffer.
    pub fn set_position(&mut self, position: usize)
        requires
            position <= old(self).data().len(),
        ensures
            final(self).wf(),
            final(self).data() == old(self).data(),
            final(self).pos() == position,
            final(self)@ == old(self).data().subrange(0, position as int),
    {
        self.position = position;
    }

    pub proof fn lemma_view(&self)
        requires
            self.wf(),
        ensures
            self@ == self.data().subrange(0, self.pos() as int),
            self@.len() == self.pos(),
    {
    }

    /// The buffer after `bytes` were written at the position and the
    /// position moved past them.
    pub open spec fn after_write(old_data: Seq<u8>, pos: nat, bytes: Seq<u8>) -> Seq<u8> {
        splice(grow(old_data, pos + bytes.len()), pos as int, bytes)
    }

    pub open spec fn max_string_length_spec() -> u16 {
        (u16::MAX - 1) as u16
    }

    pub fn new() -> (r: Self)
        ensures
            r.wf(),
            r@ == Seq::<u8>::empty(),
            r.data() == Seq::<u8>::empty(),
            r.pos() == 0,
    {
        let r = NetworkWriter { buffer: Vec::with_capacity(Self::default_capacity() as usize), position: 0 };
        assert(r@ =~= Seq::<u8>::empty());
        r
    }

    pub fn reset(&mut self)
        ensures
            final(self).pos() == 0,
            final(self).data() == old(self).data(),
            final(self)@ == Seq::<u8>::empty(),
            final(self).wf(),
    {
        self.position = 0;
        assert(self@ =~= Seq::<u8>::empty());
        assert(self.data().subrange(0, 0) =~= Seq::<u8>::empty());
    }

    fn ensure_capacity(&mut self, value: usize)
        ensures
            final(self).data() == grow(old(self).data(), value as nat),
            final(self).pos() == old(self).pos(),
            final(self).data().len() >= old(self).data().len(),
            final(self).data().len() >= value,
    {
        let len = self.buffer.len();
        if len < value {
            let doubled: usize = if len <= usize::MAX / 2 {
                len * 2
            } else {
                usize::MAX
            };
            let capacity: usize = if value >= doubled {
                value
            } else {
                doubled
            };
            self.buffer.resize(capacity, 0u8);
            assert(self.buffer@ =~= grow(old(self).data(), value as nat));
        } else {
            assert(grow(old(self).data(), value as nat) =~= old(self).data());
        }
    }

    pub fn to_slice(&self) -> (r: &[u8])
        requires
            self.wf(),
        ensures
            r@ == self@,
    {
        vstd::slice::slice_subrange(self.buffer.as_slice(), 0, self.position)
    }

    pub fn to_vec(&self) -> (r: Vec<u8>)
        requires
            self.wf(),
        ensures
            r@ == self@,
    {
        let mut r: Vec<u8> = Vec::new();
        let mut i: usize = 0;
        while i < self.position
            invariant
                self.wf(),
                i <= self.position,
                r@ == self.data().subrange(0, i as int),
            decreases self.position - i,
        {
            r.push(self.buffer[i]);
            i = i + 1;
            assert(r@ =~= self.data().subrange(0, i as int));
        }
        r
    }

    /// Writes `bytes` at the position and moves the position past them.
    fn put(&mut self, bytes: &[u8])
        requires
            old(self).wf(),
            old(self).pos() + bytes@.len() <= usize::MAX,
        ensures
            final(self).data().len() >= old(self).data().len(),
            final(self).wf(),
            final(self).data() == Self::after_write(
                old(self).data(),
                old(self).pos() as nat,
                bytes@,
            ),
            final(self).pos() == old(self).pos() + bytes@.len(),
            final(self)@ == old(self)@ + bytes@,
    {
        let n = bytes.len();
        self.ensure_capacity(self.position + n);
        let ghost grown = self.buffer@;
        let ghost pos = self.position as int;
        let mut i: usize = 0;
        while i < n
            invariant
                n == bytes@.len(),
                self.position == pos,
                pos + n <= self.buffer@.len(),
                pos + n <= usize::MAX,
                i <= n,
                self.buffer@.len() == grown.len(),
                self.buffer@ == grown.subrange(0, pos) + bytes@.subrange(0, i as int)
                    + grown.subrange(pos + i, grown.len() as int),
            decreases n - i,
        {
            self.buffer.set(self.position + i, bytes[i]);
            i = i + 1;
            assert(self.buffer@ =~= grown.subrange(0, pos) + bytes@.subrange(0, i as int)
                + grown.subrange(pos + i, grown.len() as int));
        }
        assert(bytes@.subrange(0, n as int) =~= bytes@);
        self.position = self.position + n;
        assert(self@ =~= old(self)@ + bytes@);
    }

    /// Writes the little-endian image of `value`.
    pub fn write_blittable<T: Blittable>(&mut self, value: T)
        requires
            old(self).wf(),
            old(self).pos() + T::byte_size() <= usize::MAX,
        ensures
            final(self).data().len() >= old(self).data().len(),
            final(self).wf(),
            final(self).data() == Self::after_write(
                old(self).data(),
                old(self).pos() as nat,
                value.spec_to_bytes(),
            ),
            final(self).pos() == old(self).pos() + T::byte_size(),
            final(self)@ == old(self)@ + value.spec_to_bytes(),
    {
        proof {
            T::lemma_image(value);
        }
        let bytes = value.to_le();
        self.put(bytes.as_slice());
    }

    /// Writes `value` in the variable-length encoding of its type.
    pub fn write_blittable_compress<T: crate::compress::WriteCompress>(&mut self, value: T)
        requires
            old(self).wf(),
            old(self).pos() + 9 <= usize::MAX,
        ensures
            final(self).data().len() >= old(self).data().len(),
            final(self).wf(),
            final(self)@ == old(self)@ + value.spec_compressed(),
            final(self).pos() == old(self).pos() + value.spec_compressed().len(),
            value.spec_compressed().len() <= 9,
    {
        value.compress(self);
    }

    pub fn write_byte(&mut self, value: u8)
        requires
            old(self).wf(),
            old(self).pos() + 1 <= usize::MAX,
        ensures
            final(self).data().len() >= old(self).data().len(),
            final(self).wf(),
            final(self).data() == Self::after_write(
                old(self).data(),
                old(self).pos() as nat,
                seq![value],
            ),
            final(self).pos() == old(self).pos() + 1,
            final(self)@ == old(self)@.push(value),
    {
        proof {
            lemma_pow256_table();
            reveal_with_fuel(le_bytes, 2);
            assert(le_bytes(value as nat, 1) =~= seq![value]);
        }
        self.write_blittable(value);
        assert(old(self)@ + seq![value] =~= old(self)@.push(value));
    }

    /// Writes `count` bytes of `value`, from `offset` on.
    pub fn write_slice(&mut self, value: &[u8], offset: usize, count: usize)
        requires
            old(self).wf(),
            offset + count <= value@.len(),
            old(self).pos() + count <= usize::MAX,
        ensures
            final(self).data().len() >= old(self).data().len(),
            final(self).wf(),
            final(self).data() == Self::after_write(
                old(self).data(),
                old(self).pos() as nat,
                value@.subrange(offset as int, offset + count),
            ),
            final(self).pos() == old(self).pos() + count,
            final(self)@ == old(self)@ + value@.subrange(offset as int, offset + count),
    {
        let vl = value.len();
        assert(offset + count <= vl);
        let part = vstd::slice::slice_subrange(value, offset, offset + count);
        self.put(part);
    }

    /// The length of the buffer. Every write keeps the position within the
    /// buffer (`wf`) and never shrinks it.
    pub fn capacity(&self) -> (r: usize)
        ensures
            r as nat == self.data().len(),
    {
        self.buffer.len()
    }

    /// Writes a string as its byte count plus one (two bytes) followed by its
    /// UTF-8 bytes; the empty string, and one longer than
    /// `max_string_length()` bytes, are written as a count of zero alone.
    /// The buffer first grows to hold the count and all the bytes, which are
    /// copied behind the count, whether or not they are kept.
    pub fn write_str(&mut self, value: &str)
        requires
            old(self).wf(),
            !has_nul(value@),
            old(self).pos() + 2 + Self::max_string_length_spec() <= usize::MAX,
        ensures
            final(self).data().len() >= old(self).data().len(),
            final(self).wf(),
            final(self)@ == old(self)@ + Self::spec_str_bytes(value@),
            final(self).pos() == old(self).pos() + Self::spec_str_bytes(value@).len(),
            Self::spec_str_bytes(value@).len() <= 2 + encode_utf8(value@).len(),
            Self::spec_str_bytes(value@).len() <= 2 + Self::max_string_length_spec(),
    {
        if value.is_empty() {
            proof {
                lemma_pow256_table();
                lemma_le_bytes_len(0, 2);
            }
            self.write_blittable(0u16);
            return;
        }
        let bytes = value.as_bytes();
        let written = bytes.len();
        let pos = self.position;
        if written > Self::max_string_length() as usize {
            // a buffer cannot reach past the largest address, so the room
            // for the bytes is always found
            if written <= usize::MAX - 2 - pos {
                self.ensure_capacity(pos + 2 + written);
                self.position = pos + 2;
                self.put(bytes);
                self.position = pos;
            }
            proof {
                lemma_pow256_table();
                lemma_le_bytes_len(0, 2);
            }
            self.write_blittable(0u16);
            assert(self@ =~= old(self)@ + Self::spec_str_bytes(value@));
            return;
        }
        self.ensure_capacity(pos + 2 + written);
        // copy the string bytes behind the room for the length
        self.position = pos + 2;
        self.put(bytes);
        self.position = pos;
        let ghost mid = self.data();
        proof {
            lemma_pow256_table();
            lemma_le_bytes_len((written + 1) as nat, 2);
        }
        self.write_blittable((written + 1) as u16);
        self.position = pos + 2 + written;
        assert(self.data() =~= splice(mid, pos as int, le_bytes((written + 1) as nat, 2)));
        assert(self@ =~= old(self)@ + Self::spec_str_bytes(value@));
    }

    /// The bytes by which a string is written.
    pub open spec fn spec_str_bytes(s: Seq<char>) -> Seq<u8> {
        let bytes = encode_utf8(s);
        if s.len() == 0 || bytes.len() > Self::max_string_length_spec() {
            le_bytes(0, 2)
        } else {
            le_bytes((bytes.len() + 1) as nat, 2) + bytes
        }
    }

    /// Writes a byte sequence as its length plus one, compressed, followed by
    /// its bytes; an empty one as a compressed zero alone.
    pub fn write_slice_and_size(&mut self, value: &[u8])
        requires
            old(self).wf(),
            old(self).pos() + 9 + value@.len() <= usize::MAX,
        ensures
            final(self).data().len() >= old(self).data().len(),
            final(self).wf(),
            final(self)@ == old(self)@ + crate::compress::spec_slice_and_size(value@),
            final(self).pos() == old(self).pos() + crate::compress::spec_slice_and_size(
                value@,
            ).len(),
    {
        let count = value.len();
        if count == 0 {
            self.write_blittable_compress(0u64);
            return;
        }
        proof {
            crate::compress::lemma_compressed_len((1 + count) as u64);
        }
        self.write_blittable_compress(1 + count as u64);
        self.write_slice(value, 0, count);
        assert(value@.subrange(0, count as int) =~= value@);
        assert(self@ =~= old(self)@ + crate::compress::spec_slice_and_size(value@));
    }

    pub fn max_string_length() -> (r: u16)
        ensures
            r == Self::max_string_length_spec(),
            r == 65534,
    {
        u16::MAX - 1
    }

    pub fn default_capacity() -> (r: i32)
        ensures
            r == 1500,
    {
        1500
    }
}

} // verus!
