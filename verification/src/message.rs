//! The framing of messages: a 16-bit id, then the message's fields.
use crate::blittable::Blittable;
use crate::compress::{decompressed_len, ReadCompress};
use crate::le_bytes::{le_bytes, le_value, lemma_le_bytes_len, lemma_le_roundtrip, lemma_pow256_table};
use crate::network_reader::NetworkReader;
use crate::network_writer::NetworkWriter;
use crate::stable_hash::{hash16, spec_hash16};
use crate::transport::TransportChannel;
use vstd::prelude::*;

verus! {

/// Size of a message id on the wire.
pub const ID_SIZE: usize = 2;

/// The value and width of a fixed-size read from `s`.
pub open spec fn read_fixed<T: Blittable>(s: Seq<u8>) -> (T, nat) {
    if s.len() < T::byte_size() {
        (T::spec_zero(), 0)
    } else {
        (T::spec_from_bytes(s.subrange(0, T::byte_size() as int)), T::byte_size())
    }
}

/// The value and width of a variable-length read from `s`.
pub open spec fn read_compressed<T: ReadCompress>(s: Seq<u8>) -> (T, nat) {
    (T::spec_decompressed(s), decompressed_len(s))
}

/// `s` without its first `n` bytes.
pub open spec fn skip(s: Seq<u8>, n: nat) -> Seq<u8> {
    s.subrange(n as int, s.len() as int)
}

/// The bytes of a message id.
pub open spec fn id_bytes(id: u16) -> Seq<u8> {
    le_bytes(id as nat, 2)
}

/// Messages that can be written: the id, then the body.
pub trait MessageSerializer: View + Sized {
    /// The id of the message type.
    spec fn spec_id() -> u16;

    /// The bytes after the id.
    spec fn spec_body(m: Self::V) -> Seq<u8>;

    /// The message can be written without a panic.
    spec fn serializable(m: Self::V) -> bool;

    /// An upper bound of the body's length.
    spec fn body_max(m: Self::V) -> nat;

    fn serialize(&mut self, writer: &mut NetworkWriter)
        requires
            old(writer).wf(),
            Self::serializable(old(self)@),
            old(writer).pos() + 2 + Self::body_max(old(self)@) <= usize::MAX,
        ensures
            final(writer).wf(),
            final(writer)@ == old(writer)@ + id_bytes(Self::spec_id()) + Self::spec_body(
                old(self)@,
            ),
            Self::spec_body(old(self)@).len() <= Self::body_max(old(self)@),
            final(self)@ == old(self)@,
    ;
}

/// Messages that can be read after their id.
pub trait MessageDeserializer: View + Sized {
    /// The message that reading the bytes `s` gives, and the number of bytes
    /// read.
    spec fn spec_deserialize(s: Seq<u8>) -> (Self::V, nat);

    fn deserialize(reader: &mut NetworkReader) -> (r: Self)
        requires
            old(reader).wf(),
        ensures
            r@ == Self::spec_deserialize(old(reader).rest()).0,
            NetworkReader::advanced(
                *old(reader),
                *final(reader),
                Self::spec_deserialize(old(reader).rest()).1,
            ),
    ;
}

/// A message type: a full name whose hash is the id, and a body that reads
/// back as it was written.
pub trait NetworkMessage: MessageSerializer + MessageDeserializer {
    /// The full name of the message type.
    spec fn spec_full_name() -> Seq<char>;

    fn get_full_name() -> (r: &'static str)
        ensures
            r@ == Self::spec_full_name(),
    ;

    fn message_id() -> (r: u16)
        ensures
            r == <Self as MessageSerializer>::spec_id(),
    ;

    /// The id is the folded stable hash of the full name.
    proof fn lemma_id()
        ensures
            <Self as MessageSerializer>::spec_id() == spec_hash16(Self::spec_full_name()),
    ;

    /// The message is written in full, so that it can be read back: not a
    /// string field that is too long to be sent and goes out empty.
    spec fn reads_back(m: <Self as View>::V) -> bool;

    /// Law: a body that was written is read back as the same message, and
    /// exactly its bytes are consumed, whatever follows it.
    proof fn lemma_roundtrip(m: <Self as View>::V, rest: Seq<u8>)
        requires
            <Self as MessageSerializer>::serializable(m),
            Self::reads_back(m),
        ensures
            <Self as MessageDeserializer>::spec_deserialize(
                <Self as MessageSerializer>::spec_body(m) + rest,
            ) == (m, <Self as MessageSerializer>::spec_body(m).len()),
    ;
}

/// Writes the id of a message type.
pub fn write_message_id(writer: &mut NetworkWriter, full_name: &str)
    requires
        old(writer).wf(),
        old(writer).pos() + 2 <= usize::MAX,
    ensures
        final(writer).wf(),
        final(writer)@ == old(writer)@ + id_bytes(spec_hash16(full_name@)),
        final(writer).pos() == old(writer).pos() + 2,
{
    proof {
        lemma_pow256_table();
        lemma_le_bytes_len(spec_hash16(full_name@) as nat, 2);
    }
    writer.write_blittable(hash16(full_name));
}

/// Reads the id in front of a message; `None` for the reserved id zero,
/// which is also what too short a header reads as.
pub fn unpack_id(reader: &mut NetworkReader) -> (r: Option<u16>)
    requires
        old(reader).wf(),
    ensures
        ({
            let (id, n) = read_fixed::<u16>(old(reader).rest());
            &&& NetworkReader::advanced(*old(reader), *final(reader), n)
            &&& r == if id == 0 {
                None::<u16>
            } else {
                Some(id)
            }
        }),
{
    let msg_type: u16 = reader.read_blittable();
    if msg_type == 0 {
        None
    } else {
        Some(msg_type)
    }
}

/// Law: the id in front of a written message reads back, unless it is the
/// reserved zero.
pub proof fn lemma_id_roundtrip(id: u16, rest: Seq<u8>)
    ensures
        read_fixed::<u16>(id_bytes(id) + rest) == (id, 2nat),
{
    lemma_pow256_table();
    lemma_le_bytes_len(id as nat, 2);
    lemma_le_roundtrip(id as nat, 2);
    assert((id_bytes(id) + rest).subrange(0, 2) =~= id_bytes(id));
}

/// Largest content of one message on a channel.
pub fn max_content_size(channel: TransportChannel) -> (r: usize)
    ensures
        r == 1500,
{
    1500
}

/// Largest message, id included, on a channel.
pub fn max_message_size(channel: TransportChannel) -> (r: usize)
    ensures
        r == 1502,
{
    max_content_size(channel) + ID_SIZE
}

} // verus!
