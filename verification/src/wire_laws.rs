//! What a read gives back of a write, for the fixed-size values, the
//! strings and the messages of the wire format.
use crate::blittable::Blittable;
use crate::le_bytes::{le_bytes, lemma_le_bytes_len, lemma_le_roundtrip, lemma_pow256_table};
use crate::message::{id_bytes, lemma_id_roundtrip, read_fixed, skip, MessageDeserializer, MessageSerializer, NetworkMessage};
use crate::network_reader::NetworkReader;
use crate::network_server::message_bytes;
use crate::network_writer::NetworkWriter;
use vstd::prelude::*;
use vstd::utf8::{encode_utf8, encode_utf8_decode_utf8, encode_utf8_valid_utf8};

verus! {

/// Law: the image of a fixed-size value, whatever follows it, is read back
/// as the value.
pub proof fn lemma_blittable_roundtrip<T: Blittable>(v: T, rest: Seq<u8>)
    ensures
        (v.spec_to_bytes() + rest).len() >= T::byte_size(),
        T::spec_from_bytes((v.spec_to_bytes() + rest).subrange(0, T::byte_size() as int)) == v,
{
    T::lemma_image(v);
    assert((v.spec_to_bytes() + rest).subrange(0, T::byte_size() as int) =~= v.spec_to_bytes());
}

/// A non-empty string has a non-empty UTF-8 encoding.
pub proof fn lemma_encode_nonempty(s: Seq<char>)
    requires
        s.len() > 0,
    ensures
        encode_utf8(s).len() > 0,
{
}

/// Law: a string written by `write_str` is read back by `read_string`, and
/// exactly its bytes are consumed, when its UTF-8 encoding has at most
/// `max_string_length()` bytes.
pub proof fn lemma_string_roundtrip(s: Seq<char>, rest: Seq<u8>)
    requires
        encode_utf8(s).len() <= NetworkWriter::max_string_length_spec(),
    ensures
        NetworkReader::spec_read_string(NetworkWriter::spec_str_bytes(s) + rest) == (
            s,
            NetworkWriter::spec_str_bytes(s).len(),
        ),
{
    lemma_pow256_table();
    let bytes = encode_utf8(s);
    let all = NetworkWriter::spec_str_bytes(s) + rest;
    if s.len() == 0 {
        lemma_le_bytes_len(0, 2);
        lemma_le_roundtrip(0, 2);
        assert(all.subrange(0, 2) =~= le_bytes(0, 2));
        assert(s =~= Seq::<char>::empty());
    } else {
        lemma_encode_nonempty(s);
        let n = (bytes.len() + 1) as nat;
        lemma_le_bytes_len(n, 2);
        lemma_le_roundtrip(n, 2);
        assert(all.subrange(0, 2) =~= le_bytes(n, 2));
        let after = all.subrange(2, all.len() as int);
        assert(after =~= bytes + rest);
        assert(after.subrange(0, n - 1) =~= bytes);
        encode_utf8_valid_utf8(s);
        encode_utf8_decode_utf8(s);
    }
}

/// Law: a packed message, whatever follows it, reads back as its type's id
/// followed by the same message, and reading consumes exactly its bytes.
pub proof fn lemma_message_roundtrip<M: NetworkMessage>(m: <M as View>::V, rest: Seq<u8>)
    requires
        <M as MessageSerializer>::serializable(m),
        M::reads_back(m),
    ensures
        read_fixed::<u16>(message_bytes::<M>(m) + rest) == (<M as MessageSerializer>::spec_id(), 2nat),
        <M as MessageDeserializer>::spec_deserialize(skip(message_bytes::<M>(m) + rest, 2)) == (
            m,
            (message_bytes::<M>(m).len() - 2) as nat,
        ),
{
    let body = <M as MessageSerializer>::spec_body(m);
    let id = <M as MessageSerializer>::spec_id();
    lemma_pow256_table();
    lemma_le_bytes_len(id as nat, 2);
    assert(message_bytes::<M>(m) + rest =~= id_bytes(id) + (body + rest));
    lemma_id_roundtrip(id, body + rest);
    assert(skip(message_bytes::<M>(m) + rest, 2) =~= body + rest);
    M::lemma_roundtrip(m, rest);
}

} // verus!
