//! The messages that the server sends and receives.
use crate::blittable::Blittable;
use crate::compress::{
    lemma_compressed_len, lemma_slice_and_size_roundtrip, lemma_u32_roundtrip,
    spec_read_slice_and_size, spec_slice_and_size, WriteCompress,
};
use crate::message::{
    read_compressed, read_fixed, skip, write_message_id, MessageDeserializer, MessageSerializer,
    NetworkMessage,
};
use crate::network_reader::NetworkReader;
use crate::network_writer::{has_nul, NetworkWriter};
use crate::stable_hash::spec_hash16;
use crate::wire_laws::{lemma_blittable_roundtrip, lemma_string_roundtrip};
use vstd::prelude::*;
use vstd::utf8::encode_utf8;

verus! {

/// Reading a fixed-size value from its image gives it back and leaves what
/// follows.
pub proof fn lemma_fixed_prefix<T: Blittable>(v: T, rest: Seq<u8>)
    ensures
        read_fixed::<T>(v.spec_to_bytes() + rest) == (v, T::byte_size()),
        skip(v.spec_to_bytes() + rest, T::byte_size()) == rest,
{
    lemma_blittable_roundtrip(v, rest);
    T::lemma_image(v);
    assert(skip(v.spec_to_bytes() + rest, T::byte_size()) =~= rest);
}

/// Reading a compressed `u32` from its encoding gives it back and leaves
/// what follows.
pub proof fn lemma_compressed_prefix(v: u32, rest: Seq<u8>)
    ensures
        read_compressed::<u32>(v.spec_compressed() + rest) == (v, v.spec_compressed().len()),
        skip(v.spec_compressed() + rest, v.spec_compressed().len()) == rest,
        v.spec_compressed().len() <= 9,
{
    lemma_u32_roundtrip(v, rest);
    lemma_compressed_len(v as u64);
    assert(skip(v.spec_compressed() + rest, v.spec_compressed().len()) =~= rest);
}

// ---------------------------------------------------------------- empty bodies

/// Sent by a client that wants a player object.
#[derive(Debug, Clone, Copy, PartialEq, Eq, Default)]
pub struct AddPlayerMessage;

/// Sent by a client that is ready to receive the world.
#[derive(Debug, Clone, Copy, PartialEq, Eq, Default)]
pub struct ReadyMessage;

/// Sent to a client that is no longer ready.
#[derive(Debug, Clone, Copy, PartialEq, Eq, Default)]
pub struct NotReadyMessage;

/// Sent before the objects that a client observes are spawned on it.
#[derive(Debug, Clone, Copy, PartialEq, Eq, Default)]
pub struct ObjectSpawnStartedMessage;

/// Sent after the objects that a client observes were spawned on it.
#[derive(Debug, Clone, Copy, PartialEq, Eq, Default)]
pub struct ObjectSpawnFinishedMessage;

/// Carries the remote time stamp of the batch it arrives in.
#[derive(Debug, Clone, Copy, PartialEq, Eq, Default)]
pub struct TimeSnapshotMessage;

impl AddPlayerMessage {
    pub fn new() -> Self {
        AddPlayerMessage
    }
}

impl NotReadyMessage {
    pub fn new() -> Self {
        NotReadyMessage
    }
}

impl ObjectSpawnFinishedMessage {
    pub fn new() -> Self {
        ObjectSpawnFinishedMessage
    }
}

impl TimeSnapshotMessage {
    pub fn new() -> Self {
        TimeSnapshotMessage
    }
}

impl View for AddPlayerMessage {
    type V = ();

    open spec fn view(&self) -> () {
        ()
    }
}

impl MessageSerializer for AddPlayerMessage {
    open spec fn spec_id() -> u16 {
        spec_hash16("Mirror.AddPlayerMessage"@)
    }

    open spec fn spec_body(m: ()) -> Seq<u8> {
        Seq::empty()
    }

    open spec fn serializable(m: ()) -> bool {
        true
    }

    open spec fn body_max(m: ()) -> nat {
        0
    }

    fn serialize(&mut self, writer: &mut NetworkWriter) {
        write_message_id(writer, Self::get_full_name());
        assert(writer@ =~= old(writer)@ + crate::message::id_bytes(Self::spec_id())
            + Seq::<u8>::empty());
    }
}

impl MessageDeserializer for AddPlayerMessage {
    open spec fn spec_deserialize(s: Seq<u8>) -> ((), nat) {
        ((), 0)
    }

    fn deserialize(reader: &mut NetworkReader) -> Self {
        AddPlayerMessage
    }
}

impl NetworkMessage for AddPlayerMessage {
    open spec fn reads_back(m: <Self as View>::V) -> bool {
        true
    }

    open spec fn spec_full_name() -> Seq<char> {
        "Mirror.AddPlayerMessage"@
    }

    fn get_full_name() -> &'static str {
        "Mirror.AddPlayerMessage"
    }

    fn message_id() -> u16 {
        crate::stable_hash::hash16(Self::get_full_name())
    }

    proof fn lemma_id() {
    }

    proof fn lemma_roundtrip(m: (), rest: Seq<u8>) {
    }
}

impl View for ReadyMessage {
    type V = ();

    open spec fn view(&self) -> () {
        ()
    }
}

impl MessageSerializer for ReadyMessage {
    open spec fn spec_id() -> u16 {
        spec_hash16("Mirror.ReadyMessage"@)
    }

    open spec fn spec_body(m: ()) -> Seq<u8> {
        Seq::empty()
    }

    open spec fn serializable(m: ()) -> bool {
        true
    }

    open spec fn body_max(m: ()) -> nat {
        0
    }

    fn serialize(&mut self, writer: &mut NetworkWriter) {
        write_message_id(writer, Self::get_full_name());
        assert(writer@ =~= old(writer)@ + crate::message::id_bytes(Self::spec_id())
            + Seq::<u8>::empty());
    }
}

impl MessageDeserializer for ReadyMessage {
    open spec fn spec_deserialize(s: Seq<u8>) -> ((), nat) {
        ((), 0)
    }

    fn deserialize(reader: &mut NetworkReader) -> Self {
        ReadyMessage
    }
}

impl NetworkMessage for ReadyMessage {
    open spec fn reads_back(m: <Self as View>::V) -> bool {
        true
    }

    open spec fn spec_full_name() -> Seq<char> {
        "Mirror.ReadyMessage"@
    }

    fn get_full_name() -> &'static str {
        "Mirror.ReadyMessage"
    }

    fn message_id() -> u16 {
        crate::stable_hash::hash16(Self::get_full_name())
    }

    proof fn lemma_id() {
    }

    proof fn lemma_roundtrip(m: (), rest: Seq<u8>) {
    }
}

impl View for NotReadyMessage {
    type V = ();

    open spec fn view(&self) -> () {
        ()
    }
}

impl MessageSerializer for NotReadyMessage {
    open spec fn spec_id() -> u16 {
        spec_hash16("Mirror.NotReadyMessage"@)
    }

    open spec fn spec_body(m: ()) -> Seq<u8> {
        Seq::empty()
    }

    open spec fn serializable(m: ()) -> bool {
        true
    }

    open spec fn body_max(m: ()) -> nat {
        0
    }

    fn serialize(&mut self, writer: &mut NetworkWriter) {
        write_message_id(writer, Self::get_full_name());
        assert(writer@ =~= old(writer)@ + crate::message::id_bytes(Self::spec_id())
            + Seq::<u8>::empty());
    }
}

impl MessageDeserializer for NotReadyMessage {
    open spec fn spec_deserialize(s: Seq<u8>) -> ((), nat) {
        ((), 0)
    }

    fn deserialize(reader: &mut NetworkReader) -> Self {
        NotReadyMessage
    }
}

impl NetworkMessage for NotReadyMessage {
    open spec fn reads_back(m: <Self as View>::V) -> bool {
        true
    }

    open spec fn spec_full_name() -> Seq<char> {
        "Mirror.NotReadyMessage"@
    }

    fn get_full_name() -> &'static str {
        "Mirror.NotReadyMessage"
    }

    fn message_id() -> u16 {
        crate::stable_hash::hash16(Self::get_full_name())
    }

    proof fn lemma_id() {
    }

    proof fn lemma_roundtrip(m: (), rest: Seq<u8>) {
    }
}

impl View for ObjectSpawnStartedMessage {
    type V = ();

    open spec fn view(&self) -> () {
        ()
    }
}

impl MessageSerializer for ObjectSpawnStartedMessage {
    open spec fn spec_id() -> u16 {
        spec_hash16("Mirror.ObjectSpawnStartedMessage"@)
    }

    open spec fn spec_body(m: ()) -> Seq<u8> {
        Seq::empty()
    }

    open spec fn serializable(m: ()) -> bool {
        true
    }

    open spec fn body_max(m: ()) -> nat {
        0
    }

    fn serialize(&mut self, writer: &mut NetworkWriter) {
        write_message_id(writer, Self::get_full_name());
        assert(writer@ =~= old(writer)@ + crate::message::id_bytes(Self::spec_id())
            + Seq::<u8>::empty());
    }
}

impl MessageDeserializer for ObjectSpawnStartedMessage {
    open spec fn spec_deserialize(s: Seq<u8>) -> ((), nat) {
        ((), 0)
    }

    fn deserialize(reader: &mut NetworkReader) -> Self {
        ObjectSpawnStartedMessage
    }
}

impl NetworkMessage for ObjectSpawnStartedMessage {
    open spec fn reads_back(m: <Self as View>::V) -> bool {
        true
    }

    open spec fn spec_full_name() -> Seq<char> {
        "Mirror.ObjectSpawnStartedMessage"@
    }

    fn get_full_name() -> &'static str {
        "Mirror.ObjectSpawnStartedMessage"
    }

    fn message_id() -> u16 {
        crate::stable_hash::hash16(Self::get_full_name())
    }

    proof fn lemma_id() {
    }

    proof fn lemma_roundtrip(m: (), rest: Seq<u8>) {
    }
}

impl View for ObjectSpawnFinishedMessage {
    type V = ();

    open spec fn view(&self) -> () {
        ()
    }
}

impl MessageSerializer for ObjectSpawnFinishedMessage {
    open spec fn spec_id() -> u16 {
        spec_hash16("Mirror.ObjectSpawnFinishedMessage"@)
    }

    open spec fn spec_body(m: ()) -> Seq<u8> {
        Seq::empty()
    }

    open spec fn serializable(m: ()) -> bool {
        true
    }

    open spec fn body_max(m: ()) -> nat {
        0
    }

    fn serialize(&mut self, writer: &mut NetworkWriter) {
        write_message_id(writer, Self::get_full_name());
        assert(writer@ =~= old(writer)@ + crate::message::id_bytes(Self::spec_id())
            + Seq::<u8>::empty());
    }
}

impl MessageDeserializer for ObjectSpawnFinishedMessage {
    open spec fn spec_deserialize(s: Seq<u8>) -> ((), nat) {
        ((), 0)
    }

    fn deserialize(reader: &mut NetworkReader) -> Self {
        ObjectSpawnFinishedMessage
    }
}

impl NetworkMessage for ObjectSpawnFinishedMessage {
    open spec fn reads_back(m: <Self as View>::V) -> bool {
        true
    }

    open spec fn spec_full_name() -> Seq<char> {
        "Mirror.ObjectSpawnFinishedMessage"@
    }

    fn get_full_name() -> &'static str {
        "Mirror.ObjectSpawnFinishedMessage"
    }

    fn message_id() -> u16 {
        crate::stable_hash::hash16(Self::get_full_name())
    }

    proof fn lemma_id() {
    }

    proof fn lemma_roundtrip(m: (), rest: Seq<u8>) {
    }
}

impl View for TimeSnapshotMessage {
    type V = ();

    open spec fn view(&self) -> () {
        ()
    }
}

impl MessageSerializer for TimeSnapshotMessage {
    open spec fn spec_id() -> u16 {
        spec_hash16("Mirror.TimeSnapshotMessage"@)
    }

    open spec fn spec_body(m: ()) -> Seq<u8> {
        Seq::empty()
    }

    open spec fn serializable(m: ()) -> bool {
        true
    }

    open spec fn body_max(m: ()) -> nat {
        0
    }

    fn serialize(&mut self, writer: &mut NetworkWriter) {
        write_message_id(writer, Self::get_full_name());
        assert(writer@ =~= old(writer)@ + crate::message::id_bytes(Self::spec_id())
            + Seq::<u8>::empty());
    }
}

impl MessageDeserializer for TimeSnapshotMessage {
    open spec fn spec_deserialize(s: Seq<u8>) -> ((), nat) {
        ((), 0)
    }

    fn deserialize(reader: &mut NetworkReader) -> Self {
        TimeSnapshotMessage
    }
}

impl NetworkMessage for TimeSnapshotMessage {
    open spec fn reads_back(m: <Self as View>::V) -> bool {
        true
    }

    open spec fn spec_full_name() -> Seq<char> {
        "Mirror.TimeSnapshotMessage"@
    }

    fn get_full_name() -> &'static str {
        "Mirror.TimeSnapshotMessage"
    }

    fn message_id() -> u16 {
        crate::stable_hash::hash16(Self::get_full_name())
    }

    proof fn lemma_id() {
    }

    proof fn lemma_roundtrip(m: (), rest: Seq<u8>) {
    }
}


/// Tells the observers of an object that it is gone.
#[derive(Debug, Clone, Copy, PartialEq, Eq, Default)]
pub struct ObjectDestroyMessage {
    pub net_id: u32,
}

impl ObjectDestroyMessage {
    pub fn new(net_id: u32) -> (r: Self)
        ensures
            r.net_id == net_id,
    {
        ObjectDestroyMessage { net_id }
    }
}

impl View for ObjectDestroyMessage {
    type V = u32;

    open spec fn view(&self) -> u32 {
        self.net_id
    }
}

impl MessageSerializer for ObjectDestroyMessage {
    open spec fn spec_id() -> u16 {
        spec_hash16("Mirror.ObjectDestroyMessage"@)
    }

    open spec fn spec_body(m: u32) -> Seq<u8> {
        m.spec_compressed()
    }

    open spec fn serializable(m: u32) -> bool {
        true
    }

    open spec fn body_max(m: u32) -> nat {
        9
    }

    fn serialize(&mut self, writer: &mut NetworkWriter) {
        write_message_id(writer, Self::get_full_name());
        writer.write_blittable_compress(self.net_id);
    }
}

impl MessageDeserializer for ObjectDestroyMessage {
    open spec fn spec_deserialize(s: Seq<u8>) -> (u32, nat) {
        read_compressed::<u32>(s)
    }

    fn deserialize(reader: &mut NetworkReader) -> Self {
        let net_id: u32 = reader.read_blittable_compress();
        ObjectDestroyMessage { net_id }
    }
}

impl NetworkMessage for ObjectDestroyMessage {
    open spec fn reads_back(m: <Self as View>::V) -> bool {
        true
    }

    open spec fn spec_full_name() -> Seq<char> {
        "Mirror.ObjectDestroyMessage"@
    }

    fn get_full_name() -> &'static str {
        "Mirror.ObjectDestroyMessage"
    }

    fn message_id() -> u16 {
        crate::stable_hash::hash16(Self::get_full_name())
    }

    proof fn lemma_id() {
    }

    proof fn lemma_roundtrip(m: u32, rest: Seq<u8>) {
        lemma_compressed_prefix(m, rest);
    }
}

/// Tells a client that an object left its sight.
#[derive(Debug, Clone, Copy, PartialEq, Eq, Default)]
pub struct ObjectHideMessage {
    pub net_id: u32,
}

impl ObjectHideMessage {
    pub fn new(net_id: u32) -> (r: Self)
        ensures
            r.net_id == net_id,
    {
        ObjectHideMessage { net_id }
    }
}

impl View for ObjectHideMessage {
    type V = u32;

    open spec fn view(&self) -> u32 {
        self.net_id
    }
}

impl MessageSerializer for ObjectHideMessage {
    open spec fn spec_id() -> u16 {
        spec_hash16("Mirror.ObjectHideMessage"@)
    }

    open spec fn spec_body(m: u32) -> Seq<u8> {
        m.spec_compressed()
    }

    open spec fn serializable(m: u32) -> bool {
        true
    }

    open spec fn body_max(m: u32) -> nat {
        9
    }

    fn serialize(&mut self, writer: &mut NetworkWriter) {
        write_message_id(writer, Self::get_full_name());
        writer.write_blittable_compress(self.net_id);
    }
}

impl MessageDeserializer for ObjectHideMessage {
    open spec fn spec_deserialize(s: Seq<u8>) -> (u32, nat) {
        read_compressed::<u32>(s)
    }

    fn deserialize(reader: &mut NetworkReader) -> Self {
        let net_id: u32 = reader.read_blittable_compress();
        ObjectHideMessage { net_id }
    }
}

impl NetworkMessage for ObjectHideMessage {
    open spec fn reads_back(m: <Self as View>::V) -> bool {
        true
    }

    open spec fn spec_full_name() -> Seq<char> {
        "Mirror.ObjectHideMessage"@
    }

    fn get_full_name() -> &'static str {
        "Mirror.ObjectHideMessage"
    }

    fn message_id() -> u16 {
        crate::stable_hash::hash16(Self::get_full_name())
    }

    proof fn lemma_id() {
    }

    proof fn lemma_roundtrip(m: u32, rest: Seq<u8>) {
        lemma_compressed_prefix(m, rest);
    }
}

/// Tells a client whether it owns an object, and whether the object is its
/// player.
#[derive(Debug, Clone, Copy, PartialEq, Eq, Default)]
pub struct ChangeOwnerMessage {
    pub net_id: u32,
    pub is_owner: bool,
    pub is_local_player: bool,
}

impl ChangeOwnerMessage {
    pub fn new(net_id: u32, is_owner: bool, is_local_player: bool) -> (r: Self)
        ensures
            r == (ChangeOwnerMessage { net_id, is_owner, is_local_player }),
    {
        ChangeOwnerMessage { net_id, is_owner, is_local_player }
    }
}

impl View for ChangeOwnerMessage {
    type V = ChangeOwnerMessage;

    open spec fn view(&self) -> ChangeOwnerMessage {
        *self
    }
}

impl MessageSerializer for ChangeOwnerMessage {
    open spec fn spec_id() -> u16 {
        spec_hash16("Mirror.ChangeOwnerMessage"@)
    }

    open spec fn spec_body(m: ChangeOwnerMessage) -> Seq<u8> {
        m.net_id.spec_compressed() + m.is_owner.spec_to_bytes() + m.is_local_player.spec_to_bytes()
    }

    open spec fn serializable(m: ChangeOwnerMessage) -> bool {
        true
    }

    open spec fn body_max(m: ChangeOwnerMessage) -> nat {
        11
    }

    fn serialize(&mut self, writer: &mut NetworkWriter) {
        write_message_id(writer, Self::get_full_name());
        writer.write_blittable_compress(self.net_id);
        writer.write_blittable(self.is_owner);
        writer.write_blittable(self.is_local_player);
        assert(writer@ =~= old(writer)@ + crate::message::id_bytes(Self::spec_id())
            + Self::spec_body(old(self)@));
    }
}

impl MessageDeserializer for ChangeOwnerMessage {
    open spec fn spec_deserialize(s: Seq<u8>) -> (ChangeOwnerMessage, nat) {
        let (net_id, k1) = read_compressed::<u32>(s);
        let s1 = skip(s, k1);
        let (is_owner, k2) = read_fixed::<bool>(s1);
        let s2 = skip(s1, k2);
        let (is_local_player, k3) = read_fixed::<bool>(s2);
        (ChangeOwnerMessage { net_id, is_owner, is_local_player }, k1 + k2 + k3)
    }

    fn deserialize(reader: &mut NetworkReader) -> Self {
        let ghost s = old(reader).rest();
        let net_id: u32 = reader.read_blittable_compress();
        assert(reader.rest() =~= skip(s, read_compressed::<u32>(s).1));
        let is_owner: bool = reader.read_blittable();
        let ghost s1 = skip(s, read_compressed::<u32>(s).1);
        assert(reader.rest() =~= skip(s1, read_fixed::<bool>(s1).1));
        let is_local_player: bool = reader.read_blittable();
        ChangeOwnerMessage { net_id, is_owner, is_local_player }
    }
}

impl NetworkMessage for ChangeOwnerMessage {
    open spec fn reads_back(m: <Self as View>::V) -> bool {
        true
    }

    open spec fn spec_full_name() -> Seq<char> {
        "Mirror.ChangeOwnerMessage"@
    }

    fn get_full_name() -> &'static str {
        "Mirror.ChangeOwnerMessage"
    }

    fn message_id() -> u16 {
        crate::stable_hash::hash16(Self::get_full_name())
    }

    proof fn lemma_id() {
    }

    proof fn lemma_roundtrip(m: ChangeOwnerMessage, rest: Seq<u8>) {
        let a = m.net_id.spec_compressed();
        let b = m.is_owner.spec_to_bytes();
        let c = m.is_local_player.spec_to_bytes();
        assert(Self::spec_body(m) + rest =~= a + (b + (c + rest)));
        lemma_compressed_prefix(m.net_id, b + (c + rest));
        lemma_fixed_prefix(m.is_owner, c + rest);
        lemma_fixed_prefix(m.is_local_player, rest);
    }
}

/// Asks the server to run a command of a component of an object.
#[derive(Debug, Clone, PartialEq, Eq, Default)]
pub struct CommandMessage {
    pub net_id: u32,
    pub component_index: u8,
    pub function_hash: u16,
    pub payload: Vec<u8>,
}

impl CommandMessage {
    pub fn new(net_id: u32, component_index: u8, function_hash: u16, payload: Vec<u8>) -> (r: Self)
        ensures
            r@ == (net_id, component_index, function_hash, payload@),
    {
        CommandMessage { net_id, component_index, function_hash, payload }
    }

    /// The payload without its first four bytes.
    pub fn get_payload_content(&self) -> (r: Vec<u8>)
        requires
            self.payload@.len() >= 4,
        ensures
            r@ == self.payload@.subrange(4, self.payload@.len() as int),
    {
        let n = self.payload.len();
        vstd::slice::slice_to_vec(vstd::slice::slice_subrange(self.payload.as_slice(), 4, n))
    }
}

impl View for CommandMessage {
    type V = (u32, u8, u16, Seq<u8>);

    open spec fn view(&self) -> (u32, u8, u16, Seq<u8>) {
        (self.net_id, self.component_index, self.function_hash, self.payload@)
    }
}

impl MessageSerializer for CommandMessage {
    open spec fn spec_id() -> u16 {
        spec_hash16("Mirror.CommandMessage"@)
    }

    open spec fn spec_body(m: (u32, u8, u16, Seq<u8>)) -> Seq<u8> {
        m.0.spec_compressed() + m.1.spec_to_bytes() + m.2.spec_to_bytes() + spec_slice_and_size(m.3)
    }

    open spec fn serializable(m: (u32, u8, u16, Seq<u8>)) -> bool {
        m.3.len() + 1 <= u32::MAX
    }

    open spec fn body_max(m: (u32, u8, u16, Seq<u8>)) -> nat {
        21 + m.3.len()
    }

    fn serialize(&mut self, writer: &mut NetworkWriter) {
        proof {
            lemma_compressed_len(0);
            lemma_compressed_len((self.payload@.len() + 1) as u64);
        }
        write_message_id(writer, Self::get_full_name());
        writer.write_blittable_compress(self.net_id);
        writer.write_blittable(self.component_index);
        writer.write_blittable(self.function_hash);
        writer.write_slice_and_size(self.payload.as_slice());
        assert(writer@ =~= old(writer)@ + crate::message::id_bytes(Self::spec_id())
            + Self::spec_body(old(self)@));
    }
}

impl MessageDeserializer for CommandMessage {
    open spec fn spec_deserialize(s: Seq<u8>) -> ((u32, u8, u16, Seq<u8>), nat) {
        let (net_id, k1) = read_compressed::<u32>(s);
        let s1 = skip(s, k1);
        let (component_index, k2) = read_fixed::<u8>(s1);
        let s2 = skip(s1, k2);
        let (function_hash, k3) = read_fixed::<u16>(s2);
        let s3 = skip(s2, k3);
        let (payload, k4) = spec_read_slice_and_size(s3);
        ((net_id, component_index, function_hash, payload), k1 + k2 + k3 + k4)
    }

    fn deserialize(reader: &mut NetworkReader) -> Self {
        let ghost s = old(reader).rest();
        let net_id: u32 = reader.read_blittable_compress();
        let ghost s1 = skip(s, read_compressed::<u32>(s).1);
        assert(reader.rest() =~= s1);
        let component_index: u8 = reader.read_blittable();
        let ghost s2 = skip(s1, read_fixed::<u8>(s1).1);
        assert(reader.rest() =~= s2);
        let function_hash: u16 = reader.read_blittable();
        let ghost s3 = skip(s2, read_fixed::<u16>(s2).1);
        assert(reader.rest() =~= s3);
        let payload = vstd::slice::slice_to_vec(reader.read_slice_and_size());
        CommandMessage { net_id, component_index, function_hash, payload }
    }
}

impl NetworkMessage for CommandMessage {
    open spec fn reads_back(m: <Self as View>::V) -> bool {
        true
    }

    open spec fn spec_full_name() -> Seq<char> {
        "Mirror.CommandMessage"@
    }

    fn get_full_name() -> &'static str {
        "Mirror.CommandMessage"
    }

    fn message_id() -> u16 {
        crate::stable_hash::hash16(Self::get_full_name())
    }

    proof fn lemma_id() {
    }

    proof fn lemma_roundtrip(m: (u32, u8, u16, Seq<u8>), rest: Seq<u8>) {
        let a = m.0.spec_compressed();
        let b = m.1.spec_to_bytes();
        let c = m.2.spec_to_bytes();
        let d = spec_slice_and_size(m.3);
        assert(Self::spec_body(m) + rest =~= a + (b + (c + (d + rest))));
        lemma_compressed_prefix(m.0, b + (c + (d + rest)));
        lemma_fixed_prefix(m.1, c + (d + rest));
        lemma_fixed_prefix(m.2, d + rest);
        lemma_slice_and_size_roundtrip(m.3, rest);
    }
}

/// Asks a client to run a remote call of a component of an object.
#[derive(Debug, Clone, PartialEq, Eq, Default)]
pub struct RpcMessage {
    pub net_id: u32,
    pub component_index: u8,
    pub function_hash: u16,
    pub payload: Vec<u8>,
}

impl RpcMessage {
    pub fn new(net_id: u32, component_index: u8, function_hash: u16, payload: Vec<u8>) -> (r: Self)
        ensures
            r@ == (net_id, component_index, function_hash, payload@),
    {
        RpcMessage { net_id, component_index, function_hash, payload }
    }
}

impl View for RpcMessage {
    type V = (u32, u8, u16, Seq<u8>);

    open spec fn view(&self) -> (u32, u8, u16, Seq<u8>) {
        (self.net_id, self.component_index, self.function_hash, self.payload@)
    }
}

impl MessageSerializer for RpcMessage {
    open spec fn spec_id() -> u16 {
        spec_hash16("Mirror.RpcMessage"@)
    }

    open spec fn spec_body(m: (u32, u8, u16, Seq<u8>)) -> Seq<u8> {
        m.0.spec_compressed() + m.1.spec_to_bytes() + m.2.spec_to_bytes() + spec_slice_and_size(m.3)
    }

    open spec fn serializable(m: (u32, u8, u16, Seq<u8>)) -> bool {
        m.3.len() + 1 <= u32::MAX
    }

    open spec fn body_max(m: (u32, u8, u16, Seq<u8>)) -> nat {
        21 + m.3.len()
    }

    fn serialize(&mut self, writer: &mut NetworkWriter) {
        proof {
            lemma_compressed_len(0);
            lemma_compressed_len((self.payload@.len() + 1) as u64);
        }
        write_message_id(writer, Self::get_full_name());
        writer.write_blittable_compress(self.net_id);
        writer.write_blittable(self.component_index);
        writer.write_blittable(self.function_hash);
        writer.write_slice_and_size(self.payload.as_slice());
        assert(writer@ =~= old(writer)@ + crate::message::id_bytes(Self::spec_id())
            + Self::spec_body(old(self)@));
    }
}

impl MessageDeserializer for RpcMessage {
    open spec fn spec_deserialize(s: Seq<u8>) -> ((u32, u8, u16, Seq<u8>), nat) {
        let (net_id, k1) = read_compressed::<u32>(s);
        let s1 = skip(s, k1);
        let (component_index, k2) = read_fixed::<u8>(s1);
        let s2 = skip(s1, k2);
        let (function_hash, k3) = read_fixed::<u16>(s2);
        let s3 = skip(s2, k3);
        let (payload, k4) = spec_read_slice_and_size(s3);
        ((net_id, component_index, function_hash, payload), k1 + k2 + k3 + k4)
    }

    fn deserialize(reader: &mut NetworkReader) -> Self {
        let ghost s = old(reader).rest();
        let net_id: u32 = reader.read_blittable_compress();
        let ghost s1 = skip(s, read_compressed::<u32>(s).1);
        assert(reader.rest() =~= s1);
        let component_index: u8 = reader.read_blittable();
        let ghost s2 = skip(s1, read_fixed::<u8>(s1).1);
        assert(reader.rest() =~= s2);
        let function_hash: u16 = reader.read_blittable();
        let ghost s3 = skip(s2, read_fixed::<u16>(s2).1);
        assert(reader.rest() =~= s3);
        let payload = vstd::slice::slice_to_vec(reader.read_slice_and_size());
        RpcMessage { net_id, component_index, function_hash, payload }
    }
}

impl NetworkMessage for RpcMessage {
    open spec fn reads_back(m: <Self as View>::V) -> bool {
        true
    }

    open spec fn spec_full_name() -> Seq<char> {
        "Mirror.RpcMessage"@
    }

    fn get_full_name() -> &'static str {
        "Mirror.RpcMessage"
    }

    fn message_id() -> u16 {
        crate::stable_hash::hash16(Self::get_full_name())
    }

    proof fn lemma_id() {
    }

    proof fn lemma_roundtrip(m: (u32, u8, u16, Seq<u8>), rest: Seq<u8>) {
        let a = m.0.spec_compressed();
        let b = m.1.spec_to_bytes();
        let c = m.2.spec_to_bytes();
        let d = spec_slice_and_size(m.3);
        assert(Self::spec_body(m) + rest =~= a + (b + (c + (d + rest))));
        lemma_compressed_prefix(m.0, b + (c + (d + rest)));
        lemma_fixed_prefix(m.1, c + (d + rest));
        lemma_fixed_prefix(m.2, d + rest);
        lemma_slice_and_size_roundtrip(m.3, rest);
    }
}

/// Carries the serialized state of an object.
#[derive(Debug, Clone, PartialEq, Eq, Default)]
pub struct EntityStateMessage {
    pub net_id: u32,
    pub payload: Vec<u8>,
}

impl EntityStateMessage {
    pub fn new(net_id: u32, payload: Vec<u8>) -> (r: Self)
        ensures
            r@ == (net_id, payload@),
    {
        EntityStateMessage { net_id, payload }
    }

    /// The payload without its first four bytes.
    pub fn get_payload_content(&self) -> (r: Vec<u8>)
        requires
            self.payload@.len() >= 4,
        ensures
            r@ == self.payload@.subrange(4, self.payload@.len() as int),
    {
        let n = self.payload.len();
        vstd::slice::slice_to_vec(vstd::slice::slice_subrange(self.payload.as_slice(), 4, n))
    }
}

impl View for EntityStateMessage {
    type V = (u32, Seq<u8>);

    open spec fn view(&self) -> (u32, Seq<u8>) {
        (self.net_id, self.payload@)
    }
}

impl MessageSerializer for EntityStateMessage {
    open spec fn spec_id() -> u16 {
        spec_hash16("Mirror.EntityStateMessage"@)
    }

    open spec fn spec_body(m: (u32, Seq<u8>)) -> Seq<u8> {
        m.0.spec_compressed() + spec_slice_and_size(m.1)
    }

    open spec fn serializable(m: (u32, Seq<u8>)) -> bool {
        m.1.len() + 1 <= u32::MAX
    }

    open spec fn body_max(m: (u32, Seq<u8>)) -> nat {
        18 + m.1.len()
    }

    fn serialize(&mut self, writer: &mut NetworkWriter) {
        proof {
            lemma_compressed_len(0);
            lemma_compressed_len((self.payload@.len() + 1) as u64);
        }
        write_message_id(writer, Self::get_full_name());
        writer.write_blittable_compress(self.net_id);
        writer.write_slice_and_size(self.payload.as_slice());
        assert(writer@ =~= old(writer)@ + crate::message::id_bytes(Self::spec_id())
            + Self::spec_body(old(self)@));
    }
}

impl MessageDeserializer for EntityStateMessage {
    open spec fn spec_deserialize(s: Seq<u8>) -> ((u32, Seq<u8>), nat) {
        let (net_id, k1) = read_compressed::<u32>(s);
        let s1 = skip(s, k1);
        let (payload, k2) = spec_read_slice_and_size(s1);
        ((net_id, payload), k1 + k2)
    }

    fn deserialize(reader: &mut NetworkReader) -> Self {
        let ghost s = old(reader).rest();
        let net_id: u32 = reader.read_blittable_compress();
        let ghost s1 = skip(s, read_compressed::<u32>(s).1);
        assert(reader.rest() =~= s1);
        let payload = vstd::slice::slice_to_vec(reader.read_slice_and_size());
        EntityStateMessage { net_id, payload }
    }
}

impl NetworkMessage for EntityStateMessage {
    open spec fn reads_back(m: <Self as View>::V) -> bool {
        true
    }

    open spec fn spec_full_name() -> Seq<char> {
        "Mirror.EntityStateMessage"@
    }

    fn get_full_name() -> &'static str {
        "Mirror.EntityStateMessage"
    }

    fn message_id() -> u16 {
        crate::stable_hash::hash16(Self::get_full_name())
    }

    proof fn lemma_id() {
    }

    proof fn lemma_roundtrip(m: (u32, Seq<u8>), rest: Seq<u8>) {
        let a = m.0.spec_compressed();
        let d = spec_slice_and_size(m.1);
        assert(Self::spec_body(m) + rest =~= a + (d + rest));
        lemma_compressed_prefix(m.0, d + rest);
        lemma_slice_and_size_roundtrip(m.1, rest);
    }
}

/// How a scene change applies.
#[derive(Debug, Clone, Copy, PartialEq, Eq, Default)]
pub enum SceneOperation {
    #[default]
    Normal,
    LoadAdditive,
    UnloadAdditive,
}

impl SceneOperation {
    pub open spec fn spec_to_u8(self) -> u8 {
        match self {
            SceneOperation::Normal => 0,
            SceneOperation::LoadAdditive => 1,
            SceneOperation::UnloadAdditive => 2,
        }
    }

    pub open spec fn spec_from(value: u8) -> SceneOperation {
        if value == 1 {
            SceneOperation::LoadAdditive
        } else if value == 2 {
            SceneOperation::UnloadAdditive
        } else {
            SceneOperation::Normal
        }
    }

    /// The operation that a number names; unknown numbers name `Normal`.
    pub fn from(value: u8) -> (r: SceneOperation)
        ensures
            r == Self::spec_from(value),
    {
        match value {
            0 => SceneOperation::Normal,
            1 => SceneOperation::LoadAdditive,
            2 => SceneOperation::UnloadAdditive,
            _ => SceneOperation::Normal,
        }
    }

    pub fn to_u8(&self) -> (r: u8)
        ensures
            r == self.spec_to_u8(),
    {
        match self {
            SceneOperation::Normal => 0,
            SceneOperation::LoadAdditive => 1,
            SceneOperation::UnloadAdditive => 2,
        }
    }
}

/// Law: an operation's number names the operation again.
pub proof fn lemma_scene_operation_roundtrip(op: SceneOperation)
    ensures
        SceneOperation::spec_from(op.spec_to_u8()) == op,
{
}

/// Tells a client to load or unload a scene.
#[derive(Debug, Clone, PartialEq, Eq, Default)]
pub struct SceneMessage {
    pub scene_name: String,
    pub operation: SceneOperation,
    pub custom_handling: bool,
}

impl SceneMessage {
    pub fn new(scene_name: String, operation: SceneOperation, custom_handling: bool) -> (r: Self)
        ensures
            r@ == (scene_name@, operation, custom_handling),
    {
        SceneMessage { scene_name, operation, custom_handling }
    }
}

impl View for SceneMessage {
    type V = (Seq<char>, SceneOperation, bool);

    open spec fn view(&self) -> (Seq<char>, SceneOperation, bool) {
        (self.scene_name@, self.operation, self.custom_handling)
    }
}

impl MessageSerializer for SceneMessage {
    open spec fn spec_id() -> u16 {
        spec_hash16("Mirror.SceneMessage"@)
    }

    open spec fn spec_body(m: (Seq<char>, SceneOperation, bool)) -> Seq<u8> {
        NetworkWriter::spec_str_bytes(m.0) + m.1.spec_to_u8().spec_to_bytes() + m.2.spec_to_bytes()
    }

    open spec fn serializable(m: (Seq<char>, SceneOperation, bool)) -> bool {
        !has_nul(m.0)
    }

    open spec fn body_max(m: (Seq<char>, SceneOperation, bool)) -> nat {
        (4 + NetworkWriter::max_string_length_spec()) as nat
    }

    fn serialize(&mut self, writer: &mut NetworkWriter) {
        write_message_id(writer, Self::get_full_name());
        writer.write_str(self.scene_name.as_str());
        writer.write_blittable(self.operation.to_u8());
        writer.write_blittable(self.custom_handling);
        assert(writer@ =~= old(writer)@ + crate::message::id_bytes(Self::spec_id())
            + Self::spec_body(old(self)@));
    }
}

impl MessageDeserializer for SceneMessage {
    open spec fn spec_deserialize(s: Seq<u8>) -> ((Seq<char>, SceneOperation, bool), nat) {
        let (scene_name, k1) = NetworkReader::spec_read_string(s);
        let s1 = skip(s, k1);
        let (op, k2) = read_fixed::<u8>(s1);
        let s2 = skip(s1, k2);
        let (custom_handling, k3) = read_fixed::<bool>(s2);
        ((scene_name, SceneOperation::spec_from(op), custom_handling), k1 + k2 + k3)
    }

    fn deserialize(reader: &mut NetworkReader) -> Self {
        let ghost s = old(reader).rest();
        let scene_name = reader.read_string();
        let ghost s1 = skip(s, NetworkReader::spec_read_string(s).1);
        assert(reader.rest() =~= s1);
        let op: u8 = reader.read_blittable();
        let ghost s2 = skip(s1, read_fixed::<u8>(s1).1);
        assert(reader.rest() =~= s2);
        let custom_handling: bool = reader.read_blittable();
        SceneMessage { scene_name, operation: SceneOperation::from(op), custom_handling }
    }
}

impl NetworkMessage for SceneMessage {
    open spec fn reads_back(m: <Self as View>::V) -> bool {
        encode_utf8(m.0).len() <= NetworkWriter::max_string_length_spec()
    }

    open spec fn spec_full_name() -> Seq<char> {
        "Mirror.SceneMessage"@
    }

    fn get_full_name() -> &'static str {
        "Mirror.SceneMessage"
    }

    fn message_id() -> u16 {
        crate::stable_hash::hash16(Self::get_full_name())
    }

    proof fn lemma_id() {
    }

    proof fn lemma_roundtrip(m: (Seq<char>, SceneOperation, bool), rest: Seq<u8>) {
        let a = NetworkWriter::spec_str_bytes(m.0);
        let b = m.1.spec_to_u8().spec_to_bytes();
        let c = m.2.spec_to_bytes();
        assert(Self::spec_body(m) + rest =~= a + (b + (c + rest)));
        lemma_string_roundtrip(m.0, b + (c + rest));
        assert(skip(a + (b + (c + rest)), a.len()) =~= b + (c + rest));
        lemma_fixed_prefix(m.1.spec_to_u8(), c + rest);
        lemma_fixed_prefix(m.2, rest);
    }
}

} // verus!
