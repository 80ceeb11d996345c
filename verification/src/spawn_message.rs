//! The message that spawns an object on a client: its identifying fields,
//! its authority flags, its transform and its state. The transform's
//! position, rotation and scale are floating-point numbers; the message holds
//! their bit patterns.
use crate::blittable::Blittable;
use crate::compress::{spec_slice_and_size, WriteCompress};
use crate::message::{id_bytes, write_message_id, MessageSerializer};
use crate::network_writer::NetworkWriter;
use crate::stable_hash::spec_hash16;
use crate::sync_list::values_bytes;
use vstd::prelude::*;

verus! {

/// The flags of a spawn message.
#[derive(Debug, Clone, Copy, PartialEq, Eq, Default)]
pub enum AuthorityFlags {
    /// No flag.
    #[default]
    NoFlag,
    IsOwner,
    IsLocalPlayer,
}

impl AuthorityFlags {
    /// The bit of a flag.
    pub open spec fn spec_bits(self) -> u8 {
        match self {
            AuthorityFlags::NoFlag => 0,
            AuthorityFlags::IsOwner => 1,
            AuthorityFlags::IsLocalPlayer => 2,
        }
    }

    pub fn bits(&self) -> (r: u8)
        ensures
            r == self.spec_bits(),
    {
        match self {
            AuthorityFlags::NoFlag => 0,
            AuthorityFlags::IsOwner => 1,
            AuthorityFlags::IsLocalPlayer => 2,
        }
    }
}

/// The number of floating-point components of a transform: position (x, y,
/// z), rotation (x, y, z, w) and scale (x, y, z).
pub const TRANSFORM_COMPONENTS: usize = 10;

/// A message that spawns an object on a client.
#[derive(Debug, Clone, PartialEq, Eq, Default)]
pub struct SpawnMessage {
    pub net_id: u32,
    authority_flags: u8,
    pub scene_id: u64,
    pub asset_id: u32,
    /// The bit patterns of the transform's components, in the order of
    /// `TRANSFORM_COMPONENTS`.
    pub transform: [u32; 10],
    pub payload: Vec<u8>,
}

/// Whether `flags` holds the bit of `flag`.
pub open spec fn flags_have(flags: u8, flag: AuthorityFlags) -> bool {
    flags & flag.spec_bits() != 0
}

/// `flags` with the bit of `flag` set or cleared.
pub open spec fn flags_with(flags: u8, flag: AuthorityFlags, value: bool) -> u8 {
    if value {
        flags | flag.spec_bits()
    } else {
        flags & !flag.spec_bits()
    }
}

impl View for SpawnMessage {
    /// Net id, flags, scene id, asset id, payload and transform bits.
    type V = (u32, u8, u64, u32, Seq<u8>, Seq<u32>);

    closed spec fn view(&self) -> (u32, u8, u64, u32, Seq<u8>, Seq<u32>) {
        (self.net_id, self.authority_flags, self.scene_id, self.asset_id, self.payload@, self.transform@)
    }
}

impl SpawnMessage {
    pub open spec fn flags(&self) -> u8 {
        self@.1
    }

    pub fn new(
        net_id: u32,
        is_local_player: bool,
        is_owner: bool,
        scene_id: u64,
        asset_id: u32,
        transform: [u32; 10],
        payload: Vec<u8>,
    ) -> (r: SpawnMessage)
        ensures
            r@.0 == net_id,
            r@.2 == scene_id,
            r@.3 == asset_id,
            r@.4 == payload@,
            r@.5 == transform@,
            r.flags() == flags_with(
                flags_with(0, AuthorityFlags::IsLocalPlayer, is_local_player),
                AuthorityFlags::IsOwner,
                is_owner,
            ),
            r.spec_is_local_player() == is_local_player,
            r.spec_is_owner() == is_owner,
    {
        let mut message = SpawnMessage { net_id, scene_id, asset_id, transform, payload, authority_flags: 0 };
        message.set_is_local_player(is_local_player);
        message.set_is_owner(is_owner);
        proof {
            lemma_flags(0, AuthorityFlags::IsLocalPlayer, is_local_player);
            lemma_flags(
                flags_with(0, AuthorityFlags::IsLocalPlayer, is_local_player),
                AuthorityFlags::IsOwner,
                is_owner,
            );
        }
        message
    }

    pub open spec fn spec_has_flag(&self, flag: AuthorityFlags) -> bool {
        flags_have(self.flags(), flag)
    }

    pub open spec fn spec_is_owner(&self) -> bool {
        self.spec_has_flag(AuthorityFlags::IsOwner)
    }

    pub open spec fn spec_is_local_player(&self) -> bool {
        self.spec_has_flag(AuthorityFlags::IsLocalPlayer)
    }

    pub fn has_flag(&self, flag: AuthorityFlags) -> (r: bool)
        ensures
            r == self.spec_has_flag(flag),
    {
        self.authority_flags & flag.bits() != 0
    }

    pub fn set_flag(&mut self, flag: AuthorityFlags, value: bool)
        ensures
            final(self).flags() == flags_with(old(self).flags(), flag, value),
            final(self)@.0 == old(self)@.0,
            final(self)@.2 == old(self)@.2,
            final(self)@.3 == old(self)@.3,
            final(self)@.4 == old(self)@.4,
            final(self)@.5 == old(self)@.5,
    {
        if value {
            self.authority_flags = self.authority_flags | flag.bits();
        } else {
            self.authority_flags = self.authority_flags & !flag.bits();
        }
    }

    pub fn is_owner(&self) -> (r: bool)
        ensures
            r == self.spec_is_owner(),
    {
        self.has_flag(AuthorityFlags::IsOwner)
    }

    pub fn set_is_owner(&mut self, value: bool)
        ensures
            final(self).flags() == flags_with(old(self).flags(), AuthorityFlags::IsOwner, value),
            final(self)@.0 == old(self)@.0,
            final(self)@.2 == old(self)@.2,
            final(self)@.3 == old(self)@.3,
            final(self)@.4 == old(self)@.4,
            final(self)@.5 == old(self)@.5,
    {
        self.set_flag(AuthorityFlags::IsOwner, value);
    }

    pub fn is_local_player(&self) -> (r: bool)
        ensures
            r == self.spec_is_local_player(),
    {
        self.has_flag(AuthorityFlags::IsLocalPlayer)
    }

    pub fn set_is_local_player(&mut self, value: bool)
        ensures
            final(self).flags() == flags_with(
                old(self).flags(),
                AuthorityFlags::IsLocalPlayer,
                value,
            ),
            final(self)@.0 == old(self)@.0,
            final(self)@.2 == old(self)@.2,
            final(self)@.3 == old(self)@.3,
            final(self)@.4 == old(self)@.4,
            final(self)@.5 == old(self)@.5,
    {
        self.set_flag(AuthorityFlags::IsLocalPlayer, value);
    }
}

/// Law: setting a flag makes it read as the value set and leaves the other
/// flag as it was; the empty flag always reads as unset.
pub proof fn lemma_flags(flags: u8, flag: AuthorityFlags, value: bool)
    ensures
        flag != AuthorityFlags::NoFlag ==> flags_have(flags_with(flags, flag, value), flag) == value,
        !flags_have(flags_with(flags, flag, value), AuthorityFlags::NoFlag),
        forall|other: AuthorityFlags|
            other != flag ==> flags_have(flags_with(flags, flag, value), other) == flags_have(
                flags,
                other,
            ),
{
    assert((flags | 1u8) & 1u8 != 0 && (flags & !1u8) & 1u8 == 0) by (bit_vector);
    assert((flags | 2u8) & 2u8 != 0 && (flags & !2u8) & 2u8 == 0) by (bit_vector);
    assert((flags | 1u8) & 2u8 == flags & 2u8 && (flags & !1u8) & 2u8 == flags & 2u8)
        by (bit_vector);
    assert((flags | 2u8) & 1u8 == flags & 1u8 && (flags & !2u8) & 1u8 == flags & 1u8)
        by (bit_vector);
    assert(flags | 0u8 == flags && flags & !0u8 == flags) by (bit_vector);
    assert(forall|x: u8| #[trigger] (x & 0u8) == 0) by (bit_vector);
}

impl MessageSerializer for SpawnMessage {
    open spec fn spec_id() -> u16 {
        spec_hash16("Mirror.SpawnMessage"@)
    }

    /// The net id, the flags, the scene id, the asset id, the transform's
    /// bit patterns, then the payload with its length.
    open spec fn spec_body(m: (u32, u8, u64, u32, Seq<u8>, Seq<u32>)) -> Seq<u8> {
        m.0.spec_compressed() + m.1.spec_to_bytes() + m.2.spec_compressed() + m.3.spec_compressed()
            + values_bytes(m.5) + spec_slice_and_size(m.4)
    }

    open spec fn serializable(m: (u32, u8, u64, u32, Seq<u8>, Seq<u32>)) -> bool {
        &&& m.5.len() == TRANSFORM_COMPONENTS
        &&& m.4.len() + 1 <= u32::MAX
    }

    open spec fn body_max(m: (u32, u8, u64, u32, Seq<u8>, Seq<u32>)) -> nat {
        78 + m.4.len()
    }

    fn serialize(&mut self, writer: &mut NetworkWriter) {
        write_message_id(writer, "Mirror.SpawnMessage");
        writer.write_blittable_compress(self.net_id);
        writer.write_blittable(self.authority_flags);
        writer.write_blittable_compress(self.scene_id);
        writer.write_blittable_compress(self.asset_id);
        let ghost head = writer@;
        let mut i: usize = 0;
        while i < TRANSFORM_COMPONENTS
            invariant
                i <= TRANSFORM_COMPONENTS,
                writer.wf(),
                self.transform@.len() == TRANSFORM_COMPONENTS,
                writer@ == head + values_bytes(self.transform@.subrange(0, i as int)),
                writer.pos() == head.len() + 4 * i,
                writer.pos() + 4 * (TRANSFORM_COMPONENTS - i) + 9 + self.payload@.len() <= usize::MAX,
            decreases TRANSFORM_COMPONENTS - i,
        {
            proof {
                <u32 as Blittable>::lemma_image(self.transform@[i as int]);
            }
            writer.write_blittable(self.transform[i]);
            assert(self.transform@.subrange(0, i + 1).drop_last() =~= self.transform@.subrange(0, i as int));
            assert(self.transform@.subrange(0, i + 1).last() == self.transform@[i as int]);
            i = i + 1;
        }
        assert(self.transform@.subrange(0, 10) =~= self.transform@);
        assert(values_bytes(self.transform@).len() == 40);
        let ghost before_payload = writer@;
        writer.write_slice_and_size(self.payload.as_slice());
        proof {
            crate::compress::lemma_compressed_len((self.payload@.len() + 1) as u64);
            crate::compress::lemma_compressed_len(0);
            assert(spec_slice_and_size(self.payload@).len() <= 9 + self.payload@.len());
            assert(head.len() <= old(writer)@.len() + 2 + 28);
        }
        proof {
            crate::compress::lemma_compressed_len(self.net_id as u64);
            crate::compress::lemma_compressed_len(self.scene_id);
            crate::compress::lemma_compressed_len(self.asset_id as u64);
        }
        assert(writer@ =~= old(writer)@ + id_bytes(Self::spec_id()) + Self::spec_body(old(self)@));
    }
}

impl SpawnMessage {
    /// The bytes of the message: its id, then its body.
    pub fn to_bytes(&mut self) -> (r: Vec<u8>)
        requires
            <SpawnMessage as MessageSerializer>::serializable(old(self)@),
            old(self)@.4.len() + 80 <= usize::MAX,
        ensures
            r@ == id_bytes(<SpawnMessage as MessageSerializer>::spec_id())
                + <SpawnMessage as MessageSerializer>::spec_body(old(self)@),
            final(self)@ == old(self)@,
    {
        let mut writer = NetworkWriter::new();
        self.serialize(&mut writer);
        writer.to_vec()
    }
}

} // verus!
