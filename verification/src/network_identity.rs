//! A networked object as the server sees it: its components, its owner, its
//! observers, and how its state is serialized for them.
use crate::blittable::Blittable;
use crate::compress::{compressed_u64, lemma_compressed_len};
use crate::network_behaviour::{
    behaviour_dirty, NetworkBehaviour, NetworkBehaviourOnSerializer, SyncDirection, SyncMode,
};
use crate::network_writer::NetworkWriter;
use crate::remote_calls::{RemoteCallType, RemoteProcedureCalls};
use vstd::prelude::*;

verus! {

/// Most components that one networked object may have.
pub const MAX_NETWORK_BEHAVIOURS: usize = 64;

/// Who may see an object.
#[derive(Debug, Clone, Copy, PartialEq, Eq, Structural, Default)]
pub enum Visibility {
    #[default]
    Normal,
    ForceHidden,
    ForceShown,
}

/// Bit `i` of `mask` is set.
pub open spec fn mask_bit(mask: u64, i: u64) -> bool {
    mask & (1u64 << i) != 0u64
}

proof fn lemma_mask_bit_or(m: u64, i: u64, j: u64)
    requires
        i < 64,
        j < 64,
    ensures
        mask_bit(m | (1u64 << i), j) == (j == i || mask_bit(m, j)),
{
    assert(((m | (1u64 << i)) & (1u64 << j) != 0u64) == (j == i || m & (1u64 << j) != 0u64))
        by (bit_vector)
        requires
            i < 64,
            j < 64,
    ;
}

proof fn lemma_mask_bit_zero(j: u64)
    requires
        j < 64,
    ensures
        !mask_bit(0u64, j),
{
    assert(0u64 & (1u64 << j) == 0u64) by (bit_vector);
}

proof fn lemma_mask_or_zero(a: u64, b: u64)
    ensures
        (a | b) == 0u64 <==> (a == 0u64 && b == 0u64),
{
    assert((a | b) == 0u64 <==> (a == 0u64 && b == 0u64)) by (bit_vector);
}

/// The component must be sent to its owner: always in the initial state,
/// else when it changed and the server drives it.
pub open spec fn owner_dirty(b: NetworkBehaviour, initial_state: bool) -> bool {
    initial_state || (behaviour_dirty(b) && b.sync_direction == SyncDirection::ServerToClient)
}

/// The component must be sent to the observers: when they receive it, in the
/// initial state or when it changed.
pub open spec fn observers_dirty(b: NetworkBehaviour, initial_state: bool) -> bool {
    b.sync_mode == SyncMode::Observers && (initial_state || behaviour_dirty(b))
}

/// Component `b` must be sent to the owner (`for_owner`), respectively to
/// the observers.
pub open spec fn component_dirty(b: NetworkBehaviour, initial_state: bool, for_owner: bool) -> bool {
    if for_owner {
        owner_dirty(b, initial_state)
    } else {
        observers_dirty(b, initial_state)
    }
}

/// The mask with bit `i` set for each component `i` of `bs` that must be sent
/// to the owner (`for_owner`), respectively to the observers.
pub open spec fn dirty_mask(bs: Seq<NetworkBehaviour>, initial_state: bool, for_owner: bool) -> u64
    decreases bs.len(),
{
    if bs.len() == 0 {
        0u64
    } else {
        dirty_mask(bs.drop_last(), initial_state, for_owner) | if component_dirty(
            bs.last(),
            initial_state,
            for_owner,
        ) {
            1u64 << ((bs.len() - 1) as u64)
        } else {
            0u64
        }
    }
}

/// `mask` has bit `i` set exactly for the components `i` of `bs` that must
/// be sent.
pub open spec fn mask_of(mask: u64, bs: Seq<NetworkBehaviour>, initial_state: bool, for_owner: bool) -> bool {
    forall|i: u64|
        i < 64 ==> (#[trigger] mask_bit(mask, i) <==> (i < bs.len() && component_dirty(
            bs[i as int],
            initial_state,
            for_owner,
        )))
}

proof fn lemma_or_zero(m: u64)
    ensures
        m | 0u64 == m,
{
    assert(m | 0u64 == m) by (bit_vector);
}

/// The bits of `dirty_mask` name exactly the components to send.
pub proof fn lemma_dirty_mask_bits(bs: Seq<NetworkBehaviour>, initial_state: bool, for_owner: bool)
    requires
        bs.len() <= 64,
    ensures
        mask_of(dirty_mask(bs, initial_state, for_owner), bs, initial_state, for_owner),
    decreases bs.len(),
{
    if bs.len() == 0 {
        assert forall|j: u64| j < 64 implies !#[trigger] mask_bit(0u64, j) by {
            lemma_mask_bit_zero(j);
        }
    } else {
        let prev = dirty_mask(bs.drop_last(), initial_state, for_owner);
        lemma_dirty_mask_bits(bs.drop_last(), initial_state, for_owner);
        let n1 = (bs.len() - 1) as u64;
        if component_dirty(bs.last(), initial_state, for_owner) {
            assert forall|j: u64| j < 64 implies (#[trigger] mask_bit(
                dirty_mask(bs, initial_state, for_owner),
                j,
            ) <==> (j < bs.len() && component_dirty(bs[j as int], initial_state, for_owner))) by {
                lemma_mask_bit_or(prev, n1, j);
                if j < n1 {
                    assert(bs.drop_last()[j as int] == bs[j as int]);
                }
            }
        } else {
            lemma_or_zero(prev);
            assert forall|j: u64| j < 64 implies (#[trigger] mask_bit(
                dirty_mask(bs, initial_state, for_owner),
                j,
            ) <==> (j < bs.len() && component_dirty(bs[j as int], initial_state, for_owner))) by {
                if j < n1 {
                    assert(bs.drop_last()[j as int] == bs[j as int]);
                }
            }
        }
    }
}

/// What a component writes of itself.
pub open spec fn component_content(b: NetworkBehaviour, initial_state: bool) -> Seq<u8> {
    if initial_state {
        Seq::empty()
    } else {
        b.sync_object_dirty_bits.spec_to_bytes()
    }
}

/// A component's block: the low byte of its content's length, a safety
/// check for the reader, then the content.
pub open spec fn component_block(b: NetworkBehaviour, initial_state: bool) -> Seq<u8> {
    seq![(component_content(b, initial_state).len() % 256) as u8] + component_content(
        b,
        initial_state,
    )
}

/// The blocks of the components of `bs` whose bit `mask` sets, in order.
pub open spec fn dirty_blocks(bs: Seq<NetworkBehaviour>, mask: u64, initial_state: bool) -> Seq<
    u8,
>
    decreases bs.len(),
{
    if bs.len() == 0 {
        Seq::empty()
    } else {
        dirty_blocks(bs.drop_last(), mask, initial_state) + if mask_bit(
            mask,
            (bs.len() - 1) as u64,
        ) {
            component_block(bs.last(), initial_state)
        } else {
            Seq::empty()
        }
    }
}

/// What one observer class receives: the compressed mask, when some bit is
/// set, then the blocks of the components it names.
pub open spec fn serialization(bs: Seq<NetworkBehaviour>, mask: u64, initial_state: bool) -> Seq<
    u8,
> {
    (if mask != 0u64 {
        compressed_u64(mask)
    } else {
        Seq::empty()
    }) + dirty_blocks(bs, mask, initial_state)
}

/// `b` with its dirty bits cleared.
pub open spec fn cleared(b: NetworkBehaviour) -> NetworkBehaviour {
    NetworkBehaviour { sync_var_dirty_bits: 0, sync_object_dirty_bits: 0, ..b }
}

/// The components after a serialization: outside the initial state, those
/// that were sent to anyone have their dirty bits cleared.
pub open spec fn after_serialization(bs: Seq<NetworkBehaviour>, initial_state: bool) -> Seq<
    NetworkBehaviour,
> {
    Seq::new(
        bs.len(),
        |i: int|
            if !initial_state && (owner_dirty(bs[i], initial_state) || observers_dirty(
                bs[i],
                initial_state,
            )) {
                cleared(bs[i])
            } else {
                bs[i]
            },
    )
}

proof fn lemma_component_block_len(b: NetworkBehaviour, initial_state: bool)
    ensures
        component_content(b, initial_state).len() == if initial_state { 0nat } else { 8nat },
        component_block(b, initial_state).len() == if initial_state { 1nat } else { 9nat },
{
    crate::le_bytes::lemma_le_bytes_len(b.sync_object_dirty_bits as nat, 8);
}

proof fn lemma_dirty_blocks_len(bs: Seq<NetworkBehaviour>, mask: u64, initial_state: bool)
    ensures
        dirty_blocks(bs, mask, initial_state).len() <= 9 * bs.len(),
    decreases bs.len(),
{
    if bs.len() > 0 {
        lemma_dirty_blocks_len(bs.drop_last(), mask, initial_state);
        lemma_component_block_len(bs.last(), initial_state);
    }
}

/// A serialization of at most `MAX_NETWORK_BEHAVIOURS` components takes
/// at most 585 bytes.
pub proof fn lemma_serialization_len(bs: Seq<NetworkBehaviour>, mask: u64, initial_state: bool)
    requires
        bs.len() <= MAX_NETWORK_BEHAVIOURS,
    ensures
        serialization(bs, mask, initial_state).len() <= 585,
{
    lemma_dirty_blocks_len(bs, mask, initial_state);
    lemma_compressed_len(mask);
}

proof fn lemma_dirty_blocks_none(bs: Seq<NetworkBehaviour>, initial_state: bool)
    requires
        bs.len() <= 64,
    ensures
        dirty_blocks(bs, 0u64, initial_state) == Seq::<u8>::empty(),
    decreases bs.len(),
{
    if bs.len() > 0 {
        lemma_dirty_blocks_none(bs.drop_last(), initial_state);
        lemma_mask_bit_zero((bs.len() - 1) as u64);
    }
}

/// The writers that the last serialization of an object filled, and the
/// tick at which it was made.
pub struct NetworkIdentitySerialization {
    pub tick: u64,
    pub owner_writer: NetworkWriter,
    pub observers_writer: NetworkWriter,
}

impl NetworkIdentitySerialization {
    pub fn new() -> (r: Self)
        ensures
            r.tick == 0,
            r.owner_writer.wf(),
            r.observers_writer.wf(),
            r.owner_writer@ == Seq::<u8>::empty(),
            r.observers_writer@ == Seq::<u8>::empty(),
    {
        NetworkIdentitySerialization {
            tick: 0,
            owner_writer: NetworkWriter::new(),
            observers_writer: NetworkWriter::new(),
        }
    }

    /// Empties both writers.
    pub fn reset_writers(&mut self)
        ensures
            final(self).tick == old(self).tick,
            final(self).owner_writer@ == Seq::<u8>::empty(),
            final(self).observers_writer@ == Seq::<u8>::empty(),
            final(self).owner_writer.pos() == 0,
            final(self).observers_writer.pos() == 0,
            final(self).owner_writer.data() == old(self).owner_writer.data(),
            final(self).observers_writer.data() == old(self).observers_writer.data(),
    {
        self.owner_writer.reset();
        self.observers_writer.reset();
    }
}

/// How an object's authority changed since it was last told.
#[derive(Debug, Clone, Copy, PartialEq, Eq, Structural)]
pub enum AuthorityChange {
    Unchanged,
    Started,
    Stopped,
}

/// A networked object.
pub struct NetworkIdentity {
    /// Id of the object in the world; stable while it exists.
    pub object_id: u64,
    /// Id of the spawned object; 0 until spawned.
    pub net_id: u32,
    /// Name of the object, for diagnostics.
    pub name: String,
    /// Non-zero for objects that were placed in a scene.
    pub scene_id: u64,
    pub asset_id: u32,
    pub is_server: bool,
    pub server_only: bool,
    pub is_client: bool,
    pub is_owned: bool,
    pub destroy_called: bool,
    pub visibility: Visibility,
    /// Id of the connection that owns the object.
    pub connection: Option<u64>,
    /// Ids of the connections that observe the object.
    pub observers: Vec<u64>,
    /// The object's components, in order.
    pub behaviours: Vec<NetworkBehaviour>,
    /// Number of distinct component types that the object holds.
    pub component_type_count: usize,
    pub has_spawned: bool,
    pub had_authority: bool,
    pub last_serialization: NetworkIdentitySerialization,
}

/// What became of a remote call addressed to an object.
#[derive(Debug, Clone, Copy, PartialEq, Eq, Structural)]
pub enum RemoteCallOutcome {
    /// The component index names no component type of the object.
    ComponentOutOfBounds,
    /// No call of that kind is registered under the hash.
    NoReceiver,
    /// The delegate to run.
    Invoke(u64),
}

impl NetworkIdentity {
    /// An unspawned object with the given components.
    pub fn new(
        object_id: u64,
        name: String,
        scene_id: u64,
        asset_id: u32,
        behaviours: Vec<NetworkBehaviour>,
        component_type_count: usize,
    ) -> (r: Self)
        requires
            behaviours.len() <= MAX_NETWORK_BEHAVIOURS,
            (component_type_count as u8) <= behaviours.len(),
        ensures
            r.wf(),
            r.object_id == object_id,
            r.name@ == name@,
            r.scene_id == scene_id,
            r.asset_id == asset_id,
            r.behaviours@ == behaviours@,
            r.component_type_count == component_type_count,
            r.net_id == 0,
            r.connection is None,
            r.observers@ == Seq::<u64>::empty(),
            !r.is_server && !r.server_only && !r.is_client && !r.is_owned,
            !r.destroy_called && !r.has_spawned && !r.had_authority,
            r.visibility == Visibility::Normal,
            r.last_serialization.tick == 0,
    {
        NetworkIdentity {
            object_id,
            net_id: 0,
            name,
            scene_id,
            asset_id,
            is_server: false,
            server_only: false,
            is_client: false,
            is_owned: false,
            destroy_called: false,
            visibility: Visibility::Normal,
            connection: None,
            observers: Vec::new(),
            behaviours,
            component_type_count,
            has_spawned: false,
            had_authority: false,
            last_serialization: NetworkIdentitySerialization::new(),
        }
    }

    /// The object has at most `MAX_NETWORK_BEHAVIOURS` components, no more
    /// component types (modulo 256) than components, and its serialization
    /// writers are consistent.
    pub open spec fn wf(&self) -> bool {
        &&& self.behaviours.len() <= MAX_NETWORK_BEHAVIOURS
        &&& (self.component_type_count as u8) <= self.behaviours.len()
        &&& self.last_serialization.owner_writer.wf()
        &&& self.last_serialization.observers_writer.wf()
        &&& self.last_serialization.owner_writer@.len() <= 1024
        &&& self.last_serialization.observers_writer@.len() <= 1024
    }

    /// The owner and observer masks: bit `i` is set when component `i` must
    /// be sent to the owner, respectively to the observers.
    pub fn server_dirty_masks(&self, initial_state: bool) -> (r: (u64, u64))
        requires
            self.behaviours.len() <= MAX_NETWORK_BEHAVIOURS,
        ensures
            r.0 == dirty_mask(self.behaviours@, initial_state, true),
            r.1 == dirty_mask(self.behaviours@, initial_state, false),
    {
        let mut owner_mask: u64 = 0;
        let mut observer_mask: u64 = 0;
        let n = self.behaviours.len();
        let mut i: usize = 0;
        while i < n
            invariant
                n == self.behaviours.len(),
                n <= 64,
                i <= n,
                owner_mask == dirty_mask(self.behaviours@.subrange(0, i as int), initial_state, true),
                observer_mask == dirty_mask(
                    self.behaviours@.subrange(0, i as int),
                    initial_state,
                    false,
                ),
            decreases n - i,
        {
            let b = &self.behaviours[i];
            let nth_bit: u64 = 1u64 << (i as u64);
            let dirty = b.is_dirty();
            let ghost prefix = self.behaviours@.subrange(0, i as int + 1);
            proof {
                assert(prefix.drop_last() =~= self.behaviours@.subrange(0, i as int));
                assert(prefix.last() == self.behaviours@[i as int]);
                lemma_or_zero(owner_mask);
                lemma_or_zero(observer_mask);
            }
            if initial_state || (dirty && b.get_sync_direction() == SyncDirection::ServerToClient) {
                owner_mask = owner_mask | nth_bit;
            }
            if b.get_sync_mode() == SyncMode::Observers && (initial_state || dirty) {
                observer_mask = observer_mask | nth_bit;
            }
            i = i + 1;
        }
        assert(self.behaviours@.subrange(0, n as int) =~= self.behaviours@);
        (owner_mask, observer_mask)
    }

    /// The two objects differ in their components at most.
    pub open spec fn same_but_behaviours(&self, other: &NetworkIdentity) -> bool {
        &&& self.object_id == other.object_id
        &&& self.net_id == other.net_id
        &&& self.name@ == other.name@
        &&& self.scene_id == other.scene_id
        &&& self.asset_id == other.asset_id
        &&& self.is_server == other.is_server
        &&& self.server_only == other.server_only
        &&& self.is_client == other.is_client
        &&& self.is_owned == other.is_owned
        &&& self.destroy_called == other.destroy_called
        &&& self.visibility == other.visibility
        &&& self.connection == other.connection
        &&& self.observers@ == other.observers@
        &&& self.component_type_count == other.component_type_count
        &&& self.has_spawned == other.has_spawned
        &&& self.had_authority == other.had_authority
        &&& self.last_serialization == other.last_serialization
    }

    /// Serializes the object for its owner and for its observers. Each
    /// writer receives the compressed mask of the components that it must
    /// get, when that mask is not empty, then those components' blocks in
    /// order. Outside the initial state the components sent to anyone are
    /// cleared of their dirty bits.
    pub fn serialize_server(
        &mut self,
        initial_state: bool,
        owner_writer: &mut NetworkWriter,
        observers_writer: &mut NetworkWriter,
    )
        requires
            old(self).behaviours.len() <= MAX_NETWORK_BEHAVIOURS,
            old(owner_writer).wf(),
            old(observers_writer).wf(),
            old(owner_writer).pos() + 1024 <= usize::MAX,
            old(observers_writer).pos() + 1024 <= usize::MAX,
        ensures
            final(owner_writer).wf(),
            final(observers_writer).wf(),
            final(owner_writer)@ == old(owner_writer)@ + serialization(
                old(self).behaviours@,
                dirty_mask(old(self).behaviours@, initial_state, true),
                initial_state,
            ),
            final(observers_writer)@ == old(observers_writer)@ + serialization(
                old(self).behaviours@,
                dirty_mask(old(self).behaviours@, initial_state, false),
                initial_state,
            ),
            final(self).behaviours@ == after_serialization(old(self).behaviours@, initial_state),
            final(self).same_but_behaviours(old(self)),
    {
        let ghost bs = self.behaviours@;
        let n = self.behaviours.len();
        let (owner_mask, observer_mask) = self.server_dirty_masks(initial_state);
        proof {
            lemma_dirty_mask_bits(bs, initial_state, true);
            lemma_dirty_mask_bits(bs, initial_state, false);
            lemma_compressed_len(owner_mask);
            lemma_compressed_len(observer_mask);
            lemma_dirty_blocks_len(bs, owner_mask, initial_state);
            lemma_dirty_blocks_len(bs, observer_mask, initial_state);
        }
        if owner_mask != 0 {
            owner_writer.write_blittable_compress(owner_mask);
        }
        if observer_mask != 0 {
            observers_writer.write_blittable_compress(observer_mask);
        }
        let ghost owner_start = owner_writer@;
        let ghost observers_start = observers_writer@;
        assert(owner_start == old(owner_writer)@ + if owner_mask != 0u64 {
            compressed_u64(owner_mask)
        } else {
            Seq::<u8>::empty()
        });
        assert(observers_start == old(observers_writer)@ + if observer_mask != 0u64 {
            compressed_u64(observer_mask)
        } else {
            Seq::<u8>::empty()
        });
        if (owner_mask | observer_mask) != 0 {
            let mut i: usize = 0;
            while i < n
                invariant
                    n == bs.len(),
                    n <= 64,
                    i <= n,
                    owner_mask == dirty_mask(bs, initial_state, true),
                    observer_mask == dirty_mask(bs, initial_state, false),
                    mask_of(owner_mask, bs, initial_state, true),
                    mask_of(observer_mask, bs, initial_state, false),
                    self.behaviours@.len() == n,
                    forall|k: int|
                        0 <= k < i ==> self.behaviours@[k] == after_serialization(
                            bs,
                            initial_state,
                        )[k],
                    forall|k: int| i <= k < n ==> self.behaviours@[k] == bs[k],
                    self.same_but_behaviours(old(self)),
                    owner_writer.wf(),
                    observers_writer.wf(),
                    owner_writer@ == owner_start + dirty_blocks(
                        bs.subrange(0, i as int),
                        owner_mask,
                        initial_state,
                    ),
                    observers_writer@ == observers_start + dirty_blocks(
                        bs.subrange(0, i as int),
                        observer_mask,
                        initial_state,
                    ),
                    owner_start.len() + 9 * n + 1 <= old(owner_writer).pos() + 1024,
                    observers_start.len() + 9 * n + 1 <= old(observers_writer).pos() + 1024,
                    old(owner_writer).pos() + 1024 <= usize::MAX,
                    old(observers_writer).pos() + 1024 <= usize::MAX,
                decreases n - i,
            {
                let ghost prefix = bs.subrange(0, i as int + 1);
                proof {
                    assert(prefix.drop_last() =~= bs.subrange(0, i as int));
                    assert(prefix.last() == bs[i as int]);
                    lemma_dirty_blocks_len(bs.subrange(0, i as int), owner_mask, initial_state);
                    lemma_dirty_blocks_len(bs.subrange(0, i as int), observer_mask, initial_state);
                    lemma_component_block_len(bs[i as int], initial_state);
                    owner_writer.lemma_view();
                    observers_writer.lemma_view();
                }
                let owner_d = Self::is_dirty(owner_mask, i as u8);
                let observers_d = Self::is_dirty(observer_mask, i as u8);
                assert(owner_d == owner_dirty(bs[i as int], initial_state));
                assert(observers_d == observers_dirty(bs[i as int], initial_state));
                if owner_d || observers_d {
                    let mut temp = NetworkWriter::new();
                    let mut comp = self.behaviours[i];
                    comp.on_serialize(&mut temp, initial_state);
                    let size = temp.position();
                    let safety: u8 = (size % 256) as u8;
                    assert(temp@ == component_content(bs[i as int], initial_state));
                    if owner_d {
                        owner_writer.write_byte(safety);
                        owner_writer.write_slice(temp.to_slice(), 0, size);
                        assert(temp@.subrange(0, size as int) =~= temp@);
                    }
                    if observers_d {
                        observers_writer.write_byte(safety);
                        observers_writer.write_slice(temp.to_slice(), 0, size);
                        assert(temp@.subrange(0, size as int) =~= temp@);
                    }
                    if !initial_state {
                        comp.clear_all_dirty_bits();
                        self.behaviours.set(i, comp);
                    }
                }
                assert(owner_writer@ =~= owner_start + dirty_blocks(
                    prefix,
                    owner_mask,
                    initial_state,
                ));
                assert(observers_writer@ =~= observers_start + dirty_blocks(
                    prefix,
                    observer_mask,
                    initial_state,
                ));
                i = i + 1;
            }
            assert(bs.subrange(0, n as int) =~= bs);
        } else {
            proof {
                lemma_mask_or_zero(owner_mask, observer_mask);
                lemma_dirty_blocks_none(bs, initial_state);
                assert forall|k: int| 0 <= k < n implies self.behaviours@[k] == after_serialization(
                    bs,
                    initial_state,
                )[k] by {
                    lemma_mask_bit_zero(k as u64);
                    assert(!mask_bit(owner_mask, k as u64));
                    assert(!mask_bit(observer_mask, k as u64));
                }
            }
        }
        assert(self.behaviours@ =~= after_serialization(bs, initial_state));
    }

    /// The owner's and the observers' serialization of the object at `tick`.
    /// The one made last is reused at the tick it was made for; at another
    /// tick both writers are emptied and refilled, outside the initial
    /// state, and the tick is recorded.
    pub fn get_server_serialization_at_tick(&mut self, tick: u64) -> (r: (Vec<u8>, Vec<u8>))
        requires
            old(self).wf(),
        ensures
            final(self).wf(),
            old(self).last_serialization.tick == tick ==> {
                &&& *final(self) == *old(self)
                &&& r.0@ == old(self).last_serialization.owner_writer@
                &&& r.1@ == old(self).last_serialization.observers_writer@
            },
            old(self).last_serialization.tick != tick ==> {
                &&& final(self).last_serialization.tick == tick
                &&& r.0@ == serialization(
                    old(self).behaviours@,
                    dirty_mask(old(self).behaviours@, false, true),
                    false,
                )
                &&& r.1@ == serialization(
                    old(self).behaviours@,
                    dirty_mask(old(self).behaviours@, false, false),
                    false,
                )
                &&& final(self).last_serialization.owner_writer@ == r.0@
                &&& final(self).last_serialization.observers_writer@ == r.1@
                &&& final(self).behaviours@ == after_serialization(old(self).behaviours@, false)
                &&& final(self).object_id == old(self).object_id
                &&& final(self).net_id == old(self).net_id
                &&& final(self).connection == old(self).connection
                &&& final(self).observers@ == old(self).observers@
                &&& final(self).scene_id == old(self).scene_id
                &&& final(self).is_server == old(self).is_server
                &&& final(self).server_only == old(self).server_only
                &&& final(self).visibility == old(self).visibility
            },
    {
        if self.last_serialization.tick != tick {
            proof {
                lemma_serialization_len(self.behaviours@, dirty_mask(self.behaviours@, false, true), false);
                lemma_serialization_len(self.behaviours@, dirty_mask(self.behaviours@, false, false), false);
            }
            self.last_serialization.reset_writers();
            assert(self.last_serialization.owner_writer.data().subrange(0, 0) =~= Seq::<u8>::empty());
            assert(self.last_serialization.observers_writer.data().subrange(0, 0)
                =~= Seq::<u8>::empty());
            let mut owner_writer = NetworkWriter::new();
            let mut observers_writer = NetworkWriter::new();
            std::mem::swap(&mut owner_writer, &mut self.last_serialization.owner_writer);
            std::mem::swap(&mut observers_writer, &mut self.last_serialization.observers_writer);
            self.serialize_server(false, &mut owner_writer, &mut observers_writer);
            std::mem::swap(&mut owner_writer, &mut self.last_serialization.owner_writer);
            std::mem::swap(&mut observers_writer, &mut self.last_serialization.observers_writer);
            self.last_serialization.tick = tick;
        }
        (
            self.last_serialization.owner_writer.to_vec(),
            self.last_serialization.observers_writer.to_vec(),
        )
    }

    /// What an incoming remote call for component `component_index` comes
    /// to: refused when the index is not below the number of component types
    /// (taken modulo 256), else the delegate that is registered for a call of
    /// that kind under the hash, if any.
    pub fn handle_remote_call(
        &self,
        calls: &RemoteProcedureCalls,
        component_index: u8,
        function_hash: u16,
        remote_call_type: RemoteCallType,
    ) -> (r: RemoteCallOutcome)
        requires
            component_index < (self.component_type_count as u8) ==> component_index
                < self.behaviours.len(),
        ensures
            r == if component_index >= (self.component_type_count as u8) {
                RemoteCallOutcome::ComponentOutOfBounds
            } else if calls@.contains_key(function_hash) && calls@[function_hash].call_type
                == remote_call_type {
                RemoteCallOutcome::Invoke(calls@[function_hash].function)
            } else {
                RemoteCallOutcome::NoReceiver
            },
    {
        if component_index >= self.component_type_count as u8 {
            return RemoteCallOutcome::ComponentOutOfBounds;
        }
        match calls.invoke(function_hash, remote_call_type) {
            Some(function) => RemoteCallOutcome::Invoke(function),
            None => RemoteCallOutcome::NoReceiver,
        }
    }

    pub fn net_id(&self) -> (r: u32)
        ensures
            r == self.net_id,
    {
        self.net_id
    }

    pub fn set_net_id(&mut self, net_id: u32)
        ensures
            final(self).net_id == net_id,
            final(self).same_but_net_id(old(self)),
    {
        self.net_id = net_id;
    }

    /// The two objects differ in their net ids at most.
    pub open spec fn same_but_net_id(&self, other: &NetworkIdentity) -> bool {
        &&& self.object_id == other.object_id
        &&& self.behaviours@ == other.behaviours@
        &&& self.name@ == other.name@
        &&& self.scene_id == other.scene_id
        &&& self.asset_id == other.asset_id
        &&& self.is_server == other.is_server
        &&& self.server_only == other.server_only
        &&& self.is_client == other.is_client
        &&& self.is_owned == other.is_owned
        &&& self.destroy_called == other.destroy_called
        &&& self.visibility == other.visibility
        &&& self.connection == other.connection
        &&& self.observers@ == other.observers@
        &&& self.component_type_count == other.component_type_count
        &&& self.has_spawned == other.has_spawned
        &&& self.had_authority == other.had_authority
        &&& self.last_serialization == other.last_serialization
    }

    pub fn name(&self) -> (r: String)
        ensures
            r@ == self.name@,
    {
        self.name.clone()
    }

    /// Id of the owning connection.
    pub fn connection(&self) -> (r: Option<u64>)
        ensures
            r == self.connection,
    {
        self.connection
    }

    /// Records the owning connection, or none.
    pub fn set_connection(&mut self, connection: Option<u64>)
        ensures
            final(self).connection == connection,
            final(self).object_id == old(self).object_id,
            final(self).had_authority == old(self).had_authority,
            final(self).is_owned == old(self).is_owned,
            final(self).component_type_count == old(self).component_type_count,
            final(self).last_serialization == old(self).last_serialization,
            final(self).name@ == old(self).name@,
            final(self).asset_id == old(self).asset_id,
            final(self).is_client == old(self).is_client,
            final(self).net_id == old(self).net_id,
            final(self).behaviours@ == old(self).behaviours@,
            final(self).observers@ == old(self).observers@,
            final(self).scene_id == old(self).scene_id,
            final(self).is_server == old(self).is_server,
            final(self).server_only == old(self).server_only,
            final(self).visibility == old(self).visibility,
            final(self).wf() == old(self).wf(),
    {
        self.connection = connection;
    }

    /// Makes connection `connection_id` the owner.
    pub fn set_client_owner(&mut self, connection_id: u64)
        ensures
            final(self).connection == Some(connection_id),
            final(self).object_id == old(self).object_id,
            final(self).had_authority == old(self).had_authority,
            final(self).is_owned == old(self).is_owned,
            final(self).component_type_count == old(self).component_type_count,
            final(self).last_serialization == old(self).last_serialization,
            final(self).name@ == old(self).name@,
            final(self).asset_id == old(self).asset_id,
            final(self).is_client == old(self).is_client,
            final(self).net_id == old(self).net_id,
            final(self).behaviours@ == old(self).behaviours@,
            final(self).observers@ == old(self).observers@,
            final(self).scene_id == old(self).scene_id,
            final(self).is_server == old(self).is_server,
            final(self).server_only == old(self).server_only,
            final(self).visibility == old(self).visibility,
            final(self).wf() == old(self).wf(),
    {
        self.connection = Some(connection_id);
    }

    pub fn is_server_only(&self) -> (r: bool)
        ensures
            r == (self.is_server && !self.is_client),
    {
        self.is_server && !self.is_client
    }

    pub fn is_client_only(&self) -> (r: bool)
        ensures
            r == (!self.is_server && self.is_client),
    {
        !self.is_server && self.is_client
    }

    /// The object was placed in a scene rather than spawned from a prefab.
    pub fn is_scene_object(&self) -> (r: bool)
        ensures
            r == (self.scene_id != 0),
    {
        self.scene_id != 0
    }

    /// The object wakes up in the world: each component learns its index,
    /// and the object counts as spawned. True when it had spawned already,
    /// which means that it was instantiated from a scene object and must be
    /// destroyed.
    pub fn awake(&mut self) -> (r: bool)
        requires
            old(self).behaviours.len() <= MAX_NETWORK_BEHAVIOURS,
        ensures
            r == old(self).has_spawned,
            final(self).has_spawned,
            final(self).behaviours@.len() == old(self).behaviours@.len(),
            forall|i: int|
                0 <= i < old(self).behaviours@.len() ==> #[trigger] final(self).behaviours@[i]
                    == (NetworkBehaviour { component_index: i as u8, ..old(self).behaviours@[i] }),
            final(self).object_id == old(self).object_id,
            final(self).net_id == old(self).net_id,
            final(self).connection == old(self).connection,
            final(self).observers@ == old(self).observers@,
            final(self).scene_id == old(self).scene_id,
            final(self).wf() == old(self).wf(),
    {
        self.initialize_network_behaviours();
        let already = self.has_spawned;
        self.has_spawned = true;
        already
    }

    /// Tells each component its index in the object.
    pub fn initialize_network_behaviours(&mut self)
        requires
            old(self).behaviours.len() <= MAX_NETWORK_BEHAVIOURS,
        ensures
            final(self).behaviours@.len() == old(self).behaviours@.len(),
            forall|i: int|
                0 <= i < old(self).behaviours@.len() ==> #[trigger] final(self).behaviours@[i]
                    == (NetworkBehaviour { component_index: i as u8, ..old(self).behaviours@[i] }),
            final(self).same_but_behaviours(old(self)),
    {
        let n = self.behaviours.len();
        let mut i: usize = 0;
        while i < n
            invariant
                n == old(self).behaviours@.len(),
                n <= 64,
                i <= n,
                self.behaviours@.len() == n,
                forall|k: int|
                    0 <= k < i ==> #[trigger] self.behaviours@[k] == (NetworkBehaviour {
                        component_index: k as u8,
                        ..old(self).behaviours@[k]
                    }),
                forall|k: int| i <= k < n ==> #[trigger] self.behaviours@[k] == old(self).behaviours@[k],
                self.same_but_behaviours(old(self)),
            decreases n - i,
        {
            let mut b = self.behaviours[i];
            b.initialize(i as u8);
            self.behaviours.set(i, b);
            i = i + 1;
        }
    }

    /// Clears the dirty bits of every component.
    pub fn clear_all_components_dirty_bits(&mut self)
        ensures
            final(self).behaviours@.len() == old(self).behaviours@.len(),
            forall|i: int|
                0 <= i < old(self).behaviours@.len() ==> #[trigger] final(self).behaviours@[i]
                    == cleared(old(self).behaviours@[i]),
            final(self).same_but_behaviours(old(self)),
    {
        let n = self.behaviours.len();
        let mut i: usize = 0;
        while i < n
            invariant
                n == old(self).behaviours@.len(),
                i <= n,
                self.behaviours@.len() == n,
                forall|k: int| 0 <= k < i ==> #[trigger] self.behaviours@[k] == cleared(old(self).behaviours@[k]),
                forall|k: int| i <= k < n ==> #[trigger] self.behaviours@[k] == old(self).behaviours@[k],
                self.same_but_behaviours(old(self)),
            decreases n - i,
        {
            let mut b = self.behaviours[i];
            b.clear_all_dirty_bits();
            self.behaviours.set(i, b);
            i = i + 1;
        }
    }

    /// The two objects agree on their identity, ownership and roles.
    pub open spec fn keeps_core(&self, other: &NetworkIdentity) -> bool {
        &&& self.object_id == other.object_id
        &&& self.net_id == other.net_id
        &&& self.name@ == other.name@
        &&& self.scene_id == other.scene_id
        &&& self.asset_id == other.asset_id
        &&& self.is_server == other.is_server
        &&& self.server_only == other.server_only
        &&& self.is_client == other.is_client
        &&& self.is_owned == other.is_owned
        &&& self.destroy_called == other.destroy_called
        &&& self.visibility == other.visibility
        &&& self.connection == other.connection
        &&& self.component_type_count == other.component_type_count
        &&& self.has_spawned == other.has_spawned
        &&& self.last_serialization == other.last_serialization
    }

    /// The two objects agree on everything but their owner.
    pub open spec fn keeps_core_but_owner(&self, other: &NetworkIdentity) -> bool {
        &&& self.object_id == other.object_id
        &&& self.net_id == other.net_id
        &&& self.name@ == other.name@
        &&& self.scene_id == other.scene_id
        &&& self.asset_id == other.asset_id
        &&& self.is_server == other.is_server
        &&& self.server_only == other.server_only
        &&& self.is_client == other.is_client
        &&& self.is_owned == other.is_owned
        &&& self.visibility == other.visibility
        &&& self.component_type_count == other.component_type_count
        &&& self.last_serialization == other.last_serialization
        &&& self.behaviours@ == other.behaviours@
        &&& self.observers@ == other.observers@
    }

    /// Records whether the object is owned now, and says how that changed.
    pub fn notify_authority(&mut self) -> (r: AuthorityChange)
        ensures
            r == if !old(self).had_authority && old(self).is_owned {
                AuthorityChange::Started
            } else if old(self).had_authority && !old(self).is_owned {
                AuthorityChange::Stopped
            } else {
                AuthorityChange::Unchanged
            },
            final(self).had_authority == old(self).is_owned,
            final(self).keeps_core(old(self)),
            final(self).behaviours@ == old(self).behaviours@,
            final(self).observers@ == old(self).observers@,
    {
        let r = if !self.had_authority && self.is_owned {
            AuthorityChange::Started
        } else if self.had_authority && !self.is_owned {
            AuthorityChange::Stopped
        } else {
            AuthorityChange::Unchanged
        };
        self.had_authority = self.is_owned;
        r
    }

    /// Adds connection `connection_id` to the observers, unless it is one.
    /// The first observer finds every component clean. Says whether it was
    /// added.
    pub fn add_observer(&mut self, connection_id: u64) -> (r: bool)
        ensures
            r == !old(self).observers@.contains(connection_id),
            final(self).observers@ == if r {
                old(self).observers@.push(connection_id)
            } else {
                old(self).observers@
            },
            final(self).behaviours@.len() == old(self).behaviours@.len(),
            forall|i: int|
                0 <= i < old(self).behaviours@.len() ==> #[trigger] final(self).behaviours@[i]
                    == if r && old(self).observers@.len() == 0 {
                    cleared(old(self).behaviours@[i])
                } else {
                    old(self).behaviours@[i]
                },
            final(self).keeps_core(old(self)),
            final(self).had_authority == old(self).had_authority,
    {
        if crate::network_connection::contains_u64(&self.observers, connection_id) {
            return false;
        }
        if self.observers.len() == 0 {
            self.clear_all_components_dirty_bits();
        }
        self.observers.push(connection_id);
        true
    }

    /// Removes connection `connection_id` from the observers.
    pub fn remove_observer(&mut self, connection_id: u64)
        ensures
            final(self).observers@ == crate::network_connection::without(
                old(self).observers@,
                connection_id,
            ),
            final(self).behaviours@ == old(self).behaviours@,
            final(self).keeps_core(old(self)),
            final(self).had_authority == old(self).had_authority,
    {
        crate::network_connection::remove_all_u64(&mut self.observers, connection_id);
    }

    /// Forgets every observer; returns them, so that they stop observing the
    /// object.
    pub fn clear_observers(&mut self) -> (r: Vec<u64>)
        ensures
            r@ == old(self).observers@,
            final(self).observers@ == Seq::<u64>::empty(),
            final(self).behaviours@ == old(self).behaviours@,
            final(self).keeps_core(old(self)),
            final(self).had_authority == old(self).had_authority,
    {
        let mut observers = Vec::new();
        std::mem::swap(&mut observers, &mut self.observers);
        observers
    }

    /// Returns the object to its unspawned state: no roles, no owner, no
    /// net id and no observers. Says how its authority changed, and returns
    /// the observers it had.
    pub fn reset_state(&mut self) -> (r: (AuthorityChange, Vec<u64>))
        ensures
            !final(self).has_spawned,
            !final(self).is_client,
            !final(self).is_server,
            !final(self).is_owned,
            final(self).net_id == 0,
            final(self).connection is None,
            final(self).observers@ == Seq::<u64>::empty(),
            !final(self).had_authority,
            r.0 == if old(self).had_authority {
                AuthorityChange::Stopped
            } else {
                AuthorityChange::Unchanged
            },
            r.1@ == old(self).observers@,
            final(self).behaviours@ == old(self).behaviours@,
            final(self).scene_id == old(self).scene_id,
            final(self).server_only == old(self).server_only,
            final(self).visibility == old(self).visibility,
            final(self).last_serialization == old(self).last_serialization,
            final(self).component_type_count == old(self).component_type_count,
            final(self).name@ == old(self).name@,
            final(self).object_id == old(self).object_id,
            final(self).asset_id == old(self).asset_id,
            final(self).destroy_called == old(self).destroy_called,
    {
        self.has_spawned = false;
        self.is_client = false;
        self.is_server = false;
        self.is_owned = false;
        let change = self.notify_authority();
        self.net_id = 0;
        self.connection = None;
        let observers = self.clear_observers();
        (change, observers)
    }

    /// Reads the state that the owner of the object sent; a client's state is
    /// not applied on the server, and the read always succeeds.
    pub fn deserialize_server(&self, reader: &mut crate::network_reader::NetworkReader) -> (r: bool)
        ensures
            r,
            *final(reader) == *old(reader),
    {
        true
    }

    /// Bit `index` of `mask` is set.
    pub fn is_dirty(mask: u64, index: u8) -> (r: bool)
        requires
            index < 64,
        ensures
            r == mask_bit(mask, index as u64),
    {
        (mask & (1u64 << index)) != 0
    }
}

} // verus!
