//! The synchronisation state of a networked component: which way its state
//! flows, to whom, and which of its parts changed.
use crate::network_reader::NetworkReader;
use crate::network_writer::NetworkWriter;
use vstd::prelude::*;

verus! {

/// Which side's changes a component sends.
#[derive(Debug, Clone, Copy, PartialEq, Eq, Structural, Default)]
pub enum SyncDirection {
    #[default]
    ServerToClient,
    ClientToServer,
}

/// Who receives a component's changes.
#[derive(Debug, Clone, Copy, PartialEq, Eq, Structural, Default)]
pub enum SyncMode {
    #[default]
    Observers,
    Owner,
}

/// The synchronisation state of a component of a networked object.
#[derive(Debug, Clone, Copy, PartialEq, Eq, Default)]
pub struct NetworkBehaviour {
    pub sync_direction: SyncDirection,
    pub sync_mode: SyncMode,
    pub net_id: u32,
    pub component_index: u8,
    pub sync_var_dirty_bits: u64,
    pub sync_object_dirty_bits: u64,
    /// More than the sync interval has passed since the last sync, by the
    /// clock of the caller.
    pub sync_interval_elapsed: bool,
}

/// The component has changes to send: some dirty bit is set and its sync
/// interval has elapsed.
pub open spec fn behaviour_dirty(b: NetworkBehaviour) -> bool {
    (b.sync_var_dirty_bits | b.sync_object_dirty_bits) != 0u64 && b.sync_interval_elapsed
}

impl NetworkBehaviour {
    /// Places the component at `index` of its object.
    pub fn initialize(&mut self, index: u8)
        ensures
            *final(self) == (NetworkBehaviour { component_index: index, ..*old(self) }),
    {
        self.component_index = index;
    }

    pub fn is_dirty(&self) -> (r: bool)
        ensures
            r == behaviour_dirty(*self),
    {
        (self.sync_var_dirty_bits | self.sync_object_dirty_bits) != 0u64 && self.sync_interval_elapsed
    }

    pub fn get_sync_direction(&self) -> (r: SyncDirection)
        ensures
            r == self.sync_direction,
    {
        self.sync_direction
    }

    pub fn get_sync_mode(&self) -> (r: SyncMode)
        ensures
            r == self.sync_mode,
    {
        self.sync_mode
    }

    pub fn clear_all_dirty_bits(&mut self)
        ensures
            *final(self) == (NetworkBehaviour {
                sync_var_dirty_bits: 0,
                sync_object_dirty_bits: 0,
                ..*old(self)
            }),
    {
        self.sync_var_dirty_bits = 0;
        self.sync_object_dirty_bits = 0;
    }

    /// Marks the synchronised object at `index` as changed.
    pub fn set_sync_object_dirty(&mut self, index: u8)
        requires
            index < 64,
        ensures
            *final(self) == (NetworkBehaviour {
                sync_object_dirty_bits: old(self).sync_object_dirty_bits | (1u64 << index),
                ..*old(self)
            }),
    {
        self.sync_object_dirty_bits = self.sync_object_dirty_bits | (1u64 << index);
    }
}

/// Components that write their synchronised state.
pub trait NetworkBehaviourOnSerializer {
    fn on_serialize(&mut self, writer: &mut NetworkWriter, initial_state: bool)
        requires
            old(writer).wf(),
            old(writer).pos() + 8 <= usize::MAX,
    ;
}

/// Components whose synchronised objects and variables are written apart.
pub trait NetworkBehaviourSerializer: NetworkBehaviourOnSerializer {
    fn serialize_sync_objects(&mut self, writer: &mut NetworkWriter, initial_state: bool)
        requires
            old(writer).wf(),
            old(writer).pos() + 8 <= usize::MAX,
    ;

    fn serialize_sync_vars(&mut self, writer: &mut NetworkWriter, initial_state: bool)
        requires
            old(writer).wf(),
    ;
}

/// Components that read their synchronised state.
pub trait NetworkBehaviourOnDeserializer {
    fn on_deserialize(&mut self, reader: &mut NetworkReader, initial_state: bool)
        requires
            old(reader).wf(),
    ;
}

/// Components whose synchronised objects and variables are read apart.
pub trait NetworkBehaviourDeserializer: NetworkBehaviourOnDeserializer {
    fn deserialize_sync_objects(&mut self, reader: &mut NetworkReader, initial_state: bool)
        requires
            old(reader).wf(),
    ;

    fn deserialize_sync_vars(&mut self, reader: &mut NetworkReader, initial_state: bool)
        requires
            old(reader).wf(),
    ;
}

impl NetworkBehaviourOnSerializer for NetworkBehaviour {
    /// Writes the synchronised objects, then the synchronised variables.
    fn on_serialize(&mut self, writer: &mut NetworkWriter, initial_state: bool)
        ensures
            final(writer).wf(),
            final(writer)@ == old(writer)@ + if initial_state {
                Seq::<u8>::empty()
            } else {
                crate::blittable::Blittable::spec_to_bytes(&old(self).sync_object_dirty_bits)
            },
            *final(self) == *old(self),
    {
        self.serialize_sync_objects(writer, initial_state);
        self.serialize_sync_vars(writer, initial_state);
    }
}

impl NetworkBehaviourSerializer for NetworkBehaviour {
    /// Writes all synchronised objects for the initial state (none here);
    /// else the dirty mask of the synchronised objects and their changes
    /// (none here).
    fn serialize_sync_objects(&mut self, writer: &mut NetworkWriter, initial_state: bool)
        ensures
            final(writer).wf(),
            final(writer)@ == old(writer)@ + if initial_state {
                Seq::<u8>::empty()
            } else {
                crate::blittable::Blittable::spec_to_bytes(&old(self).sync_object_dirty_bits)
            },
            *final(self) == *old(self),
    {
        if !initial_state {
            writer.write_blittable::<u64>(self.sync_object_dirty_bits);
        } else {
            assert(writer@ =~= old(writer)@ + Seq::<u8>::empty());
        }
    }

    /// The base component has no synchronised variables.
    fn serialize_sync_vars(&mut self, writer: &mut NetworkWriter, initial_state: bool)
        ensures
            *final(writer) == *old(writer),
            *final(self) == *old(self),
    {
    }
}

impl NetworkBehaviourOnDeserializer for NetworkBehaviour {
    /// Reads the synchronised objects, then the synchronised variables.
    fn on_deserialize(&mut self, reader: &mut NetworkReader, initial_state: bool)
        ensures
            initial_state ==> *final(self) == *old(self) && *final(reader) == *old(reader),
            !initial_state ==> ({
                let (bits, n) = crate::message::read_fixed::<u64>(old(reader).rest());
                &&& *final(self) == (NetworkBehaviour { sync_object_dirty_bits: bits, ..*old(self) })
                &&& NetworkReader::advanced(*old(reader), *final(reader), n)
            }),
    {
        self.deserialize_sync_objects(reader, initial_state);
        self.deserialize_sync_vars(reader, initial_state);
    }
}

impl NetworkBehaviourDeserializer for NetworkBehaviour {
    /// Reads all synchronised objects for the initial state (none here);
    /// else the dirty mask of the synchronised objects and their changes
    /// (none here).
    fn deserialize_sync_objects(&mut self, reader: &mut NetworkReader, initial_state: bool)
        ensures
            initial_state ==> *final(self) == *old(self) && *final(reader) == *old(reader),
            !initial_state ==> ({
                let (bits, n) = crate::message::read_fixed::<u64>(old(reader).rest());
                &&& *final(self) == (NetworkBehaviour { sync_object_dirty_bits: bits, ..*old(self) })
                &&& NetworkReader::advanced(*old(reader), *final(reader), n)
            }),
    {
        if !initial_state {
            self.sync_object_dirty_bits = reader.read_blittable::<u64>();
        }
    }

    /// The base component has no synchronised variables.
    fn deserialize_sync_vars(&mut self, reader: &mut NetworkReader, initial_state: bool)
        ensures
            *final(reader) == *old(reader),
            *final(self) == *old(self),
    {
    }
}

} // verus!
