//! Laws of the server's handler table, of its connection list, of the
//! remote call registry, of what commands, spawns and broadcasts carry, and
//! of the room's count of ready players, stated over what their operations
//! promise.
use crate::network_behaviour::{NetworkBehaviour, SyncDirection, SyncMode};
use crate::network_connection::NetworkConnectionToClient;
use crate::network_identity::{dirty_mask, lemma_dirty_mask_bits, mask_bit, serialization};
use crate::network_room_manager::{ready_connections, RoomPlayer};
use crate::network_server::{
    sends_to_all, spawn_payload, unique_connections, ActionView, MessageHandler, NetworkServer,
};
use crate::transport::TransportChannel;
use crate::remote_calls::{Invoker, RemoteCallType, RemoteProcedureCalls};
use vstd::prelude::*;

verus! {

/// The handler table after `register_handler` for message id `id`: a
/// handler already there stays.
pub open spec fn registered(h: Map<u16, MessageHandler>, id: u16, mh: MessageHandler) -> Map<u16, MessageHandler> {
    if h.contains_key(id) {
        h
    } else {
        h.insert(id, mh)
    }
}

/// Law: registering a handler and then unregistering the message leaves no
/// handler for it, and every other handler as it was.
pub proof fn lemma_register_then_unregister(h: Map<u16, MessageHandler>, id: u16, mh: MessageHandler)
    ensures
        registered(h, id, mh).remove(id) == h.remove(id),
        !registered(h, id, mh).remove(id).contains_key(id),
{
    assert(registered(h, id, mh).remove(id) =~= h.remove(id));
}

/// Law: replacing a handler and then unregistering the message leaves no
/// handler for it, and every other handler as it was.
pub proof fn lemma_replace_then_unregister(h: Map<u16, MessageHandler>, id: u16, mh: MessageHandler)
    ensures
        h.insert(id, mh).remove(id) == h.remove(id),
{
    assert(h.insert(id, mh).remove(id) =~= h.remove(id));
}

/// Law: a second registration for the same message changes nothing; the
/// first handler is the one that runs.
pub proof fn lemma_register_keeps_first(h: Map<u16, MessageHandler>, id: u16, first: MessageHandler, second: MessageHandler)
    ensures
        registered(registered(h, id, first), id, second) == registered(h, id, first),
        registered(h, id, first).contains_key(id),
        !h.contains_key(id) ==> registered(h, id, first)[id] == first,
{
}

/// Law: once a connection is accepted, the same id is not accepted again
/// while it is listed.
pub proof fn lemma_accepted_once(server: NetworkServer, connection_id: u64)
    requires
        server.connections@.len() > 0,
        server.connections@.last().connection_id == connection_id,
    ensures
        server.has_connection(connection_id),
        !server.spec_connection_allowed(connection_id),
{
    let i = server.connections@.len() - 1;
    assert(server.connections@[i].connection_id == connection_id);
}

/// Law: a connection that went away can come back with the same id, when the
/// server listens and has room.
pub proof fn lemma_disconnected_may_return(server: NetworkServer, connection_id: u64)
    requires
        !server.has_connection(connection_id),
        server.listen,
        connection_id != 0,
        (server.connections@.len() as i32) < server.max_connections,
    ensures
        server.spec_connection_allowed(connection_id),
{
}

/// Law: once a remote call is registered, its hash leads to it: a call of
/// its kind under the hash invokes its delegate.
pub proof fn lemma_registered_call_is_invoked(
    prev: Map<u16, Invoker>,
    next: Map<u16, Invoker>,
    hash: u16,
    component_type: u64,
    call_type: RemoteCallType,
    function: u64,
    cmd_requires_authority: bool,
    name: Seq<char>,
)
    requires
        RemoteProcedureCalls::spec_after_register(
            prev,
            next,
            hash,
            component_type,
            call_type,
            function,
            cmd_requires_authority,
            name,
        ),
    ensures
        next.contains_key(hash),
        next[hash].call_type == call_type,
        next[hash].function == function,
        next[hash].component_type == component_type,
{
}

/// Law: what a command from a connection comes to is at most one run of a
/// delegate, on the object's component that the message names, for the
/// sending connection, and on exactly the payload bytes that the message
/// carries. A ready sender, a spawned object that it may command, a
/// component index within the object's types and a registered command make
/// that run happen.
pub proof fn lemma_command_runs_on_its_payload(server: NetworkServer, connection_id: u64, m: (u32, u8, u16, Seq<u8>))
    ensures
        server.command_actions(connection_id, m).len() <= 1,
        forall|i: int|
            0 <= i < server.command_actions(connection_id, m).len() ==> match #[trigger] server.command_actions(
                connection_id,
                m,
            )[i] {
                ActionView::InvokeCommand { connection_id: c, component_index, payload, .. } => c
                    == connection_id && component_index == m.1 && payload == m.3,
                _ => false,
            },
        forall|k: int|
            #[trigger] server.spawned_at(m.0, k) && server.is_ready(connection_id) && server.calls@.contains_key(m.2)
                && server.calls@[m.2].call_type == RemoteCallType::Command && (!server.calls@[m.2].cmd_requires_authority
                || server.objects@[k].connection == Some(connection_id)) && m.1 < (
            server.objects@[k].component_type_count as u8) ==> server.command_actions(connection_id, m)
                =~= seq![
                ActionView::InvokeCommand {
                    delegate: server.calls@[m.2].function,
                    object_id: server.objects@[k].object_id,
                    component_index: m.1,
                    connection_id,
                    payload: m.3,
                },
            ],
{
    assert forall|k: int|
        #[trigger] server.spawned_at(m.0, k) && server.is_ready(connection_id) && server.calls@.contains_key(m.2)
            && server.calls@[m.2].call_type == RemoteCallType::Command && (!server.calls@[m.2].cmd_requires_authority
            || server.objects@[k].connection == Some(connection_id)) && m.1 < (
        server.objects@[k].component_type_count as u8) implies server.command_actions(connection_id, m)
            =~= seq![
            ActionView::InvokeCommand {
                delegate: server.calls@[m.2].function,
                object_id: server.objects@[k].object_id,
                component_index: m.1,
                connection_id,
                payload: m.3,
            },
        ] by {
        let k2 = choose|k: int| server.spawned_at(m.0, k);
        assert(server.spawned_at(m.0, k2));
        if k2 < k {
            assert(server.objects@[k2].net_id != m.0);
        } else if k < k2 {
            assert(server.objects@[k].net_id != m.0);
        }
    }
}

/// Law: outside the initial state, a component that its owner drives
/// (`ClientToServer`) is never sent back to the owner; a component that the
/// server drives and that changed is; in the initial state every component
/// is. The observers get exactly the changed components that they may see.
pub proof fn lemma_owner_mask_skips_owner_driven(bs: Seq<NetworkBehaviour>, i: u64)
    requires
        bs.len() <= 64,
        i < bs.len(),
    ensures
        bs[i as int].sync_direction == SyncDirection::ClientToServer ==> !mask_bit(dirty_mask(bs, false, true), i),
        bs[i as int].sync_direction == SyncDirection::ServerToClient ==> (mask_bit(dirty_mask(bs, false, true), i)
            <==> crate::network_behaviour::behaviour_dirty(bs[i as int])),
        mask_bit(dirty_mask(bs, true, true), i),
        mask_bit(dirty_mask(bs, false, false), i) <==> (bs[i as int].sync_mode == SyncMode::Observers
            && crate::network_behaviour::behaviour_dirty(bs[i as int])),
{
    lemma_dirty_mask_bits(bs, false, true);
    lemma_dirty_mask_bits(bs, true, true);
    lemma_dirty_mask_bits(bs, false, false);
    assert(mask_bit(dirty_mask(bs, false, true), i) <==> crate::network_identity::component_dirty(bs[i as int], false, true));
    assert(mask_bit(dirty_mask(bs, true, true), i) <==> crate::network_identity::component_dirty(bs[i as int], true, true));
    assert(mask_bit(dirty_mask(bs, false, false), i) <==> crate::network_identity::component_dirty(bs[i as int], false, false));
}

/// Law: the spawn message of an object carries, for its owner, the initial
/// state of every component, and for any other connection the initial
/// state of the components that observers may see (`Observers` mode).
pub proof fn lemma_spawn_payload_audience(bs: Seq<NetworkBehaviour>)
    requires
        0 < bs.len() <= 64,
    ensures
        exists|mask: u64|
            spawn_payload(bs, true) == serialization(bs, mask, true) && forall|i: u64|
                i < 64 ==> (#[trigger] mask_bit(mask, i) <==> i < bs.len()),
        exists|mask: u64|
            spawn_payload(bs, false) == serialization(bs, mask, true) && forall|i: u64|
                i < 64 ==> (#[trigger] mask_bit(mask, i) <==> (i < bs.len() && bs[i as int].sync_mode
                    == SyncMode::Observers)),
{
    lemma_dirty_mask_bits(bs, true, true);
    lemma_dirty_mask_bits(bs, true, false);
    let mo = dirty_mask(bs, true, true);
    let mb = dirty_mask(bs, true, false);
    assert(spawn_payload(bs, true) == serialization(bs, mo, true));
    assert(spawn_payload(bs, false) == serialization(bs, mb, true));
    assert forall|i: u64| i < 64 implies (#[trigger] mask_bit(mo, i) <==> i < bs.len()) by {
        assert(crate::network_identity::mask_of(mo, bs, true, true));
        assert(mask_bit(mo, i) <==> (i < bs.len() && crate::network_identity::component_dirty(bs[i as int], true, true)));
    }
    assert forall|i: u64| i < 64 implies (#[trigger] mask_bit(mb, i) <==> (i < bs.len() && bs[i as int].sync_mode
        == SyncMode::Observers)) by {
        assert(crate::network_identity::mask_of(mb, bs, true, false));
        assert(mask_bit(mb, i) <==> (i < bs.len() && crate::network_identity::component_dirty(bs[i as int], true, false)));
    }
}

/// Law: a send to the ready connections only reaches only connections that
/// are ready, and each of them exactly once.
pub proof fn lemma_ready_sends_reach_ready_connections(
    cs: Seq<NetworkConnectionToClient>,
    channel: TransportChannel,
    payload: Seq<u8>,
)
    requires
        unique_connections(cs),
    ensures
        forall|i: int|
            0 <= i < sends_to_all(cs, true, channel, payload).len() ==> match #[trigger] sends_to_all(
                cs,
                true,
                channel,
                payload,
            )[i] {
                ActionView::Send { connection_id, channel: ch, payload: p } => ch == channel && p == payload
                    && exists|j: int| 0 <= j < cs.len() && #[trigger] cs[j].connection_id == connection_id && cs[j].is_ready,
                _ => false,
            },
    decreases cs.len(),
{
    if cs.len() > 0 {
        let d = cs.drop_last();
        assert(unique_connections(d)) by {
            assert forall|a: int, b: int| 0 <= a < b < d.len() implies #[trigger] d[a].connection_id != #[trigger] d[b].connection_id by {
                assert(d[a] == cs[a] && d[b] == cs[b]);
            }
        }
        lemma_ready_sends_reach_ready_connections(d, channel, payload);
        let prev = sends_to_all(d, true, channel, payload);
        let all = sends_to_all(cs, true, channel, payload);
        assert forall|i: int| 0 <= i < all.len() implies match #[trigger] all[i] {
            ActionView::Send { connection_id, channel: ch, payload: p } => ch == channel && p == payload && exists|j: int|
                0 <= j < cs.len() && #[trigger] cs[j].connection_id == connection_id && cs[j].is_ready,
            _ => false,
        } by {
            if i < prev.len() {
                assert(all[i] == prev[i]);
                match prev[i] {
                    ActionView::Send { connection_id, .. } => {
                        let j = choose|j: int| 0 <= j < d.len() && #[trigger] d[j].connection_id == connection_id && d[j].is_ready;
                        assert(cs[j] == d[j]);
                    },
                    _ => {},
                }
            } else {
                let j = cs.len() - 1;
                assert(cs[j] == cs.last());
            }
        }
    }
}

/// Law: a send reaches every ready connection, and, when it is not for
/// the ready connections only, every connection.
pub proof fn lemma_sends_reach_their_audience(
    cs: Seq<NetworkConnectionToClient>,
    ready_only: bool,
    channel: TransportChannel,
    payload: Seq<u8>,
    j: int,
)
    requires
        0 <= j < cs.len(),
        cs[j].is_ready || !ready_only,
    ensures
        sends_to_all(cs, ready_only, channel, payload).contains(
            ActionView::Send { connection_id: cs[j].connection_id, channel, payload },
        ),
    decreases cs.len(),
{
    let all = sends_to_all(cs, ready_only, channel, payload);
    let prev = sends_to_all(cs.drop_last(), ready_only, channel, payload);
    let target = ActionView::Send { connection_id: cs[j].connection_id, channel, payload };
    if j < cs.len() - 1 {
        assert(cs.drop_last()[j] == cs[j]);
        lemma_sends_reach_their_audience(cs.drop_last(), ready_only, channel, payload, j);
        let i = choose|i: int| 0 <= i < prev.len() && prev[i] == target;
        assert(all[i] == prev[i]);
    } else {
        assert(cs.last() == cs[j]);
        assert(all[prev.len() as int] == target);
    }
}

/// Law: a connection counts towards the room's ready players only through
/// a slot of its player that is ready to begin; with no ready slot, no
/// connection counts, and no connection without a player ever counts.
pub proof fn lemma_ready_count_needs_ready_slots(cs: Seq<NetworkConnectionToClient>, slots: Seq<RoomPlayer>)
    ensures
        (forall|i: int| 0 <= i < slots.len() ==> !(#[trigger] slots[i]).ready_to_begin) ==> ready_connections(
            cs,
            slots,
        ) == 0,
        (forall|j: int| 0 <= j < cs.len() ==> (#[trigger] cs[j]).identity is None) ==> ready_connections(cs, slots)
            == 0,
        ready_connections(cs, slots) <= cs.len(),
    decreases cs.len(),
{
    if cs.len() > 0 {
        lemma_ready_count_needs_ready_slots(cs.drop_last(), slots);
        if forall|j: int| 0 <= j < cs.len() ==> (#[trigger] cs[j]).identity is None {
            assert forall|j: int| 0 <= j < cs.drop_last().len() implies (#[trigger] cs.drop_last()[j]).identity is None by {
                assert(cs.drop_last()[j] == cs[j]);
            }
            assert(cs.last() == cs[cs.len() - 1]);
        }
    }
}

} // verus!
