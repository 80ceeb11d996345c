//! The decisions of the network server. The server's state is a value; each
//! event from the transport or the application is a call that updates it and
//! appends the actions that the application must perform (send bytes, close
//! a connection, run a handler) to a list, in order.
use crate::message::{
    id_bytes, max_message_size, read_fixed, skip, MessageDeserializer, MessageSerializer,
    NetworkMessage,
};
use crate::network_connection::{contains_u64, without, NetworkConnectionToClient};
use crate::network_identity::NetworkIdentity;
use crate::network_writer::NetworkWriter;
use crate::remote_calls::RemoteProcedureCalls;
use crate::transport::{TransportChannel, TransportError};
use std::collections::HashMap;
use vstd::prelude::*;

verus! {

broadcast use vstd::std_specs::hash::group_hash_axioms;

/// What the server asks of the application and the transport.
pub enum ServerAction {
    /// Start the transport's server.
    StartTransport,
    /// Stop the transport's server.
    StopTransport,
    /// Close a connection at the transport.
    Disconnect { connection_id: u64 },
    /// Queue a message (its id, then its body) for a connection.
    Send { connection_id: u64, channel: TransportChannel, payload: Vec<u8> },
    /// Tell the application that a connection was accepted.
    Connected { connection_id: u64 },
    /// Tell the application that a connection went away.
    Disconnected { connection_id: u64 },
    /// A message arrived from a connection: its clock of the last message
    /// moves on.
    MessageReceived { connection_id: u64 },
    /// Run a handler of the application on a message's body.
    Deliver { handler: u64, connection_id: u64, channel: TransportChannel, body: Vec<u8> },
    /// Run a command delegate on a component of a spawned object.
    InvokeCommand {
        delegate: u64,
        object_id: u64,
        component_index: u8,
        connection_id: u64,
        payload: Vec<u8>,
    },
    /// A time snapshot arrived from a connection.
    TimeSnapshot { connection_id: u64 },
    /// A ping, respectively a pong, arrived from a connection, with its body.
    Ping { connection_id: u64, body: Vec<u8> },
    Pong { connection_id: u64, body: Vec<u8> },
    /// Tell an object's components that it started, respectively stopped,
    /// being served.
    StartServer { object_id: u64 },
    StopServer { object_id: u64 },
    /// Send the spawn message of an object to a connection; the application
    /// adds the object's transform.
    SendSpawn {
        connection_id: u64,
        object_id: u64,
        net_id: u32,
        is_local_player: bool,
        is_owner: bool,
        scene_id: u64,
        asset_id: u32,
        payload: Vec<u8>,
    },
    /// Remove an object from the world.
    DestroyObject { object_id: u64 },
    /// Tell an object's components that it gained, respectively lost,
    /// authority.
    StartAuthority { object_id: u64 },
    StopAuthority { object_id: u64 },
    /// Activate or deactivate an object in the world.
    SetActive { object_id: u64, active: bool },
    /// Reset the network clock's statistics.
    ResetTime,
    /// Tell the application that a connection gained or lost authority over
    /// an object.
    AuthorityChanged { connection_id: u64, object_id: u64, has_authority: bool },
    /// Run a connection's periodic update: flush its batches and ping it.
    Update { connection_id: u64 },
    /// Drop what the application buffers for a connection that went away.
    Cleanup { connection_id: u64 },
    /// Load a scene in the world.
    LoadScene { scene_name: String },
    /// Tell the application that the server changes to a scene.
    ServerChangeScene { scene_name: String },
    /// Tell the application that the server changed to a scene.
    ServerSceneChanged { scene_name: String },
    /// Tell the application that the server started.
    ServerStarted,
    /// Tell the application that a connection is authenticated.
    ServerConnect { connection_id: u64 },
    /// Tell the application that a connection met a transport error.
    Error { connection_id: u64, error: TransportError, reason: String },
    /// Tell the application that a connection's transport failed.
    TransportException { connection_id: u64 },
    /// Run the transport's server update before, respectively after, the
    /// frame.
    TransportEarlyUpdate,
    TransportLateUpdate,
    /// Bring a connection's clock interpolation up to date.
    UpdateTimeInterpolation { connection_id: u64 },
    /// Send a remote call on a component to a connection.
    Rpc {
        connection_id: u64,
        net_id: u32,
        component_index: u8,
        function_hash: u16,
        payload: Vec<u8>,
        channel: TransportChannel,
    },
}

/// A `ServerAction` with its byte vectors as sequences.
pub enum ActionView {
    StartTransport,
    StopTransport,
    Disconnect { connection_id: u64 },
    Send { connection_id: u64, channel: TransportChannel, payload: Seq<u8> },
    Connected { connection_id: u64 },
    Disconnected { connection_id: u64 },
    MessageReceived { connection_id: u64 },
    Deliver { handler: u64, connection_id: u64, channel: TransportChannel, body: Seq<u8> },
    InvokeCommand {
        delegate: u64,
        object_id: u64,
        component_index: u8,
        connection_id: u64,
        payload: Seq<u8>,
    },
    TimeSnapshot { connection_id: u64 },
    Ping { connection_id: u64, body: Seq<u8> },
    Pong { connection_id: u64, body: Seq<u8> },
    StartServer { object_id: u64 },
    StopServer { object_id: u64 },
    SendSpawn {
        connection_id: u64,
        object_id: u64,
        net_id: u32,
        is_local_player: bool,
        is_owner: bool,
        scene_id: u64,
        asset_id: u32,
        payload: Seq<u8>,
    },
    DestroyObject { object_id: u64 },
    StartAuthority { object_id: u64 },
    StopAuthority { object_id: u64 },
    SetActive { object_id: u64, active: bool },
    ResetTime,
    AuthorityChanged { connection_id: u64, object_id: u64, has_authority: bool },
    Update { connection_id: u64 },
    Cleanup { connection_id: u64 },
    LoadScene { scene_name: Seq<char> },
    ServerChangeScene { scene_name: Seq<char> },
    ServerSceneChanged { scene_name: Seq<char> },
    ServerStarted,
    ServerConnect { connection_id: u64 },
    Error { connection_id: u64, error: TransportError, reason: Seq<char> },
    TransportException { connection_id: u64 },
    TransportEarlyUpdate,
    TransportLateUpdate,
    UpdateTimeInterpolation { connection_id: u64 },
    Rpc {
        connection_id: u64,
        net_id: u32,
        component_index: u8,
        function_hash: u16,
        payload: Seq<u8>,
        channel: TransportChannel,
    },
}

impl View for ServerAction {
    type V = ActionView;

    open spec fn view(&self) -> ActionView {
        match self {
            ServerAction::StartTransport => ActionView::StartTransport,
            ServerAction::StopTransport => ActionView::StopTransport,
            ServerAction::Disconnect { connection_id } => ActionView::Disconnect {
                connection_id: *connection_id,
            },
            ServerAction::Send { connection_id, channel, payload } => ActionView::Send {
                connection_id: *connection_id,
                channel: *channel,
                payload: payload@,
            },
            ServerAction::Connected { connection_id } => ActionView::Connected {
                connection_id: *connection_id,
            },
            ServerAction::Disconnected { connection_id } => ActionView::Disconnected {
                connection_id: *connection_id,
            },
            ServerAction::MessageReceived { connection_id } => ActionView::MessageReceived {
                connection_id: *connection_id,
            },
            ServerAction::Deliver { handler, connection_id, channel, body } => ActionView::Deliver {
                handler: *handler,
                connection_id: *connection_id,
                channel: *channel,
                body: body@,
            },
            ServerAction::InvokeCommand {
                delegate,
                object_id,
                component_index,
                connection_id,
                payload,
            } => ActionView::InvokeCommand {
                delegate: *delegate,
                object_id: *object_id,
                component_index: *component_index,
                connection_id: *connection_id,
                payload: payload@,
            },
            ServerAction::TimeSnapshot { connection_id } => ActionView::TimeSnapshot {
                connection_id: *connection_id,
            },
            ServerAction::Ping { connection_id, body } => ActionView::Ping {
                connection_id: *connection_id,
                body: body@,
            },
            ServerAction::Pong { connection_id, body } => ActionView::Pong {
                connection_id: *connection_id,
                body: body@,
            },
            ServerAction::StartServer { object_id } => ActionView::StartServer {
                object_id: *object_id,
            },
            ServerAction::StopServer { object_id } => ActionView::StopServer {
                object_id: *object_id,
            },
            ServerAction::SendSpawn {
                connection_id,
                object_id,
                net_id,
                is_local_player,
                is_owner,
                scene_id,
                asset_id,
                payload,
            } => ActionView::SendSpawn {
                connection_id: *connection_id,
                object_id: *object_id,
                net_id: *net_id,
                is_local_player: *is_local_player,
                is_owner: *is_owner,
                scene_id: *scene_id,
                asset_id: *asset_id,
                payload: payload@,
            },
            ServerAction::DestroyObject { object_id } => ActionView::DestroyObject {
                object_id: *object_id,
            },
            ServerAction::StartAuthority { object_id } => ActionView::StartAuthority {
                object_id: *object_id,
            },
            ServerAction::StopAuthority { object_id } => ActionView::StopAuthority {
                object_id: *object_id,
            },
            ServerAction::SetActive { object_id, active } => ActionView::SetActive {
                object_id: *object_id,
                active: *active,
            },
            ServerAction::ResetTime => ActionView::ResetTime,
            ServerAction::AuthorityChanged {
                connection_id,
                object_id,
                has_authority,
            } => ActionView::AuthorityChanged {
                connection_id: *connection_id,
                object_id: *object_id,
                has_authority: *has_authority,
            },
            ServerAction::Update { connection_id } => ActionView::Update {
                connection_id: *connection_id,
            },
            ServerAction::Cleanup { connection_id } => ActionView::Cleanup {
                connection_id: *connection_id,
            },
            ServerAction::LoadScene { scene_name } => ActionView::LoadScene {
                scene_name: scene_name@,
            },
            ServerAction::ServerChangeScene { scene_name } => ActionView::ServerChangeScene {
                scene_name: scene_name@,
            },
            ServerAction::ServerSceneChanged { scene_name } => ActionView::ServerSceneChanged {
                scene_name: scene_name@,
            },
            ServerAction::ServerStarted => ActionView::ServerStarted,
            ServerAction::ServerConnect { connection_id } => ActionView::ServerConnect {
                connection_id: *connection_id,
            },
            ServerAction::Error { connection_id, error, reason } => ActionView::Error {
                connection_id: *connection_id,
                error: *error,
                reason: reason@,
            },
            ServerAction::TransportException { connection_id } => ActionView::TransportException {
                connection_id: *connection_id,
            },
            ServerAction::TransportEarlyUpdate => ActionView::TransportEarlyUpdate,
            ServerAction::TransportLateUpdate => ActionView::TransportLateUpdate,
            ServerAction::UpdateTimeInterpolation { connection_id } => ActionView::UpdateTimeInterpolation {
                connection_id: *connection_id,
            },
            ServerAction::Rpc {
                connection_id,
                net_id,
                component_index,
                function_hash,
                payload,
                channel,
            } => ActionView::Rpc {
                connection_id: *connection_id,
                net_id: *net_id,
                component_index: *component_index,
                function_hash: *function_hash,
                payload: payload@,
                channel: *channel,
            },
        }
    }
}

/// Each action of `acts` sends connection `connection_id` an object's
/// state: a reliable entity-state message.
pub open spec fn entity_state_sends_to(acts: Seq<ActionView>, connection_id: u64) -> bool {
    forall|i: int|
        0 <= i < acts.len() ==> match #[trigger] acts[i] {
            ActionView::Send { connection_id: c, channel, payload } => c == connection_id && channel
                == TransportChannel::Reliable && payload.len() >= 2 && payload.subrange(0, 2) == id_bytes(
                <crate::message_types::EntityStateMessage as MessageSerializer>::spec_id(),
            ),
            _ => false,
        }
}

/// The actions `new_out` follow `old_out` for connection `connection_id` in
/// a broadcast: a `closed` one is disconnected; another one is updated,
/// after, when it is `ready`, a time snapshot and the object states `sends`.
pub open spec fn broadcast_step(
    old_out: Seq<ActionView>,
    new_out: Seq<ActionView>,
    connection_id: u64,
    closed: bool,
    ready: bool,
    sends: Seq<ActionView>,
) -> bool {
    if closed {
        new_out == old_out.push(ActionView::Disconnect { connection_id })
    } else if ready {
        new_out == (old_out + send_view(
            connection_id,
            TransportChannel::Unreliable,
            message_bytes::<crate::message_types::TimeSnapshotMessage>(()),
        ) + sends).push(ActionView::Update { connection_id })
    } else {
        new_out == old_out.push(ActionView::Update { connection_id })
    }
}

/// The action lists `outs` follow, from their first entry, a broadcast at
/// `tick` by `server` to the connections `cs`, of which those not `alive`
/// are closed when `closes_inactive`; a ready one is sent the state of the
/// objects it observes.
pub open spec fn broadcast_trace(
    outs: Seq<Seq<ActionView>>,
    cs: Seq<NetworkConnectionToClient>,
    alive: Seq<bool>,
    closes_inactive: bool,
    server: NetworkServer,
    tick: u64,
) -> bool
    decreases cs.len(),
{
    &&& outs.len() == cs.len() + 1
    &&& alive.len() == cs.len()
    &&& cs.len() > 0 ==> {
        &&& broadcast_trace(outs.drop_last(), cs.drop_last(), alive.drop_last(), closes_inactive, server, tick)
        &&& broadcast_step(
            outs[cs.len() - 1],
            outs.last(),
            cs.last().connection_id,
            closes_inactive && !alive.last(),
            cs.last().is_ready,
            entity_state_sends(server, cs.last().observing@, cs.last().connection_id, tick),
        )
    }
}

/// What starting to listen tells: the clock is reset unless the server was
/// initialized, and the transport starts when the server listens.
pub open spec fn listen_actions(initialized: bool, listen: bool) -> Seq<ActionView> {
    (if initialized {
        Seq::<ActionView>::empty()
    } else {
        seq![ActionView::ResetTime]
    }) + if listen {
        seq![ActionView::StartTransport]
    } else {
        Seq::empty()
    }
}

/// The ids of the objects `objects`, in order.
pub open spec fn object_ids_of(objects: Seq<NetworkIdentity>) -> Seq<u64> {
    objects.map_values(|o: NetworkIdentity| o.object_id)
}

/// The activations of the scene objects of `objects` that are not numbered
/// yet, in order.
pub open spec fn activations(objects: Seq<NetworkIdentity>) -> Seq<ActionView>
    decreases objects.len(),
{
    if objects.len() == 0 {
        Seq::empty()
    } else {
        activations(objects.drop_last()) + if objects.last().scene_id != 0 && objects.last().net_id == 0 {
            seq![ActionView::SetActive { object_id: objects.last().object_id, active: true }]
        } else {
            Seq::empty()
        }
    }
}

/// The clock interpolation updates of the connections `cs`, in order.
pub open spec fn interpolation_updates(cs: Seq<NetworkConnectionToClient>) -> Seq<ActionView> {
    cs.map_values(|c: NetworkConnectionToClient| ActionView::UpdateTimeInterpolation { connection_id: c.connection_id })
}

/// The actions of a list, as views.
pub open spec fn views(s: Seq<ServerAction>) -> Seq<ActionView> {
    s.map_values(|a: ServerAction| a@)
}

proof fn lemma_views_push(s: Seq<ServerAction>, a: ServerAction)
    ensures
        views(s.push(a)) == views(s).push(a@),
{
    assert(views(s.push(a)) =~= views(s).push(a@));
}

/// Appends an action to the list.
pub(crate) fn emit(out: &mut Vec<ServerAction>, a: ServerAction)
    ensures
        views(final(out)@) == views(old(out)@).push(a@),
{
    proof {
        lemma_views_push(out@, a);
    }
    out.push(a);
}

/// The bytes of a message: its type's id, then its body.
pub open spec fn message_bytes<M: MessageSerializer>(m: M::V) -> Seq<u8> {
    id_bytes(M::spec_id()) + M::spec_body(m)
}

/// The send of `payload` to a connection, unless it is larger than a message
/// may be.
pub open spec fn send_view(connection_id: u64, channel: TransportChannel, payload: Seq<u8>) -> Seq<
    ActionView,
> {
    if payload.len() <= 1502 {
        seq![ActionView::Send { connection_id, channel, payload }]
    } else {
        Seq::empty()
    }
}

/// Some connection of `cs` has id `connection_id`.
pub open spec fn live(cs: Seq<NetworkConnectionToClient>, connection_id: u64) -> bool {
    exists|i: int| 0 <= i < cs.len() && #[trigger] cs[i].connection_id == connection_id
}

/// Reliable sends of `payload` to each of `observers` that is a live
/// connection, in order.
pub open spec fn sends_to_live(
    cs: Seq<NetworkConnectionToClient>,
    observers: Seq<u64>,
    payload: Seq<u8>,
) -> Seq<ActionView>
    decreases observers.len(),
{
    if observers.len() == 0 {
        Seq::empty()
    } else {
        sends_to_live(cs, observers.drop_last(), payload) + if live(cs, observers.last()) {
            seq![
                ActionView::Send {
                    connection_id: observers.last(),
                    channel: TransportChannel::Reliable,
                    payload,
                },
            ]
        } else {
            Seq::empty()
        }
    }
}

/// A copy of the bytes.
pub fn copy_bytes(v: &Vec<u8>) -> (r: Vec<u8>)
    ensures
        r@ == v@,
{
    vstd::slice::slice_to_vec(v.as_slice())
}

/// The bytes of a message.
pub fn pack<M: NetworkMessage>(message: &mut M) -> (r: Vec<u8>)
    requires
        <M as MessageSerializer>::serializable(old(message)@),
        2 + <M as MessageSerializer>::body_max(old(message)@) <= usize::MAX,
    ensures
        r@ == message_bytes::<M>(old(message)@),
        final(message)@ == old(message)@,
{
    let mut writer = NetworkWriter::new();
    message.serialize(&mut writer);
    assert(writer@ =~= message_bytes::<M>(old(message)@));
    writer.to_vec()
}

/// The state of object `o` at `tick` for a connection that owns it
/// (`owned`) or only observes it: what was made for that tick, when it was
/// made for it, else a fresh serialization of what changed.
pub open spec fn state_at_tick(o: NetworkIdentity, owned: bool, tick: u64) -> Seq<u8> {
    if o.last_serialization.tick == tick {
        if owned {
            o.last_serialization.owner_writer@
        } else {
            o.last_serialization.observers_writer@
        }
    } else {
        crate::network_identity::serialization(
            o.behaviours@,
            crate::network_identity::dirty_mask(o.behaviours@, false, owned),
            false,
        )
    }
}

/// The state, at `tick`, of the object with id `object_id` for connection
/// `connection_id` (meaningful when the server has that object).
pub open spec fn state_for(server: NetworkServer, object_id: u64, connection_id: u64, tick: u64) -> Seq<u8> {
    let k = choose|k: int| #[trigger] server.object_at(object_id, k);
    let o = server.objects@[k];
    state_at_tick(o, o.connection == Some(connection_id), tick)
}

/// What the server sends connection `connection_id` about object
/// `object_id` at `tick`: its state in an entity-state message, when the
/// object exists, has some state for the connection, and the message fits.
pub open spec fn entity_state_send(server: NetworkServer, object_id: u64, connection_id: u64, tick: u64) -> Seq<
    ActionView,
> {
    if server.has_object(object_id) && state_for(server, object_id, connection_id, tick).len() > 0 {
        let k = choose|k: int| #[trigger] server.object_at(object_id, k);
        send_view(
            connection_id,
            TransportChannel::Reliable,
            message_bytes::<crate::message_types::EntityStateMessage>(
                (server.objects@[k].net_id, state_for(server, object_id, connection_id, tick)),
            ),
        )
    } else {
        Seq::empty()
    }
}

/// What the server sends connection `connection_id` about the objects
/// `ids`, in order, at `tick`.
pub open spec fn entity_state_sends(server: NetworkServer, ids: Seq<u64>, connection_id: u64, tick: u64) -> Seq<
    ActionView,
>
    decreases ids.len(),
{
    if ids.len() == 0 {
        Seq::empty()
    } else {
        entity_state_sends(server, ids.drop_last(), connection_id, tick) + entity_state_send(
            server,
            ids.last(),
            connection_id,
            tick,
        )
    }
}

/// Some object of `ids` exists and has no state for connection
/// `connection_id` at `tick`.
pub open spec fn has_empty_state(server: NetworkServer, ids: Seq<u64>, connection_id: u64, tick: u64) -> bool {
    exists|j: int|
        0 <= j < ids.len() && server.has_object(ids[j]) && #[trigger] state_for(
            server,
            ids[j],
            connection_id,
            tick,
        ).len() == 0
}

/// The objects of `a` and `b` agree, index by index, in id, net id, owner
/// and state at `tick`.
pub open spec fn same_states_at(a: NetworkServer, b: NetworkServer, tick: u64) -> bool {
    &&& a.objects@.len() == b.objects@.len()
    &&& forall|k: int|
        0 <= k < a.objects@.len() ==> {
            &&& #[trigger] a.objects@[k].object_id == b.objects@[k].object_id
            &&& a.objects@[k].net_id == b.objects@[k].net_id
            &&& a.objects@[k].connection == b.objects@[k].connection
            &&& forall|owned: bool| #[trigger] state_at_tick(a.objects@[k], owned, tick) == state_at_tick(
                b.objects@[k],
                owned,
                tick,
            )
        }
}

#[verifier::spinoff_prover]
proof fn lemma_same_states_send(a: NetworkServer, b: NetworkServer, tick: u64, object_id: u64, connection_id: u64)
    requires
        unique_objects(a.objects@),
        same_states_at(a, b, tick),
    ensures
        a.has_object(object_id) == b.has_object(object_id),
        a.has_object(object_id) ==> state_for(a, object_id, connection_id, tick) == state_for(
            b,
            object_id,
            connection_id,
            tick,
        ),
        entity_state_send(a, object_id, connection_id, tick) == entity_state_send(b, object_id, connection_id, tick),
{
    assert forall|i: int, j: int| 0 <= i < j < b.objects@.len() implies #[trigger] b.objects@[i].object_id
        != #[trigger] b.objects@[j].object_id by {
        assert(a.objects@[i].object_id == b.objects@[i].object_id);
        assert(a.objects@[j].object_id == b.objects@[j].object_id);
    }
    if a.has_object(object_id) {
        let k = choose|k: int| 0 <= k < a.objects@.len() && #[trigger] a.objects@[k].object_id == object_id;
        assert(a.object_at(object_id, k));
        assert(a.objects@[k].object_id == b.objects@[k].object_id);
        assert(b.object_at(object_id, k));
        a.lemma_object_index(object_id, k);
        b.lemma_object_index(object_id, k);
        let ka = choose|k: int| #[trigger] a.object_at(object_id, k);
        assert(ka == k);
        let kb = choose|k: int| #[trigger] b.object_at(object_id, k);
        assert(kb == k);
        assert(state_at_tick(a.objects@[k], a.objects@[k].connection == Some(connection_id), tick)
            == state_at_tick(b.objects@[k], a.objects@[k].connection == Some(connection_id), tick));
    } else {
        if b.has_object(object_id) {
            let k = choose|k: int| 0 <= k < b.objects@.len() && #[trigger] b.objects@[k].object_id == object_id;
            assert(a.objects@[k].object_id == b.objects@[k].object_id);
            assert(a.object_at(object_id, k));
        }
    }
}

proof fn lemma_same_states_refl(a: NetworkServer, tick: u64)
    ensures
        same_states_at(a, a, tick),
{
}

proof fn lemma_same_states_trans(a: NetworkServer, b: NetworkServer, c: NetworkServer, tick: u64)
    requires
        same_states_at(a, b, tick),
        same_states_at(b, c, tick),
    ensures
        same_states_at(a, c, tick),
{
    assert forall|k: int| 0 <= k < a.objects@.len() implies {
        &&& #[trigger] a.objects@[k].object_id == c.objects@[k].object_id
        &&& a.objects@[k].net_id == c.objects@[k].net_id
        &&& a.objects@[k].connection == c.objects@[k].connection
        &&& forall|owned: bool| #[trigger] state_at_tick(a.objects@[k], owned, tick) == state_at_tick(
            c.objects@[k],
            owned,
            tick,
        )
    } by {
        assert(a.objects@[k].object_id == b.objects@[k].object_id);
        assert(b.objects@[k].object_id == c.objects@[k].object_id);
        assert forall|owned: bool| #[trigger] state_at_tick(a.objects@[k], owned, tick) == state_at_tick(
            c.objects@[k],
            owned,
            tick,
        ) by {
            assert(state_at_tick(a.objects@[k], owned, tick) == state_at_tick(b.objects@[k], owned, tick));
            assert(state_at_tick(b.objects@[k], owned, tick) == state_at_tick(c.objects@[k], owned, tick));
        }
    }
}

proof fn lemma_same_states_sends(a: NetworkServer, b: NetworkServer, tick: u64, ids: Seq<u64>, connection_id: u64)
    requires
        unique_objects(a.objects@),
        same_states_at(a, b, tick),
    ensures
        entity_state_sends(a, ids, connection_id, tick) == entity_state_sends(b, ids, connection_id, tick),
    decreases ids.len(),
{
    if ids.len() > 0 {
        lemma_same_states_sends(a, b, tick, ids.drop_last(), connection_id);
        lemma_same_states_send(a, b, tick, ids.last(), connection_id);
    }
}

proof fn lemma_has_empty_state_push(server: NetworkServer, ids: Seq<u64>, connection_id: u64, tick: u64)
    requires
        ids.len() > 0,
    ensures
        has_empty_state(server, ids, connection_id, tick) == (has_empty_state(
            server,
            ids.drop_last(),
            connection_id,
            tick,
        ) || (server.has_object(ids.last()) && state_for(server, ids.last(), connection_id, tick).len()
            == 0)),
{
    let d = ids.drop_last();
    if has_empty_state(server, d, connection_id, tick) {
        let j = choose|j: int|
            0 <= j < d.len() && server.has_object(d[j]) && #[trigger] state_for(server, d[j], connection_id, tick).len() == 0;
        assert(ids[j] == d[j]);
        assert(state_for(server, ids[j], connection_id, tick).len() == 0);
    }
    if server.has_object(ids.last()) && state_for(server, ids.last(), connection_id, tick).len() == 0 {
        let j = ids.len() - 1;
        assert(state_for(server, ids[j], connection_id, tick).len() == 0);
    }
    if has_empty_state(server, ids, connection_id, tick) {
        let j = choose|j: int|
            0 <= j < ids.len() && server.has_object(ids[j]) && #[trigger] state_for(server, ids[j], connection_id, tick).len() == 0;
        if j < ids.len() - 1 {
            assert(d[j] == ids[j]);
            assert(state_for(server, d[j], connection_id, tick).len() == 0);
        }
    }
}

/// Sends a message to a connection, unless it is larger than a message may
/// be.
pub fn send_message<M: NetworkMessage>(
    out: &mut Vec<ServerAction>,
    connection_id: u64,
    message: &mut M,
    channel: TransportChannel,
)
    requires
        <M as MessageSerializer>::serializable(old(message)@),
        2 + <M as MessageSerializer>::body_max(old(message)@) <= usize::MAX,
    ensures
        views(final(out)@) == views(old(out)@) + send_view(
            connection_id,
            channel,
            message_bytes::<M>(old(message)@),
        ),
        final(message)@ == old(message)@,
{
    let payload = pack(message);
    if payload.len() > max_message_size(channel) {
        assert(views(out@) =~= views(old(out)@) + Seq::<ActionView>::empty());
        return;
    }
    emit(out, ServerAction::Send { connection_id, channel, payload });
    assert(views(out@) =~= views(old(out)@) + send_view(
        connection_id,
        channel,
        message_bytes::<M>(old(message)@),
    ));
}

/// What runs a message of a registered type.
#[derive(Debug, Clone, Copy, PartialEq, Eq, Structural)]
pub enum HandlerKind {
    Ready,
    Command,
    EntityState,
    TimeSnapshot,
    Ping,
    Pong,
    /// A handler that the application holds, by its id.
    Custom(u64),
}

/// A registered message handler.
#[derive(Debug, Clone, Copy, PartialEq, Eq, Structural)]
pub struct MessageHandler {
    pub kind: HandlerKind,
    /// Only authenticated connections may send the message.
    pub require_authentication: bool,
}

/// What becomes of a player object that a connection gives up.
#[derive(Debug, Clone, Copy, PartialEq, Eq, Structural)]
pub enum ReplacePlayerOptions {
    KeepAuthority,
    KeepActive,
    UnSpawn,
    Destroy,
}

/// What becomes of a player object that is taken from its connection.
#[derive(Debug, Clone, Copy, PartialEq, Eq, Structural)]
pub enum RemovePlayerOptions {
    /// The object stays on server and clients; only ownership goes.
    KeepActive,
    /// The object is unspawned on the clients and stays on the server.
    UnSpawn,
    /// The object is destroyed on server and clients.
    Destroy,
}

/// The connection ids of `cs` are distinct.
pub open spec fn unique_connections(cs: Seq<NetworkConnectionToClient>) -> bool {
    forall|i: int, j: int|
        0 <= i < j < cs.len() ==> #[trigger] cs[i].connection_id != #[trigger] cs[j].connection_id
}

/// The object ids of `os` are distinct.
pub open spec fn unique_objects(os: Seq<NetworkIdentity>) -> bool {
    forall|i: int, j: int| 0 <= i < j < os.len() ==> #[trigger] os[i].object_id != #[trigger] os[j].object_id
}

/// Every object that a connection lists among its owned ones has that
/// connection as its owner.
pub open spec fn owners_agree(cs: Seq<NetworkConnectionToClient>, os: Seq<NetworkIdentity>) -> bool {
    forall|i: int, k: int|
        0 <= i < cs.len() && 0 <= k < os.len() && #[trigger] cs[i].owned@.contains(#[trigger] os[k].object_id)
            ==> os[k].connection == Some(cs[i].connection_id)
}

/// Changing one object keeps the owners in agreement when its id stays and
/// either its owner stays or no connection lists it as owned.
proof fn lemma_owners_agree_update(
    cs: Seq<NetworkConnectionToClient>,
    a: Seq<NetworkIdentity>,
    b: Seq<NetworkIdentity>,
    idx: int,
)
    requires
        owners_agree(cs, a),
        a.len() == b.len(),
        0 <= idx < a.len(),
        forall|k: int| 0 <= k < a.len() && k != idx ==> b[k] == a[k],
        b[idx].object_id == a[idx].object_id,
        b[idx].connection == a[idx].connection || forall|i: int|
            0 <= i < cs.len() ==> !(#[trigger] cs[i].owned@).contains(b[idx].object_id),
    ensures
        owners_agree(cs, b),
{
    assert forall|i: int, k: int|
        0 <= i < cs.len() && 0 <= k < b.len() && #[trigger] cs[i].owned@.contains(#[trigger] b[k].object_id)
            implies b[k].connection == Some(cs[i].connection_id) by {
        if k != idx {
            assert(b[k] == a[k]);
        } else if b[idx].connection != a[idx].connection {
            assert(!cs[i].owned@.contains(b[idx].object_id));
        } else {
            assert(cs[i].owned@.contains(a[k].object_id));
        }
    }
}

/// The two connections differ at most in the objects they own and observe.
pub open spec fn same_connection(a: NetworkConnectionToClient, b: NetworkConnectionToClient) -> bool {
    &&& a.connection_id == b.connection_id
    &&& a.address@ == b.address@
    &&& a.is_authenticated == b.is_authenticated
    &&& a.is_ready == b.is_ready
    &&& a.identity == b.identity
}

/// `c` is `prev` after object `object_id` went away: its owner (`owner`)
/// no longer owns it, and its observers no longer observe it.
pub open spec fn forgot_object(
    c: NetworkConnectionToClient,
    prev: NetworkConnectionToClient,
    object_id: u64,
    owner: Option<u64>,
    observers: Seq<u64>,
) -> bool {
    &&& same_connection(c, prev)
    &&& c.owned@ == if owner == Some(prev.connection_id) {
        without(prev.owned@, object_id)
    } else {
        prev.owned@
    }
    &&& c.observing@ == if observers.contains(prev.connection_id) {
        without(prev.observing@, object_id)
    } else {
        prev.observing@
    }
}

/// The reliable sends of `payload` to the live ones of `observers`, none
/// when there are no observers or the payload is larger than a message may
/// be.
pub open spec fn observer_sends(
    cs: Seq<NetworkConnectionToClient>,
    observers: Seq<u64>,
    payload: Seq<u8>,
) -> Seq<ActionView> {
    if observers.len() == 0 || payload.len() > 1502 {
        Seq::empty()
    } else {
        sends_to_live(cs, observers, payload)
    }
}

/// `o` is the object `prev` after it was unspawned: it has no observers, and
/// with `reset_state` it is back in its unspawned state.
pub open spec fn unspawned_object(o: NetworkIdentity, prev: NetworkIdentity, reset_state: bool) -> bool {
    &&& o.observers@ == Seq::<u64>::empty()
    &&& o.behaviours@ == prev.behaviours@
    &&& o.object_id == prev.object_id
    &&& o.wf() == prev.wf()
    &&& if reset_state {
        &&& !o.has_spawned
        &&& !o.is_client
        &&& !o.is_server
        &&& !o.is_owned
        &&& !o.had_authority
        &&& o.net_id == 0
        &&& o.connection is None
        &&& o.scene_id == prev.scene_id
        &&& o.server_only == prev.server_only
        &&& o.visibility == prev.visibility
        &&& o.asset_id == prev.asset_id
    } else {
        &&& o.keeps_core(&prev)
        &&& o.had_authority == prev.had_authority
    }
}

/// The actions of unspawning `prev`: the destroy message to its observers,
/// the stop of its server hooks, and with `reset_state` the loss of its
/// authority and its deactivation.
pub open spec fn unspawn_actions(
    cs: Seq<NetworkConnectionToClient>,
    prev: NetworkIdentity,
    reset_state: bool,
) -> Seq<ActionView> {
    observer_sends(
        cs,
        prev.observers@,
        message_bytes::<crate::message_types::ObjectDestroyMessage>(prev.net_id),
    ) + seq![ActionView::StopServer { object_id: prev.object_id }] + if reset_state {
        (if prev.had_authority {
            seq![ActionView::StopAuthority { object_id: prev.object_id }]
        } else {
            Seq::empty()
        }) + seq![ActionView::SetActive { object_id: prev.object_id, active: false }]
    } else {
        Seq::empty()
    }
}

/// `c` is `prev` with its readiness set to `ready`.
pub open spec fn with_ready(c: NetworkConnectionToClient, prev: NetworkConnectionToClient, ready: bool) -> bool {
    &&& c.connection_id == prev.connection_id
    &&& c.address@ == prev.address@
    &&& c.is_authenticated == prev.is_authenticated
    &&& c.identity == prev.identity
    &&& c.owned@ == prev.owned@
    &&& c.observing@ == prev.observing@
    &&& c.is_ready == ready
}

/// The messages that start and finish the spawning of a ready connection's
/// observed objects.
pub open spec fn spawn_observer_actions(connection_id: u64) -> Seq<ActionView> {
    send_view(
        connection_id,
        TransportChannel::Reliable,
        message_bytes::<crate::message_types::ObjectSpawnStartedMessage>(()),
    ) + send_view(
        connection_id,
        TransportChannel::Reliable,
        message_bytes::<crate::message_types::ObjectSpawnFinishedMessage>(()),
    )
}

/// Connections with the same ids, pointwise, are unique when the first are.
/// The objects that connection `c` owns once object `object_id` passed to
/// `connection`: the object is listed last when `c` is the new owner, and
/// not at all otherwise.
pub open spec fn owned_after(c: NetworkConnectionToClient, object_id: u64, connection: Option<u64>) -> Seq<u64> {
    if connection == Some(c.connection_id) {
        without(c.owned@, object_id).push(object_id)
    } else {
        without(c.owned@, object_id)
    }
}

/// The connections `after` are `before` with object `object_id` gone from
/// each one's owned objects.
pub open spec fn forgot_owned(after: Seq<NetworkConnectionToClient>, before: Seq<NetworkConnectionToClient>, object_id: u64) -> bool {
    &&& after.len() == before.len()
    &&& forall|i: int|
        0 <= i < before.len() ==> {
            &&& same_connection(#[trigger] after[i], before[i])
            &&& after[i].observing@ == before[i].observing@
            &&& after[i].owned@ == without(before[i].owned@, object_id)
        }
}

proof fn lemma_same_ids_unique(a: Seq<NetworkConnectionToClient>, b: Seq<NetworkConnectionToClient>)
    requires
        unique_connections(a),
        a.len() == b.len(),
        forall|i: int| 0 <= i < a.len() ==> a[i].connection_id == b[i].connection_id,
    ensures
        unique_connections(b),
{
    assert forall|i: int, j: int| 0 <= i < j < b.len() implies #[trigger] b[i].connection_id
        != #[trigger] b[j].connection_id by {
        assert(a[i].connection_id != a[j].connection_id);
    }
}

/// The observers `obs` of object `object_id` after each connection of `cs`
/// that observed it, in turn, removed itself.
pub open spec fn observers_after_unready(
    obs: Seq<u64>,
    cs: Seq<NetworkConnectionToClient>,
    object_id: u64,
) -> Seq<u64>
    decreases cs.len(),
{
    if cs.len() == 0 {
        obs
    } else {
        let prev = observers_after_unready(obs, cs.drop_last(), object_id);
        if cs.last().observing@.contains(object_id) {
            without(prev, cs.last().connection_id)
        } else {
            prev
        }
    }
}

/// The not-ready messages to each connection of `cs`, in order.
pub open spec fn not_ready_sends(cs: Seq<NetworkConnectionToClient>) -> Seq<ActionView>
    decreases cs.len(),
{
    if cs.len() == 0 {
        Seq::empty()
    } else {
        not_ready_sends(cs.drop_last()) + send_view(
            cs.last().connection_id,
            TransportChannel::Reliable,
            message_bytes::<crate::message_types::NotReadyMessage>(()),
        )
    }
}

/// `states` and `outs` are the server and its actions before and after
/// each of `messages` from connection `connection_id` was handled in turn.
pub open spec fn messages_handled(
    states: Seq<NetworkServer>,
    outs: Seq<Seq<ActionView>>,
    connection_id: u64,
    messages: Seq<Vec<u8>>,
    channel: TransportChannel,
) -> bool {
    &&& states.len() == messages.len() + 1
    &&& outs.len() == messages.len() + 1
    &&& forall|i: int|
        0 <= i < messages.len() ==> #[trigger] states[i + 1].message_handled(
            &states[i],
            connection_id,
            messages[i]@,
            channel,
            outs[i + 1],
            outs[i],
        )
}

/// `s` with `x` appended, unless it holds `x`.
pub open spec fn add_if_absent<T>(s: Seq<T>, x: T) -> Seq<T> {
    if s.contains(x) {
        s
    } else {
        s.push(x)
    }
}

/// The observers `obs` after each ready connection of `cs`, in turn, was
/// added unless it observed already.
pub open spec fn ready_observers(obs: Seq<u64>, cs: Seq<NetworkConnectionToClient>) -> Seq<u64>
    decreases cs.len(),
{
    if cs.len() == 0 {
        obs
    } else {
        let prev = ready_observers(obs, cs.drop_last());
        if cs.last().is_ready {
            add_if_absent(prev, cs.last().connection_id)
        } else {
            prev
        }
    }
}

/// The two connections agree on id and readiness.
pub open spec fn same_id_ready(x: NetworkConnectionToClient, y: NetworkConnectionToClient) -> bool {
    x.connection_id == y.connection_id && x.is_ready == y.is_ready
}

/// `ready_observers` depends on the connections' ids and readiness only.
proof fn lemma_ready_observers_same(
    obs: Seq<u64>,
    a: Seq<NetworkConnectionToClient>,
    b: Seq<NetworkConnectionToClient>,
)
    requires
        a.len() == b.len(),
        forall|i: int| 0 <= i < a.len() ==> #[trigger] same_id_ready(a[i], b[i]),
    ensures
        ready_observers(obs, a) == ready_observers(obs, b),
    decreases a.len(),
{
    if a.len() > 0 {
        let a1 = a.drop_last();
        let b1 = b.drop_last();
        assert forall|i: int| 0 <= i < a1.len() implies #[trigger] same_id_ready(a1[i], b1[i]) by {
            assert(same_id_ready(a[i], b[i]));
        }
        lemma_ready_observers_same(obs, a1, b1);
        assert(same_id_ready(a[a.len() - 1], b[b.len() - 1]));
    }
}

proof fn lemma_ready_observers_len(obs: Seq<u64>, cs: Seq<NetworkConnectionToClient>)
    ensures
        ready_observers(obs, cs).len() >= obs.len(),
    decreases cs.len(),
{
    if cs.len() > 0 {
        lemma_ready_observers_len(obs, cs.drop_last());
    }
}

/// The connections of `cs` that `ready_observers` added hold `obs`'s
/// members and the ready ones of `cs`.
proof fn lemma_ready_observers_contains(obs: Seq<u64>, cs: Seq<NetworkConnectionToClient>, x: u64)
    ensures
        ready_observers(obs, cs).contains(x) <==> (obs.contains(x) || exists|k: int|
            0 <= k < cs.len() && #[trigger] cs[k].connection_id == x && cs[k].is_ready),
    decreases cs.len(),
{
    if cs.len() > 0 {
        let p = cs.drop_last();
        lemma_ready_observers_contains(obs, p, x);
        let prev = ready_observers(obs, p);
        if (exists|k: int| 0 <= k < p.len() && #[trigger] p[k].connection_id == x && p[k].is_ready) {
            let k = choose|k: int| 0 <= k < p.len() && #[trigger] p[k].connection_id == x && p[k].is_ready;
            assert(cs[k] == p[k]);
        }
        if (exists|k: int| 0 <= k < cs.len() && #[trigger] cs[k].connection_id == x && cs[k].is_ready) {
            let k = choose|k: int| 0 <= k < cs.len() && #[trigger] cs[k].connection_id == x && cs[k].is_ready;
            if k < p.len() {
                assert(p[k] == cs[k]);
            }
        }
        if cs.last().is_ready && !prev.contains(cs.last().connection_id) {
            assert(prev.push(cs.last().connection_id).contains(x) <==> (prev.contains(x) || x
                == cs.last().connection_id)) by {
                if prev.push(cs.last().connection_id).contains(x) && x != cs.last().connection_id {
                    let w = choose|w: int| 0 <= w < prev.len() + 1 && prev.push(cs.last().connection_id)[w] == x;
                    assert(prev[w] == x);
                }
                if prev.contains(x) {
                    let w = choose|w: int| 0 <= w < prev.len() && prev[w] == x;
                    assert(prev.push(cs.last().connection_id)[w] == x);
                }
                assert(prev.push(cs.last().connection_id)[prev.len() as int] == cs.last().connection_id);
            }
        }
    }
}

/// `h` with handler `mh` under `id`, unless one is registered there.
pub open spec fn with_handler(h: Map<u16, MessageHandler>, id: u16, mh: MessageHandler) -> Map<
    u16,
    MessageHandler,
> {
    if h.contains_key(id) {
        h
    } else {
        h.insert(id, mh)
    }
}

/// The handlers that the server registers for itself, added to `h`.
#[verifier::opaque]
pub open spec fn server_handlers(h: Map<u16, MessageHandler>) -> Map<u16, MessageHandler> {
    let h1 = with_handler(
        h,
        <crate::message_types::ReadyMessage as MessageSerializer>::spec_id(),
        MessageHandler { kind: HandlerKind::Ready, require_authentication: true },
    );
    let h2 = with_handler(
        h1,
        <crate::message_types::CommandMessage as MessageSerializer>::spec_id(),
        MessageHandler { kind: HandlerKind::Command, require_authentication: true },
    );
    let h3 = with_handler(
        h2,
        <crate::message_types::EntityStateMessage as MessageSerializer>::spec_id(),
        MessageHandler { kind: HandlerKind::EntityState, require_authentication: true },
    );
    let h4 = with_handler(
        h3,
        <crate::message_types::TimeSnapshotMessage as MessageSerializer>::spec_id(),
        MessageHandler { kind: HandlerKind::TimeSnapshot, require_authentication: false },
    );
    let h5 = with_handler(
        h4,
        crate::stable_hash::spec_hash16("Mirror.NetworkPingMessage"@),
        MessageHandler { kind: HandlerKind::Ping, require_authentication: false },
    );
    with_handler(
        h5,
        crate::stable_hash::spec_hash16("Mirror.NetworkPongMessage"@),
        MessageHandler { kind: HandlerKind::Pong, require_authentication: false },
    )
}

/// The sends of `payload` on `channel` to each connection of `cs`, or to
/// each ready one when `ready_only`, in order.
pub open spec fn sends_to_all(
    cs: Seq<NetworkConnectionToClient>,
    ready_only: bool,
    channel: TransportChannel,
    payload: Seq<u8>,
) -> Seq<ActionView>
    decreases cs.len(),
{
    if cs.len() == 0 {
        Seq::empty()
    } else {
        sends_to_all(cs.drop_last(), ready_only, channel, payload) + if ready_only
            && !cs.last().is_ready {
            Seq::empty()
        } else {
            seq![ActionView::Send { connection_id: cs.last().connection_id, channel, payload }]
        }
    }
}

/// The closing of each connection of `cs`, in order.
pub open spec fn disconnects(cs: Seq<NetworkConnectionToClient>) -> Seq<ActionView>
    decreases cs.len(),
{
    if cs.len() == 0 {
        Seq::empty()
    } else {
        disconnects(cs.drop_last()).push(ActionView::Disconnect { connection_id: cs.last().connection_id })
    }
}

/// What a spawn message carries of an object's components: their initial
/// state for the owner (`is_owner`) or for the observers; nothing for an
/// object without components.
pub open spec fn spawn_payload(bs: Seq<crate::network_behaviour::NetworkBehaviour>, is_owner: bool) -> Seq<u8> {
    if bs.len() == 0 {
        Seq::empty()
    } else {
        crate::network_identity::serialization(
            bs,
            crate::network_identity::dirty_mask(bs, true, is_owner),
            true,
        )
    }
}

/// `a` is a prefix of `b`.
pub open spec fn extends(b: Seq<ActionView>, a: Seq<ActionView>) -> bool {
    b.len() >= a.len() && b.subrange(0, a.len() as int) == a
}

pub proof fn lemma_extends_trans(c: Seq<ActionView>, b: Seq<ActionView>, a: Seq<ActionView>)
    requires
        extends(c, b),
        extends(b, a),
    ensures
        extends(c, a),
{
    assert(c.subrange(0, a.len() as int) =~= b.subrange(0, a.len() as int));
}

pub proof fn lemma_extends_append(c: Seq<ActionView>, b: Seq<ActionView>, a: Seq<ActionView>, x: Seq<ActionView>)
    requires
        extends(b, a),
        c == b + x,
    ensures
        extends(c, a),
{
    assert(c.subrange(0, a.len() as int) =~= b.subrange(0, a.len() as int));
}

/// The state of the network server.
pub struct NetworkServer {
    pub initialized: bool,
    /// Accept connections from the transport.
    pub listen: bool,
    pub max_connections: i32,
    /// Sends per second.
    pub tick_rate: u32,
    pub active: bool,
    pub is_loading_scene: bool,
    /// Disconnect a client that sends a message that cannot be handled.
    pub exceptions_disconnect: bool,
    pub disconnect_inactive_connections: bool,
    /// The application handles disconnections itself.
    pub has_disconnected_handler: bool,
    /// The net id that the next spawned object gets.
    pub next_network_id: u32,
    /// The connections, in the order they were accepted.
    pub connections: Vec<NetworkConnectionToClient>,
    /// Handlers by message id.
    pub message_handlers: HashMap<u16, MessageHandler>,
    /// The networked objects of the world.
    pub objects: Vec<NetworkIdentity>,
    /// Net ids of the spawned objects.
    pub spawned: Vec<u32>,
    /// The registered remote calls.
    pub calls: RemoteProcedureCalls,
}

impl NetworkServer {
    /// Connection ids, object ids and spawned net ids are distinct, and each
    /// object is well formed.
    pub open spec fn wf(&self) -> bool {
        &&& unique_connections(self.connections@)
        &&& unique_objects(self.objects@)
        &&& owners_agree(self.connections@, self.objects@)
        &&& self.spawned@.no_duplicates()
        &&& forall|i: int| 0 <= i < self.objects@.len() ==> #[trigger] self.objects@[i].wf()
    }

    /// The two servers have the same settings, handlers and remote calls.
    pub open spec fn same_settings(&self, other: &NetworkServer) -> bool {
        &&& self.initialized == other.initialized
        &&& self.listen == other.listen
        &&& self.max_connections == other.max_connections
        &&& self.tick_rate == other.tick_rate
        &&& self.active == other.active
        &&& self.is_loading_scene == other.is_loading_scene
        &&& self.exceptions_disconnect == other.exceptions_disconnect
        &&& self.disconnect_inactive_connections == other.disconnect_inactive_connections
        &&& self.has_disconnected_handler == other.has_disconnected_handler
        &&& self.next_network_id == other.next_network_id
        &&& self.handlers() == other.handlers()
        &&& self.calls@ == other.calls@
    }

    /// The two servers differ in their handlers at most.
    pub open spec fn same_but_handlers(&self, before: &NetworkServer) -> bool {
        &&& self.initialized == before.initialized
        &&& self.listen == before.listen
        &&& self.max_connections == before.max_connections
        &&& self.tick_rate == before.tick_rate
        &&& self.active == before.active
        &&& self.is_loading_scene == before.is_loading_scene
        &&& self.exceptions_disconnect == before.exceptions_disconnect
        &&& self.disconnect_inactive_connections == before.disconnect_inactive_connections
        &&& self.next_network_id == before.next_network_id
        &&& self.calls@ == before.calls@
        &&& self.connections@ == before.connections@
        &&& self.objects@ == before.objects@
        &&& self.spawned@ == before.spawned@
    }

    /// The message handlers, by id.
    pub open spec fn handlers(&self) -> Map<u16, MessageHandler> {
        self.message_handlers@
    }

    /// Some connection has id `connection_id`.
    pub open spec fn has_connection(&self, connection_id: u64) -> bool {
        exists|i: int|
            0 <= i < self.connections@.len() && #[trigger] self.connections@[i].connection_id
                == connection_id
    }

    /// A stopped server with the default settings.
    pub fn new() -> (r: Self)
        ensures
            r.wf(),
            !r.initialized,
            r.listen,
            r.max_connections == 0,
            r.tick_rate == 30,
            !r.active,
            !r.is_loading_scene,
            r.exceptions_disconnect,
            !r.disconnect_inactive_connections,
            !r.has_disconnected_handler,
            r.next_network_id == 1,
            r.connections@ == Seq::<NetworkConnectionToClient>::empty(),
            r.handlers() == Map::<u16, MessageHandler>::empty(),
            r.objects@ == Seq::<NetworkIdentity>::empty(),
            r.spawned@ == Seq::<u32>::empty(),
            r.calls@ == Map::<u16, crate::remote_calls::Invoker>::empty(),
    {
        NetworkServer {
            initialized: false,
            listen: true,
            max_connections: 0,
            tick_rate: 30,
            active: false,
            is_loading_scene: false,
            exceptions_disconnect: true,
            disconnect_inactive_connections: false,
            has_disconnected_handler: false,
            next_network_id: 1,
            connections: Vec::new(),
            message_handlers: HashMap::new(),
            objects: Vec::new(),
            spawned: Vec::new(),
            calls: RemoteProcedureCalls::new(),
        }
    }

    /// The server accepts a new connection `connection_id`: it listens, the
    /// id is not the reserved 0 nor in use, and there is room.
    pub open spec fn spec_connection_allowed(&self, connection_id: u64) -> bool {
        &&& self.listen
        &&& connection_id != 0
        &&& !self.has_connection(connection_id)
        &&& (self.connections@.len() as i32) < self.max_connections
    }

    pub fn is_connection_allowed(&self, connection_id: u64, address: &str) -> (r: bool)
        ensures
            r == self.spec_connection_allowed(connection_id),
    {
        if !self.listen {
            return false;
        }
        if connection_id == 0 {
            return false;
        }
        if self.connection_contains_key(connection_id) {
            return false;
        }
        if self.connections.len() as i32 >= self.max_connections {
            return false;
        }
        true
    }

    /// Adds a connection unless its id is in use; says whether it was added.
    /// The connection may list as owned only objects that name it as owner.
    pub fn add_connection(&mut self, connection: NetworkConnectionToClient) -> (r: bool)
        requires
            old(self).wf(),
            owners_agree(seq![connection], old(self).objects@),
        ensures
            final(self).wf(),
            r == !old(self).has_connection(connection.connection_id),
            final(self).connections@ == if r {
                old(self).connections@.push(connection)
            } else {
                old(self).connections@
            },
            final(self).objects@ == old(self).objects@,
            final(self).spawned@ == old(self).spawned@,
            final(self).handlers() == old(self).handlers(),
            final(self).active == old(self).active,
            final(self).listen == old(self).listen,
            final(self).max_connections == old(self).max_connections,
    {
        if self.connection_contains_key(connection.connection_id) {
            return false;
        }
        let ghost c = connection;
        self.connections.push(connection);
        proof {
            let cs = self.connections@;
            let n = old(self).connections@.len();
            assert forall|i: int, k: int|
                0 <= i < cs.len() && 0 <= k < self.objects@.len() && #[trigger] cs[i].owned@.contains(
                    #[trigger] self.objects@[k].object_id,
                ) implies self.objects@[k].connection == Some(cs[i].connection_id) by {
                if i < n {
                    assert(cs[i] == old(self).connections@[i]);
                } else {
                    assert(seq![c][0] == c);
                }
            }
        }
        true
    }

    /// Removes the connection with id `connection_id` and returns it.
    pub fn remove_connection(&mut self, connection_id: u64) -> (r: Option<
        NetworkConnectionToClient,
    >)
        requires
            old(self).wf(),
        ensures
            final(self).wf(),
            !final(self).has_connection(connection_id),
            match r {
                Some(c) => c.connection_id == connection_id && exists|i: int|
                    0 <= i < old(self).connections@.len() && old(self).connections@[i] == c
                        && final(self).connections@ == old(self).connections@.remove(i),
                None => !old(self).has_connection(connection_id) && *final(self) == *old(self),
            },
            final(self).same_settings(old(self)),
            final(self).objects@ == old(self).objects@,
            final(self).spawned@ == old(self).spawned@,
            final(self).handlers() == old(self).handlers(),
            final(self).active == old(self).active,
            final(self).listen == old(self).listen,
            final(self).max_connections == old(self).max_connections,
    {
        match self.find_connection(connection_id) {
            Some(i) => {
                let c = self.connections.remove(i);
                proof {
                    let old_cs = old(self).connections@;
                    assert forall|k: int|
                        0 <= k < self.connections@.len() implies #[trigger] self.connections@[k].connection_id
                        != connection_id by {
                        if k < i {
                            assert(self.connections@[k] == old_cs[k]);
                        } else {
                            assert(self.connections@[k] == old_cs[k + 1]);
                        }
                    }
                }
                Some(c)
            },
            None => None,
        }
    }

    /// A transport connection arrived: it is accepted when allowed, and the
    /// application is told; else the transport is told to close it.
    pub fn on_transport_connected_with_address(
        &mut self,
        connection_id: u64,
        address: &str,
        out: &mut Vec<ServerAction>,
    )
        requires
            old(self).wf(),
        ensures
            final(self).wf(),
            old(self).spec_connection_allowed(connection_id) ==> {
                &&& final(self).connections@.len() == old(self).connections@.len() + 1
                &&& final(self).connections@.drop_last() == old(self).connections@
                &&& final(self).connections@.last().connection_id == connection_id
                &&& final(self).connections@.last().address@ == address@
                &&& !final(self).connections@.last().is_ready
                &&& !final(self).connections@.last().is_authenticated
                &&& views(final(out)@) == views(old(out)@).push(
                    ActionView::Connected { connection_id },
                )
            },
            !old(self).spec_connection_allowed(connection_id) ==> {
                &&& final(self).connections@ == old(self).connections@
                &&& views(final(out)@) == views(old(out)@).push(
                    ActionView::Disconnect { connection_id },
                )
            },
            final(self).objects@ == old(self).objects@,
            final(self).spawned@ == old(self).spawned@,
            final(self).handlers() == old(self).handlers(),
            final(self).active == old(self).active,
            final(self).listen == old(self).listen,
            final(self).max_connections == old(self).max_connections,
    {
        if self.is_connection_allowed(connection_id, address) {
            let connection = NetworkConnectionToClient::new(connection_id, address.to_string());
            proof {
                assert forall|i: int, k: int|
                    0 <= i < 1 && 0 <= k < self.objects@.len() && #[trigger] seq![connection][i].owned@.contains(
                        #[trigger] self.objects@[k].object_id,
                    ) implies self.objects@[k].connection == Some(seq![connection][i].connection_id) by {
                    assert(seq![connection][i] == connection);
                }
            }
            self.add_connection(connection);
            emit(out, ServerAction::Connected { connection_id });
            return;
        }
        emit(out, ServerAction::Disconnect { connection_id });
    }

    /// Registers a handler under message id `message_id`, unless one is
    /// registered there.
    fn register_handler_id(&mut self, message_id: u16, kind: HandlerKind, require_authentication: bool)
        ensures
            final(self).same_but_handlers(old(self)),
            final(self).has_disconnected_handler == old(self).has_disconnected_handler,
            final(self).handlers() == with_handler(
                old(self).handlers(),
                message_id,
                MessageHandler { kind, require_authentication },
            ),
            final(self).connections@ == old(self).connections@,
            final(self).objects@ == old(self).objects@,
            final(self).spawned@ == old(self).spawned@,
            final(self).active == old(self).active,
            final(self).initialized == old(self).initialized,
            final(self).listen == old(self).listen,
            final(self).max_connections == old(self).max_connections,
            final(self).next_network_id == old(self).next_network_id,
            final(self).calls@ == old(self).calls@,
    {
        if self.message_handlers.contains_key(&message_id) {
            return;
        }
        self.message_handlers.insert(message_id, MessageHandler { kind, require_authentication });
    }

    /// Registers the server's own handlers (see `server_handlers`).
    pub fn register_message_handlers(&mut self)
        ensures
            final(self).same_but_handlers(old(self)),
            final(self).has_disconnected_handler == old(self).has_disconnected_handler,
            final(self).handlers() == server_handlers(old(self).handlers()),
            final(self).connections@ == old(self).connections@,
            final(self).objects@ == old(self).objects@,
            final(self).spawned@ == old(self).spawned@,
            final(self).active == old(self).active,
            final(self).initialized == old(self).initialized,
            final(self).listen == old(self).listen,
            final(self).max_connections == old(self).max_connections,
            final(self).next_network_id == old(self).next_network_id,
            final(self).calls@ == old(self).calls@,
    {
        reveal(server_handlers);
        self.register_handler_id(
            crate::message_types::ReadyMessage::message_id(),
            HandlerKind::Ready,
            true,
        );
        self.register_handler_id(
            crate::message_types::CommandMessage::message_id(),
            HandlerKind::Command,
            true,
        );
        self.register_handler_id(
            crate::message_types::EntityStateMessage::message_id(),
            HandlerKind::EntityState,
            true,
        );
        self.register_handler_id(
            crate::message_types::TimeSnapshotMessage::message_id(),
            HandlerKind::TimeSnapshot,
            false,
        );
        self.register_handler_id(
            crate::stable_hash::hash16("Mirror.NetworkPingMessage"),
            HandlerKind::Ping,
            false,
        );
        self.register_handler_id(
            crate::stable_hash::hash16("Mirror.NetworkPongMessage"),
            HandlerKind::Pong,
            false,
        );
    }

    /// Prepares a server that was not: it forgets its connections and resets
    /// the network clock.
    fn initialize(&mut self, out: &mut Vec<ServerAction>)
        requires
            old(self).wf(),
        ensures
            final(self).exceptions_disconnect == old(self).exceptions_disconnect,
            final(self).disconnect_inactive_connections == old(self).disconnect_inactive_connections,
            final(self).has_disconnected_handler == old(self).has_disconnected_handler,
            final(self).wf(),
            final(self).initialized,
            old(self).initialized ==> *final(self) == *old(self) && views(final(out)@) == views(
                old(out)@,
            ),
            !old(self).initialized ==> {
                &&& final(self).connections@ == Seq::<NetworkConnectionToClient>::empty()
                &&& views(final(out)@) == views(old(out)@).push(ActionView::ResetTime)
            },
            final(self).objects@ == old(self).objects@,
            final(self).spawned@ == old(self).spawned@,
            final(self).handlers() == old(self).handlers(),
            final(self).active == old(self).active,
            final(self).listen == old(self).listen,
            final(self).max_connections == old(self).max_connections,
            final(self).next_network_id == old(self).next_network_id,
            final(self).calls@ == old(self).calls@,
    {
        if self.initialized {
            return;
        }
        self.connections.clear();
        emit(out, ServerAction::ResetTime);
        self.initialized = true;
    }

    /// Starts the server for at most `max_connections` connections: it is
    /// initialized, the transport starts when the server listens, it becomes
    /// active and registers its own handlers.
    #[verifier::spinoff_prover]
    pub fn listen(&mut self, max_connections: i32, out: &mut Vec<ServerAction>)
        requires
            old(self).wf(),
        ensures
            final(self).exceptions_disconnect == old(self).exceptions_disconnect,
            final(self).disconnect_inactive_connections == old(self).disconnect_inactive_connections,
            final(self).has_disconnected_handler == old(self).has_disconnected_handler,
            final(self).wf(),
            final(self).initialized,
            final(self).active,
            final(self).max_connections == max_connections,
            final(self).handlers() == server_handlers(old(self).handlers()),
            final(self).connections@ == if old(self).initialized {
                old(self).connections@
            } else {
                Seq::<NetworkConnectionToClient>::empty()
            },
            final(self).objects@ == old(self).objects@,
            final(self).spawned@ == old(self).spawned@,
            final(self).listen == old(self).listen,
            final(self).next_network_id == old(self).next_network_id,
            extends(views(final(out)@), views(old(out)@)),
            views(final(out)@) == views(old(out)@) + (if old(self).initialized {
                Seq::<ActionView>::empty()
            } else {
                seq![ActionView::ResetTime]
            }) + if old(self).listen {
                seq![ActionView::StartTransport]
            } else {
                Seq::empty()
            },
    {
        self.initialize(out);
        self.max_connections = max_connections;
        if self.listen {
            emit(out, ServerAction::StartTransport);
        }
        self.active = true;
        self.register_message_handlers();
        assert(views(old(out)@).subrange(0, views(old(out)@).len() as int) =~= views(old(out)@));
        assert(views(out@) =~= views(old(out)@) + (if old(self).initialized {
            Seq::<ActionView>::empty()
        } else {
            seq![ActionView::ResetTime]
        }) + if old(self).listen {
            seq![ActionView::StartTransport]
        } else {
            Seq::empty()
        });
        assert(views(out@).subrange(0, views(old(out)@).len() as int) =~= views(old(out)@));
    }

    /// Closes every connection, in order, and forgets them.
    pub fn disconnect_all(&mut self, out: &mut Vec<ServerAction>)
        requires
            old(self).wf(),
        ensures
            final(self).wf(),
            final(self).connections@ == Seq::<NetworkConnectionToClient>::empty(),
            final(self).objects@ == old(self).objects@,
            final(self).spawned@ == old(self).spawned@,
            final(self).same_settings(old(self)),
            views(final(out)@) == views(old(out)@) + disconnects(old(self).connections@),
    {
        let n = self.connections.len();
        let mut i: usize = 0;
        while i < n
            invariant
                n == old(self).connections@.len(),
                i <= n,
                self.connections@.len() == n,
                forall|k: int| 0 <= k < n ==> #[trigger] self.connections@[k].connection_id
                    == old(self).connections@[k].connection_id,
                self.objects@ == old(self).objects@,
                self.spawned@ == old(self).spawned@,
                self.same_settings(old(self)),
                views(out@) == views(old(out)@) + disconnects(old(self).connections@.subrange(0, i as int)),
            decreases n - i,
        {
            self.connections[i].disconnect();
            let connection_id = self.connections[i].connection_id;
            emit(out, ServerAction::Disconnect { connection_id });
            proof {
                let post = old(self).connections@.subrange(0, i as int + 1);
                assert(post.drop_last() =~= old(self).connections@.subrange(0, i as int));
                assert(views(out@) =~= views(old(out)@) + disconnects(post));
            }
            i = i + 1;
        }
        assert(old(self).connections@.subrange(0, n as int) =~= old(self).connections@);
        self.connections.clear();
    }

    /// Sends a message to every connection, or to every ready one, in order;
    /// nothing when the server is inactive or the message is larger than a
    /// message may be.
    pub fn send_to_all<M: NetworkMessage>(
        &self,
        message: &mut M,
        channel: TransportChannel,
        send_to_ready_only: bool,
        out: &mut Vec<ServerAction>,
    )
        requires
            <M as MessageSerializer>::serializable(old(message)@),
            2 + <M as MessageSerializer>::body_max(old(message)@) <= usize::MAX,
        ensures
            views(final(out)@) == views(old(out)@) + if !self.active || message_bytes::<M>(
                old(message)@,
            ).len() > 1502 {
                Seq::empty()
            } else {
                sends_to_all(
                    self.connections@,
                    send_to_ready_only,
                    channel,
                    message_bytes::<M>(old(message)@),
                )
            },
            final(message)@ == old(message)@,
    {
        if !self.active {
            assert(views(out@) =~= views(old(out)@) + Seq::<ActionView>::empty());
            return;
        }
        let payload = pack(message);
        if payload.len() > max_message_size(channel) {
            assert(views(out@) =~= views(old(out)@) + Seq::<ActionView>::empty());
            return;
        }
        let n = self.connections.len();
        let mut i: usize = 0;
        while i < n
            invariant
                n == self.connections@.len(),
                i <= n,
                views(out@) == views(old(out)@) + sends_to_all(
                    self.connections@.subrange(0, i as int),
                    send_to_ready_only,
                    channel,
                    payload@,
                ),
            decreases n - i,
        {
            let ghost post = self.connections@.subrange(0, i as int + 1);
            proof {
                assert(post.drop_last() =~= self.connections@.subrange(0, i as int));
            }
            if !(send_to_ready_only && !self.connections[i].is_ready) {
                emit(
                    out,
                    ServerAction::Send {
                        connection_id: self.connections[i].connection_id,
                        channel,
                        payload: copy_bytes(&payload),
                    },
                );
            }
            assert(views(out@) =~= views(old(out)@) + sends_to_all(
                post,
                send_to_ready_only,
                channel,
                payload@,
            ));
            i = i + 1;
        }
        assert(self.connections@.subrange(0, n as int) =~= self.connections@);
    }

    /// Registers a handler for messages of type `M`, unless one is
    /// registered for its id.
    pub fn register_handler<M: NetworkMessage>(&mut self, kind: HandlerKind, require_authentication: bool)
        ensures
            final(self).same_but_handlers(old(self)),
            final(self).has_disconnected_handler == old(self).has_disconnected_handler,
            final(self).handlers() == if old(self).handlers().contains_key(
                <M as MessageSerializer>::spec_id(),
            ) {
                old(self).handlers()
            } else {
                old(self).handlers().insert(
                    <M as MessageSerializer>::spec_id(),
                    MessageHandler { kind, require_authentication },
                )
            },
            final(self).connections@ == old(self).connections@,
            final(self).objects@ == old(self).objects@,
            final(self).spawned@ == old(self).spawned@,
            final(self).active == old(self).active,
            final(self).initialized == old(self).initialized,
            final(self).listen == old(self).listen,
    {
        let message_id = M::message_id();
        if self.message_handlers.contains_key(&message_id) {
            return;
        }
        self.message_handlers.insert(message_id, MessageHandler { kind, require_authentication });
    }

    /// Registers a handler for messages of type `M`, replacing any.
    pub fn replace_handler<M: NetworkMessage>(&mut self, kind: HandlerKind, require_authentication: bool)
        ensures
            final(self).same_but_handlers(old(self)),
            final(self).has_disconnected_handler == old(self).has_disconnected_handler,
            final(self).handlers() == old(self).handlers().insert(
                <M as MessageSerializer>::spec_id(),
                MessageHandler { kind, require_authentication },
            ),
            final(self).connections@ == old(self).connections@,
            final(self).objects@ == old(self).objects@,
            final(self).spawned@ == old(self).spawned@,
            final(self).active == old(self).active,
            final(self).initialized == old(self).initialized,
            final(self).listen == old(self).listen,
    {
        let message_id = M::message_id();
        self.message_handlers.insert(message_id, MessageHandler { kind, require_authentication });
    }

    /// Removes the handler for messages of type `M`.
    pub fn unregister_handler<M: NetworkMessage>(&mut self)
        ensures
            final(self).same_but_handlers(old(self)),
            final(self).has_disconnected_handler == old(self).has_disconnected_handler,
            final(self).handlers() == old(self).handlers().remove(
                <M as MessageSerializer>::spec_id(),
            ),
            final(self).connections@ == old(self).connections@,
            final(self).objects@ == old(self).objects@,
            final(self).spawned@ == old(self).spawned@,
            final(self).active == old(self).active,
            final(self).initialized == old(self).initialized,
            final(self).listen == old(self).listen,
    {
        let message_id = M::message_id();
        self.message_handlers.remove(&message_id);
    }

    /// Sends `payload` reliably to each of `observers` that is a live
    /// connection.
    fn send_to_live(&self, observers: &Vec<u64>, payload: &Vec<u8>, out: &mut Vec<ServerAction>)
        ensures
            views(final(out)@) == views(old(out)@) + sends_to_live(
                self.connections@,
                observers@,
                payload@,
            ),
    {
        let mut i: usize = 0;
        while i < observers.len()
            invariant
                i <= observers@.len(),
                views(out@) == views(old(out)@) + sends_to_live(
                    self.connections@,
                    observers@.subrange(0, i as int),
                    payload@,
                ),
            decreases observers.len() - i,
        {
            let o = observers[i];
            let ghost prefix = observers@.subrange(0, i as int + 1);
            assert(prefix.drop_last() =~= observers@.subrange(0, i as int));
            if self.connection_contains_key(o) {
                emit(out, ServerAction::Send {
                    connection_id: o,
                    channel: TransportChannel::Reliable,
                    payload: copy_bytes(payload),
                });
            }
            assert(views(out@) =~= views(old(out)@) + sends_to_live(
                self.connections@,
                prefix,
                payload@,
            ));
            i = i + 1;
        }
        assert(observers@.subrange(0, observers@.len() as int) =~= observers@);
    }

    /// The connections forget object `object_id`: its owner `owner` no
    /// longer owns it and its `observers` no longer observe it.
    fn forget_object(&mut self, object_id: u64, owner: Option<u64>, observers: &Vec<u64>)
        requires
            old(self).wf(),
        ensures
            final(self).wf(),
            final(self).connections@.len() == old(self).connections@.len(),
            forall|i: int|
                0 <= i < old(self).connections@.len() ==> #[trigger] forgot_object(
                    final(self).connections@[i],
                    old(self).connections@[i],
                    object_id,
                    owner,
                    observers@,
                ),
            final(self).objects@ == old(self).objects@,
            final(self).spawned@ == old(self).spawned@,
            final(self).same_settings(old(self)),
    {
        let n = self.connections.len();
        let mut i: usize = 0;
        while i < n
            invariant
                n == old(self).connections@.len(),
                i <= n,
                self.connections@.len() == n,
                forall|k: int|
                    0 <= k < i ==> #[trigger] forgot_object(
                        self.connections@[k],
                        old(self).connections@[k],
                        object_id,
                        owner,
                        observers@,
                    ),
                forall|k: int| i <= k < n ==> self.connections@[k] == old(self).connections@[k],
                self.objects@ == old(self).objects@,
                self.spawned@ == old(self).spawned@,
                self.same_settings(old(self)),
            decreases n - i,
        {
            let id = self.connections[i].connection_id;
            if owner == Some(id) {
                self.connections[i].remove_owned_object(object_id);
            }
            if contains_u64(observers, id) {
                self.connections[i].remove_from_observing(object_id);
            }
            i = i + 1;
        }
        assert(unique_connections(self.connections@)) by {
            assert forall|a: int, b: int|
                0 <= a < b < self.connections@.len() implies #[trigger] self.connections@[a].connection_id
                != #[trigger] self.connections@[b].connection_id by {
                assert(forgot_object(
                    self.connections@[a],
                    old(self).connections@[a],
                    object_id,
                    owner,
                    observers@,
                ));
                assert(forgot_object(
                    self.connections@[b],
                    old(self).connections@[b],
                    object_id,
                    owner,
                    observers@,
                ));
            }
        }
        proof {
            let cs = self.connections@;
            assert forall|i: int, k: int|
                0 <= i < cs.len() && 0 <= k < self.objects@.len() && #[trigger] cs[i].owned@.contains(
                    #[trigger] self.objects@[k].object_id,
                ) implies self.objects@[k].connection == Some(cs[i].connection_id) by {
                assert(forgot_object(cs[i], old(self).connections@[i], object_id, owner, observers@));
                crate::network_connection::lemma_without(old(self).connections@[i].owned@, object_id);
                assert(old(self).connections@[i].owned@.contains(self.objects@[k].object_id));
            }
        }
    }

    /// Sends a message reliably to each of `observers` that is a live
    /// connection; nothing when there are none or the message is larger than
    /// a message may be.
    pub fn send_to_observers<M: NetworkMessage>(
        &self,
        observers: &Vec<u64>,
        message: &mut M,
        out: &mut Vec<ServerAction>,
    )
        requires
            <M as MessageSerializer>::serializable(old(message)@),
            2 + <M as MessageSerializer>::body_max(old(message)@) <= usize::MAX,
        ensures
            views(final(out)@) == views(old(out)@) + observer_sends(
                self.connections@,
                observers@,
                message_bytes::<M>(old(message)@),
            ),
            final(message)@ == old(message)@,
    {
        if observers.len() == 0 {
            assert(views(out@) =~= views(old(out)@) + Seq::<ActionView>::empty());
            return;
        }
        let payload = pack(message);
        if payload.len() > max_message_size(TransportChannel::Reliable) {
            assert(views(out@) =~= views(old(out)@) + Seq::<ActionView>::empty());
            return;
        }
        self.send_to_live(observers, &payload, out);
    }

    /// `self` and `new_out` follow from `before` and `old_out` by the unspawn of
    /// object `object_id` (see `un_spawn_internal`).
    pub open spec fn unspawn_effect(
        &self,
        before: &NetworkServer,
        object_id: u64,
        reset_state: bool,
        new_out: Seq<ActionView>,
        old_out: Seq<ActionView>,
    ) -> bool {
        &&& self.wf()
        &&& self.same_settings(before)
        &&& self.objects@.len() == before.objects@.len()
        &&& !before.active || (forall|k: int|
            0 <= k < before.objects@.len() ==> #[trigger] before.objects@[k].object_id
                != object_id) ==> {
            &&& self.objects@ == before.objects@
            &&& self.connections@ == before.connections@
            &&& self.spawned@ == before.spawned@
            &&& new_out == old_out
        }
        &&& forall|i: int|
            0 <= i < before.objects@.len() && before.active
                && #[trigger] before.objects@[i].object_id == object_id ==> {
                let o = before.objects@[i];
                &&& self.spawned@ == without(before.spawned@, o.net_id)
                &&& unspawned_object(self.objects@[i], o, reset_state)
                &&& forall|k: int|
                    0 <= k < before.objects@.len() && k != i ==> self.objects@[k]
                        == before.objects@[k]
                &&& self.connections@.len() == before.connections@.len()
                &&& forall|k: int|
                    0 <= k < before.connections@.len() ==> #[trigger] forgot_object(
                        self.connections@[k],
                        before.connections@[k],
                        object_id,
                        o.connection,
                        o.observers@,
                    )
                &&& new_out == old_out + unspawn_actions(
                    before.connections@,
                    o,
                    reset_state,
                )
            }
    }

    /// Takes object `object_id` off the network: it leaves the spawned set,
    /// its owner and observers forget it, its observers are told to destroy
    /// it, and its server hooks stop; with `reset_state` it also returns to
    /// its unspawned state and is deactivated. Nothing happens when the
    /// server is not active or there is no such object.
    #[verifier::spinoff_prover]
    #[verifier::rlimit(40)]
    pub fn un_spawn_internal(&mut self, object_id: u64, reset_state: bool, out: &mut Vec<ServerAction>)
        requires
            old(self).wf(),
        ensures
            final(self).unspawn_effect(old(self), object_id, reset_state, views(final(out)@), views(old(out)@)),
    {
        if !self.active {
            return;
        }
        let idx = match self.find_object(object_id) {
            Some(i) => i,
            None => {
                return;
            },
        };
        let ghost o = self.objects@[idx as int];
        let net_id = self.objects[idx].net_id;
        proof {
            crate::network_connection::lemma_without(self.spawned@, net_id);
        }
        crate::network_connection::remove_all_u32(&mut self.spawned, net_id);
        let owner = self.objects[idx].connection;
        let mut message = crate::message_types::ObjectDestroyMessage::new(net_id);
        let observers = self.objects[idx].clear_observers();
        proof {
            self.lemma_objects_wf_after_update(*old(self), idx as int);
            lemma_owners_agree_update(self.connections@, old(self).objects@, self.objects@, idx as int);
        }
        self.send_to_observers(&observers, &mut message, out);
        let ghost before_forget = *self;
        self.forget_object(object_id, owner, &observers);
        emit(out, ServerAction::StopServer { object_id });
        if reset_state {
            let ghost before = *self;
            let (change, _) = self.objects[idx].reset_state();
            proof {
                self.lemma_objects_wf_after_update(before, idx as int);
                assert forall|i: int| 0 <= i < self.connections@.len() implies !(
                #[trigger] self.connections@[i].owned@).contains(self.objects@[idx as int].object_id) by {
                    let c = before_forget.connections@[i];
                    assert(forgot_object(self.connections@[i], c, object_id, owner, observers@));
                    crate::network_connection::lemma_without(c.owned@, object_id);
                    if owner != Some(c.connection_id) && c.owned@.contains(object_id) {
                        assert(c.owned@.contains(before_forget.objects@[idx as int].object_id));
                    }
                }
                lemma_owners_agree_update(self.connections@, before.objects@, self.objects@, idx as int);
            }
            if change == crate::network_identity::AuthorityChange::Stopped {
                emit(out, ServerAction::StopAuthority { object_id });
            }
            emit(out, ServerAction::SetActive { object_id, active: false });
        }
        proof {
            assert forall|i: int|
                0 <= i < old(self).objects@.len() && old(self).active
                    && #[trigger] old(self).objects@[i].object_id == object_id implies i == idx by {
                if i != idx {
                    if i < idx {
                        assert(old(self).objects@[i].object_id != old(self).objects@[idx as int].object_id);
                    } else {
                        assert(old(self).objects@[idx as int].object_id != old(self).objects@[i].object_id);
                    }
                }
            }
        }
        assert(views(out@) =~= views(old(out)@) + unspawn_actions(
            old(self).connections@,
            o,
            reset_state,
        ));
    }

    /// Unspawns object `object_id` and returns it to its unspawned state.
    pub fn un_spawn(&mut self, object_id: u64, out: &mut Vec<ServerAction>)
        requires
            old(self).wf(),
        ensures
            final(self).wf(),
            final(self).same_settings(old(self)),
            final(self).objects@.len() == old(self).objects@.len(),
            !old(self).active || (forall|k: int|
                0 <= k < old(self).objects@.len() ==> #[trigger] old(self).objects@[k].object_id
                    != object_id) ==> {
                &&& final(self).objects@ == old(self).objects@
                &&& final(self).connections@ == old(self).connections@
                &&& final(self).spawned@ == old(self).spawned@
                &&& views(final(out)@) == views(old(out)@)
            },
            forall|i: int|
                0 <= i < old(self).objects@.len() && old(self).active
                    && #[trigger] old(self).objects@[i].object_id == object_id ==> {
                    let o = old(self).objects@[i];
                    &&& final(self).spawned@ == without(old(self).spawned@, o.net_id)
                    &&& unspawned_object(final(self).objects@[i], o, true)
                    &&& forall|k: int|
                        0 <= k < old(self).objects@.len() && k != i ==> final(self).objects@[k]
                            == old(self).objects@[k]
                    &&& final(self).connections@.len() == old(self).connections@.len()
                    &&& forall|k: int|
                        0 <= k < old(self).connections@.len() ==> #[trigger] forgot_object(
                            final(self).connections@[k],
                            old(self).connections@[k],
                            object_id,
                            o.connection,
                            o.observers@,
                        )
                    &&& views(final(out)@) == views(old(out)@) + unspawn_actions(
                        old(self).connections@,
                        o,
                        true,
                    )
                },
    {
        self.un_spawn_internal(object_id, true, out)
    }

    /// Changing one object, keeping its id and well-formedness, keeps the
    /// objects unique and well formed.
    proof fn lemma_objects_wf_after_update(&self, before: NetworkServer, idx: int)
        requires
            unique_objects(before.objects@),
            forall|i: int| 0 <= i < before.objects@.len() ==> #[trigger] before.objects@[i].wf(),
            0 <= idx < before.objects@.len(),
            self.objects@.len() == before.objects@.len(),
            forall|k: int| 0 <= k < before.objects@.len() && k != idx ==> self.objects@[k] == before.objects@[k],
            self.objects@[idx].object_id == before.objects@[idx].object_id,
            self.objects@[idx].wf() == before.objects@[idx].wf(),
        ensures
            unique_objects(self.objects@),
            forall|i: int| 0 <= i < self.objects@.len() ==> #[trigger] self.objects@[i].wf(),
    {
        assert forall|a: int, b: int|
            0 <= a < b < self.objects@.len() implies #[trigger] self.objects@[a].object_id
            != #[trigger] self.objects@[b].object_id by {
            assert(before.objects@[a].object_id != before.objects@[b].object_id);
        }
        assert forall|k: int| 0 <= k < self.objects@.len() implies #[trigger] self.objects@[k].wf() by {
            assert(before.objects@[k].wf());
        }
    }

    /// The object at `k` is the first with net id `net_id`, which is
    /// spawned.
    pub open spec fn spawned_at(&self, net_id: u32, k: int) -> bool {
        &&& self.spawned@.contains(net_id)
        &&& 0 <= k < self.objects@.len()
        &&& self.objects@[k].net_id == net_id
        &&& forall|j: int| 0 <= j < k ==> #[trigger] self.objects@[j].net_id != net_id
    }

    /// The connection with id `connection_id` is authenticated.
    pub open spec fn is_authenticated(&self, connection_id: u64) -> bool {
        exists|i: int|
            0 <= i < self.connections@.len() && #[trigger] self.connections@[i].connection_id
                == connection_id && self.connections@[i].is_authenticated
    }

    /// What a command from connection `connection_id` comes to: nothing
    /// unless the connection is ready, the object is spawned, the sender owns
    /// it when the command requires so, the component index is within the
    /// object's component types and a command is registered under the hash;
    /// else the run of that command's delegate on the payload.
    pub open spec fn command_actions(&self, connection_id: u64, m: (u32, u8, u16, Seq<u8>)) -> Seq<
        ActionView,
    > {
        if !self.is_ready(connection_id) {
            Seq::empty()
        } else if exists|k: int| self.spawned_at(m.0, k) {
            let k = choose|k: int| self.spawned_at(m.0, k);
            let o = self.objects@[k];
            if self.calls@.contains_key(m.2) && self.calls@[m.2].cmd_requires_authority
                && o.connection != Some(connection_id) {
                Seq::empty()
            } else if m.1 >= (o.component_type_count as u8) {
                Seq::empty()
            } else if self.calls@.contains_key(m.2) && self.calls@[m.2].call_type
                == crate::remote_calls::RemoteCallType::Command {
                seq![
                    ActionView::InvokeCommand {
                        delegate: self.calls@[m.2].function,
                        object_id: o.object_id,
                        component_index: m.1,
                        connection_id,
                        payload: m.3,
                    },
                ]
            } else {
                Seq::empty()
            }
        } else {
            Seq::empty()
        }
    }

    /// `self` is `before` after connection `connection_id` became ready, with
    /// the actions of that.
    pub open spec fn ready_effect(
        &self,
        before: &NetworkServer,
        connection_id: u64,
        new_out: Seq<ActionView>,
        old_out: Seq<ActionView>,
    ) -> bool {
        &&& self.readiness_set(before, connection_id, true)
        &&& self.objects@ == before.objects@
        &&& self.spawned@ == before.spawned@
        &&& self.same_settings(before)
        &&& new_out == old_out + if before.has_live_player(connection_id) {
            spawn_observer_actions(connection_id)
        } else {
            Seq::empty()
        }
    }

    /// `self` is `before` after connection `connection_id` was closed, with the
    /// actions of that.
    pub open spec fn disconnect_effect(
        &self,
        before: &NetworkServer,
        connection_id: u64,
        new_out: Seq<ActionView>,
        old_out: Seq<ActionView>,
    ) -> bool {
        &&& self.readiness_set(before, connection_id, false)
        &&& self.objects@ == before.objects@
        &&& self.spawned@ == before.spawned@
        &&& self.same_settings(before)
        &&& new_out == old_out + if before.has_connection(connection_id) {
            seq![ActionView::Disconnect { connection_id }]
        } else {
            Seq::empty()
        }
    }

    /// `self` is `before` after handler `h` ran on a message body `body` from
    /// connection `connection_id`: a connection that is not authenticated is
    /// closed when the handler requires authentication; else the handler's
    /// own effect.
    pub open spec fn handled(
        &self,
        before: &NetworkServer,
        h: MessageHandler,
        connection_id: u64,
        body: Seq<u8>,
        channel: TransportChannel,
        new_out: Seq<ActionView>,
        old_out: Seq<ActionView>,
    ) -> bool {
        if h.require_authentication && !before.is_authenticated(connection_id) {
            self.disconnect_effect(before, connection_id, new_out, old_out)
        } else {
            match h.kind {
                HandlerKind::Ready => self.ready_effect(before, connection_id, new_out, old_out),
                HandlerKind::Command => *self == *before && new_out == old_out + before.command_actions(
                    connection_id,
                    <crate::message_types::CommandMessage as MessageDeserializer>::spec_deserialize(
                        body,
                    ).0,
                ),
                HandlerKind::EntityState => *self == *before && new_out == old_out,
                HandlerKind::TimeSnapshot => *self == *before && new_out == old_out.push(
                    ActionView::TimeSnapshot { connection_id },
                ),
                HandlerKind::Ping => *self == *before && new_out == old_out.push(
                    ActionView::Ping { connection_id, body },
                ),
                HandlerKind::Pong => *self == *before && new_out == old_out.push(
                    ActionView::Pong { connection_id, body },
                ),
                HandlerKind::Custom(handler) => *self == *before && new_out == old_out.push(
                    ActionView::Deliver { handler, connection_id, channel, body },
                ),
            }
        }
    }

    /// `self` is `before` after message `message` arrived from connection
    /// `connection_id`: a message shorter than an id, or whose id has no
    /// handler, closes the connection when the server disconnects on such
    /// errors, and is ignored otherwise; else the handler of its id runs on
    /// its body.
    #[verifier::opaque]
    pub open spec fn message_handled(
        &self,
        before: &NetworkServer,
        connection_id: u64,
        message: Seq<u8>,
        channel: TransportChannel,
        new_out: Seq<ActionView>,
        old_out: Seq<ActionView>,
    ) -> bool {
        let id = read_fixed::<u16>(message).0;
        if message.len() >= 2 && id != 0 && before.handlers().contains_key(id) {
            self.handled(
                before,
                before.handlers()[id],
                connection_id,
                skip(message, 2),
                channel,
                new_out,
                old_out.push(ActionView::MessageReceived { connection_id }),
            )
        } else if before.exceptions_disconnect {
            self.disconnect_effect(before, connection_id, new_out, old_out)
        } else {
            *self == *before && new_out == old_out
        }
    }

    /// `self` and `new_out` follow from `before` and `old_out` by a batch of
    /// `messages` from connection `connection_id`, through the server `mid`
    /// after the check of the batch and the servers `states` after each
    /// message.
    pub open spec fn data_trace(
        &self,
        before: &NetworkServer,
        connection_id: u64,
        batch_ok: bool,
        messages: Seq<Vec<u8>>,
        channel: TransportChannel,
        new_out: Seq<ActionView>,
        old_out: Seq<ActionView>,
        mid: NetworkServer,
        mid_out: Seq<ActionView>,
        states: Seq<NetworkServer>,
        outs: Seq<Seq<ActionView>>,
    ) -> bool {
        &&& if !batch_ok && before.exceptions_disconnect {
            mid.disconnect_effect(before, connection_id, mid_out, old_out)
        } else {
            mid == *before && mid_out == old_out
        }
        &&& states.len() >= 1
        &&& outs.len() >= 1
        &&& states[0] == mid
        &&& outs[0] == mid_out
        &&& *self == states.last()
        &&& new_out == outs.last()
        &&& if (!batch_ok && !before.exceptions_disconnect) || before.is_loading_scene {
            states.len() == 1 && outs.len() == 1
        } else {
            messages_handled(states, outs, connection_id, messages, channel)
        }
    }

    /// `after` and `new_out` follow `self` and `old_out` when the spawned
    /// net id `net_id` is cleaned up: the object that it names, if any, is
    /// destroyed.
    pub open spec fn destroy_step(
        &self,
        after: NetworkServer,
        old_out: Seq<ActionView>,
        new_out: Seq<ActionView>,
        net_id: u32,
    ) -> bool {
        &&& (forall|k: int| !#[trigger] self.spawned_at(net_id, k)) ==> after == *self && new_out == old_out
        &&& forall|k: int| #[trigger] self.spawned_at(net_id, k) ==> after.destroy_effect(
            self,
            self.objects@[k].object_id,
            new_out,
            old_out,
        )
    }

    /// The servers `states` and action lists `outs` follow the clean-up of
    /// the spawned net ids `ids`, in order, from their first entries.
    pub open spec fn cleanup_trace(states: Seq<NetworkServer>, outs: Seq<Seq<ActionView>>, ids: Seq<u32>) -> bool
        decreases ids.len(),
    {
        &&& states.len() == ids.len() + 1
        &&& outs.len() == ids.len() + 1
        &&& ids.len() > 0 ==> {
            &&& Self::cleanup_trace(states.drop_last(), outs.drop_last(), ids.drop_last())
            &&& states[ids.len() - 1].destroy_step(states.last(), outs[ids.len() - 1], outs.last(), ids.last())
        }
    }

    /// The object at `k` has id `object_id` and is a scene object that is
    /// not numbered yet and whose owner is a live connection.
    pub open spec fn spawn_candidate(&self, object_id: u64, k: int) -> bool {
        &&& self.object_at(object_id, k)
        &&& self.objects@[k].scene_id != 0
        &&& self.objects@[k].net_id == 0
        &&& self.objects@[k].connection is Some
        &&& self.has_connection(self.objects@[k].connection->0)
    }

    /// `after` and `new_out` follow `self` and `old_out` when the scene
    /// object `object_id` is considered for spawning: with an active parent
    /// (`valid_parent`), a candidate is spawned for its owner; otherwise
    /// nothing changes.
    pub open spec fn spawn_step(
        &self,
        after: NetworkServer,
        old_out: Seq<ActionView>,
        new_out: Seq<ActionView>,
        object_id: u64,
        valid_parent: bool,
    ) -> bool {
        &&& (!valid_parent || forall|k: int| !#[trigger] self.spawn_candidate(object_id, k)) ==> after == *self
            && new_out == old_out
        &&& valid_parent ==> forall|k: int| #[trigger] self.spawn_candidate(object_id, k) ==> after.spawn_effect(
            self,
            object_id,
            self.objects@[k].connection->0,
            new_out,
            old_out,
        )
    }

    /// The servers `states` and action lists `outs` follow the spawning of
    /// the scene objects `ids`, in order, with the parents' activity `valid`,
    /// from their first entries.
    pub open spec fn spawn_trace(
        states: Seq<NetworkServer>,
        outs: Seq<Seq<ActionView>>,
        ids: Seq<u64>,
        valid: Seq<bool>,
    ) -> bool
        decreases ids.len(),
    {
        &&& states.len() == ids.len() + 1
        &&& outs.len() == ids.len() + 1
        &&& valid.len() == ids.len()
        &&& ids.len() > 0 ==> {
            &&& Self::spawn_trace(states.drop_last(), outs.drop_last(), ids.drop_last(), valid.drop_last())
            &&& states[ids.len() - 1].spawn_step(
                states.last(),
                outs[ids.len() - 1],
                outs.last(),
                ids.last(),
                valid.last(),
            )
        }
    }

    /// `self`, `conn` and `new_out` follow `before`, `conn_before` and
    /// `old_out` when the connection, no longer listed, gives up its player:
    /// the player object loses its owner, the connection stops owning it, and
    /// the change of owner is told; nothing without a player that exists.
    pub open spec fn detached_player(
        &self,
        before: &NetworkServer,
        conn: NetworkConnectionToClient,
        conn_before: NetworkConnectionToClient,
        new_out: Seq<ActionView>,
        old_out: Seq<ActionView>,
    ) -> bool {
        match conn_before.identity {
            None => *self == *before && conn == conn_before && new_out == old_out,
            Some(player) => {
                &&& (forall|k: int| !#[trigger] before.object_at(player, k)) ==> *self == *before && conn
                    == conn_before && new_out == old_out
                &&& forall|k: int| #[trigger] before.object_at(player, k) ==> {
                    &&& self.objects@.len() == before.objects@.len()
                    &&& self.objects@[k].connection is None
                    &&& self.objects@[k].keeps_core_but_owner(&before.objects@[k])
                    &&& forall|j: int| 0 <= j < before.objects@.len() && j != k ==> self.objects@[j] == before.objects@[j]
                    &&& forgot_owned(self.connections@, before.connections@, player)
                    &&& self.spawned@ == before.spawned@
                    &&& self.same_settings(before)
                    &&& same_connection(conn, conn_before)
                    &&& conn.observing@ == conn_before.observing@
                    &&& conn.owned@ == without(conn_before.owned@, player)
                    &&& new_out == old_out + self.change_owner_actions(player, conn.connection_id)
                }
            },
        }
    }

    /// `self`, `conn` and `new_out` follow `before`, `conn_before` and
    /// `old_out` when the connection, no longer listed, gives up the object
    /// `object_id` that it owned: a scene object makes it give up its
    /// player; another one is destroyed; nothing for an unknown object.
    pub open spec fn owned_step(
        &self,
        before: &NetworkServer,
        conn: NetworkConnectionToClient,
        conn_before: NetworkConnectionToClient,
        new_out: Seq<ActionView>,
        old_out: Seq<ActionView>,
        object_id: u64,
    ) -> bool {
        &&& (forall|k: int| !#[trigger] before.object_at(object_id, k)) ==> *self == *before && conn == conn_before
            && new_out == old_out
        &&& forall|k: int| #[trigger] before.object_at(object_id, k) ==> if before.objects@[k].scene_id != 0 {
            self.detached_player(before, conn, conn_before, new_out, old_out)
        } else {
            self.destroy_effect(before, object_id, new_out, old_out) && conn == conn_before
        }
    }

    /// A connection's owned objects agree with the objects' owners after
    /// one step of giving them up when they agreed before.
    proof fn lemma_owned_step_agrees(
        &self,
        before: &NetworkServer,
        conn: NetworkConnectionToClient,
        conn_before: NetworkConnectionToClient,
        new_out: Seq<ActionView>,
        old_out: Seq<ActionView>,
        object_id: u64,
    )
        requires
            before.wf(),
            owners_agree(seq![conn_before], before.objects@),
            self.owned_step(before, conn, conn_before, new_out, old_out, object_id),
        ensures
            owners_agree(seq![conn], self.objects@),
    {
        reveal(NetworkServer::destroy_effect);
        if exists|k: int| #[trigger] before.object_at(object_id, k) {
            let k = choose|k: int| #[trigger] before.object_at(object_id, k);
            if before.objects@[k].scene_id != 0 {
                match conn_before.identity {
                    None => {},
                    Some(player) => {
                        if exists|q: int| #[trigger] before.object_at(player, q) {
                            let q = choose|q: int| #[trigger] before.object_at(player, q);
                            crate::network_connection::lemma_without(conn_before.owned@, player);
                            assert forall|i: int, j: int|
                                0 <= i < 1 && 0 <= j < self.objects@.len() && #[trigger] seq![conn][i].owned@.contains(
                                    #[trigger] self.objects@[j].object_id,
                                ) implies self.objects@[j].connection == Some(seq![conn][i].connection_id) by {
                                assert(seq![conn][i] == conn);
                                assert(seq![conn_before][0] == conn_before);
                                if j != q {
                                    assert(self.objects@[j] == before.objects@[j]);
                                } else {
                                    assert(self.objects@[q].object_id == player);
                                }
                            }
                        } else {
                            assert(*self == *before && conn == conn_before);
                        }
                    },
                }
            } else if before.active {
                assert(self.objects@ == before.objects@.remove(k));
                assert forall|i: int, j: int|
                    0 <= i < 1 && 0 <= j < self.objects@.len() && #[trigger] seq![conn][i].owned@.contains(
                        #[trigger] self.objects@[j].object_id,
                    ) implies self.objects@[j].connection == Some(seq![conn][i].connection_id) by {
                    assert(seq![conn][i] == conn_before);
                    assert(seq![conn_before][0] == conn_before);
                    if j < k {
                        assert(self.objects@[j] == before.objects@[j]);
                    } else {
                        assert(self.objects@[j] == before.objects@[j + 1]);
                    }
                }
            }
        }
    }

    /// The servers `states`, connections `conns` and action lists `outs`
    /// follow, from their first entries, a connection giving up the objects
    /// `ids` in order.
    pub open spec fn owned_trace(
        states: Seq<NetworkServer>,
        conns: Seq<NetworkConnectionToClient>,
        outs: Seq<Seq<ActionView>>,
        ids: Seq<u64>,
    ) -> bool
        decreases ids.len(),
    {
        &&& states.len() == ids.len() + 1
        &&& conns.len() == ids.len() + 1
        &&& outs.len() == ids.len() + 1
        &&& ids.len() > 0 ==> {
            &&& Self::owned_trace(states.drop_last(), conns.drop_last(), outs.drop_last(), ids.drop_last())
            &&& states.last().owned_step(
                &states[ids.len() - 1],
                conns.last(),
                conns[ids.len() - 1],
                outs.last(),
                outs[ids.len() - 1],
                ids.last(),
            )
        }
    }

    /// `self` and `new_out` follow `before` and `old_out` when the connection
    /// listed at `i` went away and its objects were cleaned up: it is no
    /// longer listed, its buffers are dropped, it gives up the objects it
    /// owned, in order, and the objects it observed forget it.
    pub open spec fn cleaned_after(
        &self,
        before: &NetworkServer,
        i: int,
        new_out: Seq<ActionView>,
        old_out: Seq<ActionView>,
    ) -> bool {
        let c = before.connections@[i];
        exists|states: Seq<NetworkServer>, conns: Seq<NetworkConnectionToClient>, outs: Seq<Seq<ActionView>>|
            #[trigger] Self::owned_trace(states, conns, outs, c.owned@) && states[0].connections@
                == before.connections@.remove(i) && states[0].objects@ == before.objects@ && states[0].spawned@
                == before.spawned@ && states[0].same_settings(before) && conns[0] == c && outs[0] == old_out.push(
                ActionView::Cleanup { connection_id: c.connection_id },
            ) && new_out == outs.last() && Self::observers_forgot(
                self.objects@,
                states.last().objects@,
                c.connection_id,
                conns.last().observing@,
            ) && *self == (NetworkServer { objects: self.objects, ..states.last() })
    }

    /// `self` and `new_out` follow `before` and `old_out` when an active
    /// server spawns its scene objects: those not numbered yet are
    /// activated, in order, then each one with an active parent (`valid`, by
    /// object) is spawned for its live owner.
    pub open spec fn objects_spawned(
        &self,
        before: &NetworkServer,
        valid: Seq<bool>,
        new_out: Seq<ActionView>,
        old_out: Seq<ActionView>,
    ) -> bool {
        exists|states: Seq<NetworkServer>, outs: Seq<Seq<ActionView>>|
            #[trigger] Self::spawn_trace(states, outs, object_ids_of(before.objects@), valid) && states[0]
                == *before && outs[0] == old_out + activations(before.objects@) && *self == states.last()
                && new_out == outs.last()
    }

    /// `self` is `before` after connection `connection_id` was given object
    /// `object_id` as its player.
    pub open spec fn player_added(
        &self,
        before: &NetworkServer,
        connection_id: u64,
        object_id: u64,
        new_out: Seq<ActionView>,
        old_out: Seq<ActionView>,
    ) -> bool {
        exists|s1: NetworkServer, s2: NetworkServer, o2: Seq<ActionView>|
            #[trigger] self.player_added_trace(before, connection_id, object_id, s1, s2, o2, new_out, old_out)
    }

    /// `self` is `before` up to the writers of its objects' last
    /// serializations.
    pub open spec fn serialized_only(&self, before: &NetworkServer) -> bool {
        &&& self.connections@ == before.connections@
        &&& self.spawned@ == before.spawned@
        &&& self.same_settings(before)
        &&& self.objects@.len() == before.objects@.len()
        &&& forall|k: int|
            0 <= k < before.objects@.len() ==> #[trigger] self.objects@[k].same_but_behaviours(
                &before.objects@[k],
            ) && self.objects@[k].behaviours@ == before.objects@[k].behaviours@
    }

    /// The spawn message of the object at `k` for connection
    /// `connection_id`, none for a server-only object. It says whether the
    /// connection owns the object and whether it is the connection's player,
    /// and carries the initial state that the connection may see.
    pub open spec fn spawn_message_actions(&self, k: int, connection_id: u64) -> Seq<ActionView> {
        let o = self.objects@[k];
        if o.server_only {
            Seq::empty()
        } else {
            let is_owner = o.connection == Some(connection_id);
            let is_local = exists|i: int|
                self.connection_at(connection_id, i) && self.connections@[i].identity == Some(
                    o.object_id,
                );
            seq![
                ActionView::SendSpawn {
                    connection_id,
                    object_id: o.object_id,
                    net_id: o.net_id,
                    is_local_player: is_local,
                    is_owner,
                    scene_id: o.scene_id,
                    asset_id: o.asset_id,
                    payload: spawn_payload(o.behaviours@, is_owner),
                },
            ]
        }
    }

    /// `self` and `new_out` follow from `before` and `old_out` by the respawn
    /// of object `object_id`: nothing unless it exists and is owned by a live
    /// connection; an unnumbered object is spawned for its owner, another
    /// one's spawn message is sent to its owner.
    pub open spec fn respawn_effect(
        &self,
        before: &NetworkServer,
        object_id: u64,
        new_out: Seq<ActionView>,
        old_out: Seq<ActionView>,
    ) -> bool {
        if exists|k: int| before.object_at(object_id, k) {
            let k = choose|k: int| before.object_at(object_id, k);
            let o = before.objects@[k];
            if o.connection is Some && before.has_connection(o.connection->0) {
                if o.net_id == 0 {
                    self.spawn_effect(before, object_id, o.connection->0, new_out, old_out)
                } else {
                    &&& self.wf()
                    &&& self.serialized_only(before)
                    &&& new_out == old_out + before.spawn_message_actions(k, o.connection->0)
                }
            } else {
                *self == *before && new_out == old_out
            }
        } else {
            *self == *before && new_out == old_out
        }
    }

    /// `self` is `before` after connection `connection_id` took object
    /// `object_id` as its player, and the object took the connection as its
    /// owner.
    pub open spec fn player_set(&self, before: &NetworkServer, connection_id: u64, object_id: u64) -> bool {
        &&& self.wf()
        &&& self.spawned@ == before.spawned@
        &&& self.same_settings(before)
        &&& self.connections@.len() == before.connections@.len()
        &&& self.objects@.len() == before.objects@.len()
        &&& forall|i: int|
            0 <= i < before.connections@.len() ==> {
                let c = before.connections@[i];
                let m = #[trigger] self.connections@[i];
                &&& m.connection_id == c.connection_id
                &&& m.address@ == c.address@
                &&& m.is_authenticated == c.is_authenticated
                &&& m.is_ready == c.is_ready
                &&& m.identity == if c.connection_id == connection_id {
                    Some(object_id)
                } else {
                    c.identity
                }
                &&& m.owned@ == owned_after(c, object_id, Some(connection_id))
                &&& m.observing@ == c.observing@
            }
        &&& forall|k: int|
            0 <= k < before.objects@.len() ==> {
                let o = before.objects@[k];
                let n = #[trigger] self.objects@[k];
                if o.object_id == object_id {
                    &&& n.connection == Some(connection_id)
                    &&& n.net_id == o.net_id
                    &&& n.object_id == o.object_id
                    &&& n.behaviours@ == o.behaviours@
                    &&& n.observers@ == o.observers@
                    &&& n.scene_id == o.scene_id
                    &&& n.is_server == o.is_server
                    &&& n.server_only == o.server_only
                    &&& n.visibility == o.visibility
                    &&& n.asset_id == o.asset_id
                } else {
                    n == o
                }
            }
    }

    /// The steps of adding player `object_id` for connection
    /// `connection_id`: the player is set (`s1`), the connection becomes
    /// ready (`s2`, `o2`), and the player is respawned.
    pub open spec fn player_added_trace(
        &self,
        before: &NetworkServer,
        connection_id: u64,
        object_id: u64,
        s1: NetworkServer,
        s2: NetworkServer,
        o2: Seq<ActionView>,
        new_out: Seq<ActionView>,
        old_out: Seq<ActionView>,
    ) -> bool {
        &&& s1.player_set(before, connection_id, object_id)
        &&& s2.ready_effect(&s1, connection_id, o2, old_out)
        &&& self.respawn_effect(&s2, object_id, new_out, o2)
    }

    /// The steps of replacing the player of connection `connection_id`,
    /// `previous`, by object `object_id`: the player is set (`s1`), the
    /// connection is told that spawning begins and ends (`o1`), the new player
    /// is respawned (`s2`, `o2`), and the previous one keeps its authority
    /// and the connection is told who owns it, loses its authority, or is
    /// unspawned, as `options` says.
    pub open spec fn player_replaced_trace(
        &self,
        before: &NetworkServer,
        connection_id: u64,
        object_id: u64,
        previous: u64,
        options: ReplacePlayerOptions,
        s1: NetworkServer,
        o1: Seq<ActionView>,
        s2: NetworkServer,
        o2: Seq<ActionView>,
        new_out: Seq<ActionView>,
        old_out: Seq<ActionView>,
    ) -> bool {
        &&& s1.player_set(before, connection_id, object_id)
        &&& o1 == old_out + if s1.is_ready(connection_id) {
            spawn_observer_actions(connection_id)
        } else {
            Seq::empty()
        }
        &&& s2.respawn_effect(&s1, object_id, o2, o1)
        &&& match options {
            ReplacePlayerOptions::KeepAuthority => *self == s2 && new_out == o2
                + s2.change_owner_actions(previous, connection_id),
            ReplacePlayerOptions::KeepActive => self.authority_removed(&s2, previous, new_out, o2),
            _ => self.unspawn_effect(&s2, previous, true, new_out, o2),
        }
    }

    /// `self` is `before` after connection `connection_id` was given object
    /// `object_id` as its player in place of its previous one, which
    /// `options` says what becomes of.
    pub open spec fn player_replaced(
        &self,
        before: &NetworkServer,
        connection_id: u64,
        object_id: u64,
        options: ReplacePlayerOptions,
        new_out: Seq<ActionView>,
        old_out: Seq<ActionView>,
    ) -> bool {
        exists|
            previous: u64,
            s1: NetworkServer,
            o1: Seq<ActionView>,
            s2: NetworkServer,
            o2: Seq<ActionView>,
        |
            #[trigger] self.player_replaced_trace(
                before,
                connection_id,
                object_id,
                previous,
                options,
                s1,
                o1,
                s2,
                o2,
                new_out,
                old_out,
            ) && (exists|i: int| before.connection_at(connection_id, i)
                && before.connections@[i].identity == Some(previous))
    }

    /// `self` is `before` with the player of connection `connection_id`
    /// forgotten.
    pub open spec fn player_cleared(&self, before: &NetworkServer, connection_id: u64) -> bool {
        &&& self.wf()
        &&& self.objects@ == before.objects@
        &&& self.spawned@ == before.spawned@
        &&& self.same_settings(before)
        &&& self.connections@.len() == before.connections@.len()
        &&& forall|i: int|
            0 <= i < before.connections@.len() ==> {
                let c = before.connections@[i];
                let m = #[trigger] self.connections@[i];
                if c.connection_id == connection_id {
                    &&& m.connection_id == c.connection_id
                    &&& m.address@ == c.address@
                    &&& m.is_authenticated == c.is_authenticated
                    &&& m.is_ready == c.is_ready
                    &&& m.identity is None
                    &&& m.owned@ == c.owned@
                    &&& m.observing@ == c.observing@
                } else {
                    m == c
                }
            }
    }

    /// `self` and `new_out` follow from `before` and `old_out` when connection
    /// `connection_id` gives up player `player` and keeps it active: the
    /// player loses its owner (`s1`), the connection stops owning it, and it
    /// is told who owns it.
    pub open spec fn kept_active(
        &self,
        before: &NetworkServer,
        connection_id: u64,
        player: u64,
        s1: NetworkServer,
        new_out: Seq<ActionView>,
        old_out: Seq<ActionView>,
    ) -> bool {
        &&& s1.wf()
        &&& forgot_owned(s1.connections@, before.connections@, player)
        &&& s1.spawned@ == before.spawned@
        &&& s1.same_settings(before)
        &&& s1.objects@.len() == before.objects@.len()
        &&& forall|k: int|
            0 <= k < before.objects@.len() ==> if before.objects@[k].object_id == player {
                &&& (#[trigger] s1.objects@[k]).connection is None
                &&& s1.objects@[k].keeps_core_but_owner(&before.objects@[k])
            } else {
                s1.objects@[k] == before.objects@[k]
            }
        &&& self.wf()
        &&& self.objects@ == s1.objects@
        &&& self.spawned@ == s1.spawned@
        &&& self.same_settings(&s1)
        &&& self.connections@.len() == s1.connections@.len()
        &&& forall|i: int|
            0 <= i < s1.connections@.len() ==> {
                let c = s1.connections@[i];
                let m = #[trigger] self.connections@[i];
                if c.connection_id == connection_id {
                    &&& same_connection(m, c)
                    &&& m.owned@ == without(c.owned@, player)
                    &&& m.observing@ == c.observing@
                } else {
                    m == c
                }
            }
        &&& new_out == old_out + self.change_owner_actions(player, connection_id)
    }

    /// The steps of taking player `player` from connection `connection_id`:
    /// with `KeepActive` the player loses its owner (`s1`), the connection
    /// stops owning it (`s2`) and is told who owns it (`o2`); with `UnSpawn`
    /// it is unspawned and with `Destroy` destroyed (`s2`, `o2`); then the
    /// connection forgets its player.
    pub open spec fn player_removed_trace(
        &self,
        before: &NetworkServer,
        connection_id: u64,
        player: u64,
        options: RemovePlayerOptions,
        s1: NetworkServer,
        s2: NetworkServer,
        o2: Seq<ActionView>,
        new_out: Seq<ActionView>,
        old_out: Seq<ActionView>,
    ) -> bool {
        &&& match options {
            RemovePlayerOptions::KeepActive => s2.kept_active(before, connection_id, player, s1, o2, old_out),
            RemovePlayerOptions::UnSpawn => s2.unspawn_effect(before, player, true, o2, old_out),
            RemovePlayerOptions::Destroy => s2.destroy_effect(before, player, o2, old_out),
        }
        &&& self.player_cleared(&s2, connection_id)
        &&& new_out == o2
    }

    /// The object at `k` has id `object_id`.
    pub open spec fn object_at(&self, object_id: u64, k: int) -> bool {
        0 <= k < self.objects@.len() && self.objects@[k].object_id == object_id
    }

    /// The connection at `i` has id `connection_id`.
    pub open spec fn connection_at(&self, connection_id: u64, i: int) -> bool {
        0 <= i < self.connections@.len() && self.connections@[i].connection_id == connection_id
    }

    /// The change-of-owner message about object `object_id` for connection
    /// `connection_id`: none unless both exist, the object is numbered and not
    /// server-only, and the connection does not observe it; it says whether
    /// the connection owns the object, and whether it is its player too.
    pub open spec fn change_owner_actions(&self, object_id: u64, connection_id: u64) -> Seq<ActionView> {
        if (exists|k: int| self.object_at(object_id, k)) && (exists|i: int|
            self.connection_at(connection_id, i)) {
            let o = self.objects@[choose|k: int| self.object_at(object_id, k)];
            let c = self.connections@[choose|i: int| self.connection_at(connection_id, i)];
            if o.net_id == 0 || o.server_only || c.observing@.contains(object_id) {
                Seq::empty()
            } else {
                send_view(
                    connection_id,
                    TransportChannel::Reliable,
                    message_bytes::<crate::message_types::ChangeOwnerMessage>(
                        crate::message_types::ChangeOwnerMessage {
                            net_id: o.net_id,
                            is_owner: o.connection == Some(connection_id),
                            is_local_player: c.identity == Some(object_id) && o.connection == Some(
                                connection_id,
                            ),
                        },
                    ),
                )
            }
        } else {
            Seq::empty()
        }
    }

    /// Some object of the world has id `object_id`.
    pub open spec fn has_object(&self, object_id: u64) -> bool {
        exists|k: int| 0 <= k < self.objects@.len() && #[trigger] self.objects@[k].object_id == object_id
    }

    /// The connection with id `connection_id` has a player object that
    /// exists.
    pub open spec fn has_live_player(&self, connection_id: u64) -> bool {
        exists|i: int|
            0 <= i < self.connections@.len() && #[trigger] self.connections@[i].connection_id
                == connection_id && self.connections@[i].identity is Some && self.has_object(
                self.connections@[i].identity->0,
            )
    }

    /// The connection at `i` is the only one with its id.
    pub proof fn lemma_connection_index(&self, connection_id: u64, i: int)
        requires
            unique_connections(self.connections@),
            0 <= i < self.connections@.len(),
            self.connections@[i].connection_id == connection_id,
        ensures
            forall|k: int|
                0 <= k < self.connections@.len() && #[trigger] self.connections@[k].connection_id
                    == connection_id ==> k == i,
    {
        assert forall|k: int|
            0 <= k < self.connections@.len() && #[trigger] self.connections@[k].connection_id
                == connection_id implies k == i by {
            if k < i {
                assert(self.connections@[k].connection_id != self.connections@[i].connection_id);
            } else if k > i {
                assert(self.connections@[i].connection_id != self.connections@[k].connection_id);
            }
        }
    }

    /// The connection with id `connection_id` is ready.
    pub open spec fn is_ready(&self, connection_id: u64) -> bool {
        exists|i: int|
            0 <= i < self.connections@.len() && #[trigger] self.connections@[i].connection_id
                == connection_id && self.connections@[i].is_ready
    }

    /// Only connection `connection_id`, if any, changed, and its readiness is
    /// now `ready`.
    pub open spec fn readiness_set(&self, before: &NetworkServer, connection_id: u64, ready: bool) -> bool {
        &&& self.connections@.len() == before.connections@.len()
        &&& forall|i: int|
            0 <= i < before.connections@.len() ==> if #[trigger] before.connections@[i].connection_id
                == connection_id {
                with_ready(self.connections@[i], before.connections@[i], ready)
            } else {
                self.connections@[i] == before.connections@[i]
            }
    }

    /// Tells a ready connection that spawning begins and ends; nothing for
    /// a connection that is not ready.
    pub fn spawn_observers_for_connection(&self, connection_id: u64, out: &mut Vec<ServerAction>)
        requires
            self.wf(),
        ensures
            views(final(out)@) == views(old(out)@) + if self.is_ready(connection_id) {
                spawn_observer_actions(connection_id)
            } else {
                Seq::empty()
            },
    {
        let ready = match self.find_connection(connection_id) {
            Some(i) => self.connections[i].is_ready,
            None => false,
        };
        if !ready {
            assert(views(out@) =~= views(old(out)@) + Seq::<ActionView>::empty());
            return;
        }
        let mut started = crate::message_types::ObjectSpawnStartedMessage;
        send_message(out, connection_id, &mut started, TransportChannel::Reliable);
        let mut finished = crate::message_types::ObjectSpawnFinishedMessage::new();
        send_message(out, connection_id, &mut finished, TransportChannel::Reliable);
        assert(views(out@) =~= views(old(out)@) + spawn_observer_actions(connection_id));
    }

    /// Marks a connection ready; when its player object exists, it is told
    /// that spawning begins and ends.
    pub fn set_client_ready(&mut self, connection_id: u64, out: &mut Vec<ServerAction>)
        requires
            old(self).wf(),
        ensures
            final(self).wf(),
            final(self).readiness_set(old(self), connection_id, true),
            final(self).objects@ == old(self).objects@,
            final(self).spawned@ == old(self).spawned@,
            final(self).same_settings(old(self)),
            views(final(out)@) == views(old(out)@) + if old(self).has_live_player(connection_id) {
                spawn_observer_actions(connection_id)
            } else {
                Seq::empty()
            },
    {
        let ci = match self.find_connection(connection_id) {
            Some(i) => i,
            None => {
                assert(views(out@) =~= views(old(out)@) + Seq::<ActionView>::empty());
                return;
            },
        };
        let ghost before = *self;
        self.connections[ci].is_ready = true;
        proof {
            lemma_same_ids_unique(before.connections@, self.connections@);
            before.lemma_connection_index(connection_id, ci as int);
        }
        let exists_player = match self.connections[ci].identity {
            Some(object_id) => self.find_object(object_id).is_some(),
            None => false,
        };
        assert(exists_player == old(self).has_live_player(connection_id));
        if exists_player {
            assert(self.connections@[ci as int].connection_id == connection_id
                && self.connections@[ci as int].is_ready);
            assert(self.is_ready(connection_id));
            self.spawn_observers_for_connection(connection_id, out);
        } else {
            assert(views(out@) =~= views(old(out)@) + Seq::<ActionView>::empty());
        }
    }

    /// Marks a connection not ready: it stops observing every object, which
    /// forgets it as an observer, and it is told so.
    pub fn set_client_not_ready(&mut self, connection_id: u64, out: &mut Vec<ServerAction>)
        requires
            old(self).wf(),
        ensures
            final(self).wf(),
            final(self).spawned@ == old(self).spawned@,
            final(self).same_settings(old(self)),
            final(self).connections@.len() == old(self).connections@.len(),
            final(self).objects@.len() == old(self).objects@.len(),
            !old(self).has_connection(connection_id) ==> {
                &&& final(self).connections@ == old(self).connections@
                &&& final(self).objects@ == old(self).objects@
                &&& views(final(out)@) == views(old(out)@)
            },
            forall|i: int|
                0 <= i < old(self).connections@.len() && #[trigger] old(self).connections@[i].connection_id
                    == connection_id ==> {
                    let c = old(self).connections@[i];
                    &&& !final(self).connections@[i].is_ready
                    &&& final(self).connections@[i].observing@ == Seq::<u64>::empty()
                    &&& final(self).connections@[i].connection_id == c.connection_id
                    &&& final(self).connections@[i].address@ == c.address@
                    &&& final(self).connections@[i].is_authenticated == c.is_authenticated
                    &&& final(self).connections@[i].identity == c.identity
                    &&& final(self).connections@[i].owned@ == c.owned@
                    &&& forall|k: int|
                        0 <= k < old(self).connections@.len() && k != i ==> final(self).connections@[k]
                            == old(self).connections@[k]
                    &&& forall|k: int|
                        0 <= k < old(self).objects@.len() ==> {
                            let o = old(self).objects@[k];
                            let n = #[trigger] final(self).objects@[k];
                            &&& n.keeps_core(&o)
                            &&& n.behaviours@ == o.behaviours@
                            &&& n.had_authority == o.had_authority
                            &&& n.observers@ == if c.observing@.contains(o.object_id) {
                                without(o.observers@, connection_id)
                            } else {
                                o.observers@
                            }
                        }
                    &&& views(final(out)@) == views(old(out)@) + send_view(
                        connection_id,
                        TransportChannel::Reliable,
                        message_bytes::<crate::message_types::NotReadyMessage>(()),
                    )
                },
    {
        let ci = match self.find_connection(connection_id) {
            Some(i) => i,
            None => {
                return;
            },
        };
        proof {
            old(self).lemma_connection_index(connection_id, ci as int);
        }
        self.connections[ci].is_ready = false;
        let ghost c = old(self).connections@[ci as int];
        let n = self.connections[ci].observing.len();
        let mut j: usize = 0;
        while j < n
            invariant
                0 <= ci < self.connections@.len(),
                self.connections@.len() == old(self).connections@.len(),
                self.connections@[ci as int].observing@ == c.observing@,
                n == c.observing@.len(),
                j <= n,
                self.spawned@ == old(self).spawned@,
                self.same_settings(old(self)),
                forall|k: int|
                    0 <= k < old(self).connections@.len() && k != ci ==> self.connections@[k]
                        == old(self).connections@[k],
                with_ready(self.connections@[ci as int], c, false),
                unique_connections(self.connections@),
                unique_objects(old(self).objects@),
                self.objects@.len() == old(self).objects@.len(),
                forall|k: int|
                    0 <= k < old(self).objects@.len() ==> {
                        let o = old(self).objects@[k];
                        let n = #[trigger] self.objects@[k];
                        &&& n.keeps_core(&o)
                        &&& n.behaviours@ == o.behaviours@
                        &&& n.had_authority == o.had_authority
                        &&& n.wf() == o.wf()
                        &&& n.observers@ == if c.observing@.subrange(0, j as int).contains(
                            o.object_id,
                        ) {
                            without(o.observers@, connection_id)
                        } else {
                            o.observers@
                        }
                    },
            decreases n - j,
        {
            let object_id = self.connections[ci].observing[j];
            let ghost prev = self.objects@;
            match self.find_object(object_id) {
                Some(k) => {
                    if contains_u64(&self.objects[k].observers, connection_id) {
                        self.objects[k].remove_observer(connection_id);
                    } else {
                        proof {
                            crate::network_connection::lemma_without_absent(
                                self.objects@[k as int].observers@,
                                connection_id,
                            );
                        }
                    }
                },
                None => {},
            }
            proof {
                let pre = c.observing@.subrange(0, j as int);
                let post = c.observing@.subrange(0, j as int + 1);
                assert(post =~= pre.push(object_id));
                assert forall|k: int| 0 <= k < old(self).objects@.len() implies {
                    let o = old(self).objects@[k];
                    let n = #[trigger] self.objects@[k];
                    n.observers@ == if post.contains(o.object_id) {
                        without(o.observers@, connection_id)
                    } else {
                        o.observers@
                    }
                } by {
                    let o = old(self).objects@[k];
                    let p = prev[k];
                    crate::network_connection::lemma_without(o.observers@, connection_id);
                    assert(post.contains(o.object_id) == (pre.contains(o.object_id) || o.object_id
                        == object_id)) by {
                        if post.contains(o.object_id) && !pre.contains(o.object_id) {
                            let w = choose|w: int| 0 <= w < post.len() && post[w] == o.object_id;
                            if w < pre.len() {
                                assert(pre[w] == o.object_id);
                            }
                        }
                        if o.object_id == object_id {
                            assert(post[j as int] == object_id);
                        }
                        if pre.contains(o.object_id) {
                            let w = choose|w: int| 0 <= w < pre.len() && pre[w] == o.object_id;
                            assert(post[w] == o.object_id);
                        }
                    }
                    if o.object_id == object_id && !pre.contains(o.object_id) {
                        if !p.observers@.contains(connection_id) {
                            crate::network_connection::lemma_without_absent(
                                o.observers@,
                                connection_id,
                            );
                        }
                    }
                    if pre.contains(o.object_id) {
                        crate::network_connection::lemma_without_absent(
                            without(o.observers@, connection_id),
                            connection_id,
                        );
                    }
                }
            }
            j = j + 1;
        }
        proof {
            assert(c.observing@.subrange(0, n as int) =~= c.observing@);
        }
        self.connections[ci].observing = Vec::new();
        proof {
            lemma_same_ids_unique(old(self).connections@, self.connections@);
            assert forall|a: int, b: int|
                0 <= a < b < self.objects@.len() implies #[trigger] self.objects@[a].object_id
                != #[trigger] self.objects@[b].object_id by {
                assert(old(self).objects@[a].object_id != old(self).objects@[b].object_id);
            }
            assert forall|k: int| 0 <= k < self.objects@.len() implies #[trigger] self.objects@[k].wf() by {
                assert(old(self).objects@[k].wf());
            }
        }
        let mut message = crate::message_types::NotReadyMessage;
        send_message(out, connection_id, &mut message, TransportChannel::Reliable);
    }

    /// Marks every connection not ready, in order (see
    /// `set_client_not_ready`).
    pub fn set_all_clients_not_ready(&mut self, out: &mut Vec<ServerAction>)
        requires
            old(self).wf(),
        ensures
            final(self).wf(),
            final(self).spawned@ == old(self).spawned@,
            final(self).same_settings(old(self)),
            final(self).connections@.len() == old(self).connections@.len(),
            forall|i: int|
                0 <= i < old(self).connections@.len() ==> {
                    let c = old(self).connections@[i];
                    let n = #[trigger] final(self).connections@[i];
                    &&& !n.is_ready
                    &&& n.observing@ == Seq::<u64>::empty()
                    &&& n.connection_id == c.connection_id
                    &&& n.address@ == c.address@
                    &&& n.is_authenticated == c.is_authenticated
                    &&& n.identity == c.identity
                    &&& n.owned@ == c.owned@
                },
            final(self).objects@.len() == old(self).objects@.len(),
            forall|k: int|
                0 <= k < old(self).objects@.len() ==> {
                    let o = old(self).objects@[k];
                    let n = #[trigger] final(self).objects@[k];
                    &&& n.keeps_core(&o)
                    &&& n.behaviours@ == o.behaviours@
                    &&& n.had_authority == o.had_authority
                    &&& n.observers@ == observers_after_unready(
                        o.observers@,
                        old(self).connections@,
                        o.object_id,
                    )
                },
            views(final(out)@) == views(old(out)@) + not_ready_sends(old(self).connections@),
    {
        let n = self.connections.len();
        let mut i: usize = 0;
        while i < n
            invariant
                n == old(self).connections@.len(),
                i <= n,
                self.wf(),
                self.spawned@ == old(self).spawned@,
                self.same_settings(old(self)),
                self.connections@.len() == n,
                forall|k: int|
                    0 <= k < i ==> {
                        let c = old(self).connections@[k];
                        let m = #[trigger] self.connections@[k];
                        &&& !m.is_ready
                        &&& m.observing@ == Seq::<u64>::empty()
                        &&& m.connection_id == c.connection_id
                        &&& m.address@ == c.address@
                        &&& m.is_authenticated == c.is_authenticated
                        &&& m.identity == c.identity
                        &&& m.owned@ == c.owned@
                    },
                forall|k: int| i <= k < n ==> self.connections@[k] == old(self).connections@[k],
                self.objects@.len() == old(self).objects@.len(),
                forall|k: int|
                    0 <= k < old(self).objects@.len() ==> {
                        let o = old(self).objects@[k];
                        let m = #[trigger] self.objects@[k];
                        &&& m.keeps_core(&o)
                        &&& m.behaviours@ == o.behaviours@
                        &&& m.had_authority == o.had_authority
                        &&& m.observers@ == observers_after_unready(
                            o.observers@,
                            old(self).connections@.subrange(0, i as int),
                            o.object_id,
                        )
                    },
                views(out@) == views(old(out)@) + not_ready_sends(
                    old(self).connections@.subrange(0, i as int),
                ),
            decreases n - i,
        {
            let ghost before = *self;
            let ghost before_out = out@;
            let connection_id = self.connections[i].connection_id;
            proof {
                before.lemma_connection_index(connection_id, i as int);
            }
            self.set_client_not_ready(connection_id, out);
            proof {
                let pre = old(self).connections@.subrange(0, i as int);
                let post = old(self).connections@.subrange(0, i as int + 1);
                assert(post.drop_last() =~= pre);
                assert(post.last() == old(self).connections@[i as int]);
                assert(before.connections@[i as int] == old(self).connections@[i as int]);
                assert(views(out@) =~= views(old(out)@) + not_ready_sends(post));
                assert forall|k: int| 0 <= k < old(self).objects@.len() implies {
                    let o = old(self).objects@[k];
                    let m = #[trigger] self.objects@[k];
                    &&& m.keeps_core(&o)
                    &&& m.behaviours@ == o.behaviours@
                    &&& m.had_authority == o.had_authority
                    &&& m.observers@ == observers_after_unready(
                        o.observers@,
                        post,
                        o.object_id,
                    )
                } by {
                    let b = before.objects@[k];
                    assert(b == before.objects@[k]);
                }
            }
            i = i + 1;
        }
        proof {
            assert(old(self).connections@.subrange(0, n as int) =~= old(self).connections@);
        }
    }

    /// The first object with net id `net_id` is unique as such.
    proof fn lemma_spawned_at_unique(&self, net_id: u32, k: int)
        requires
            self.spawned_at(net_id, k),
        ensures
            forall|j: int| #[trigger] self.spawned_at(net_id, j) ==> j == k,
    {
        assert forall|j: int| #[trigger] self.spawned_at(net_id, j) implies j == k by {
            if j < k {
                assert(self.objects@[j].net_id != net_id);
            } else if j > k {
                assert(self.objects@[k].net_id != net_id);
            }
        }
    }

    /// Handles a command from connection `connection_id` (see
    /// `command_actions`).
    pub fn on_client_command_message(
        &self,
        connection_id: u64,
        message: &crate::message_types::CommandMessage,
        channel: TransportChannel,
        out: &mut Vec<ServerAction>,
    )
        requires
            self.wf(),
        ensures
            views(final(out)@) == views(old(out)@) + self.command_actions(connection_id, message@),
    {
        let ready = match self.find_connection(connection_id) {
            Some(ci) => self.connections[ci].is_ready,
            None => false,
        };
        proof {
            if ready {
                let ci = choose|ci: int|
                    0 <= ci < self.connections@.len() && self.connections@[ci].connection_id
                        == connection_id && self.connections@[ci].is_ready;
                assert(self.is_ready(connection_id));
            } else {
                if self.is_ready(connection_id) {
                    let ci = choose|ci: int|
                        0 <= ci < self.connections@.len() && #[trigger] self.connections@[ci].connection_id
                            == connection_id && self.connections@[ci].is_ready;
                    self.lemma_connection_index(connection_id, ci);
                }
            }
        }
        if !ready {
            assert(views(out@) =~= views(old(out)@) + Seq::<ActionView>::empty());
            return;
        }
        let k = match self.find_spawned(message.net_id) {
            Some(k) => k,
            None => {
                assert(views(out@) =~= views(old(out)@) + Seq::<ActionView>::empty());
                return;
            },
        };
        proof {
            self.lemma_spawned_at_unique(message.net_id, k as int);
        }
        let object = &self.objects[k];
        assert(object.wf());
        let requires_authority = self.calls.command_requires_authority(message.function_hash);
        let is_owner = object.connection == Some(connection_id);
        if requires_authority && !is_owner {
            assert(views(out@) =~= views(old(out)@) + Seq::<ActionView>::empty());
            return;
        }
        match object.handle_remote_call(
            &self.calls,
            message.component_index,
            message.function_hash,
            crate::remote_calls::RemoteCallType::Command,
        ) {
            crate::network_identity::RemoteCallOutcome::Invoke(delegate) => {
                emit(
                    out,
                    ServerAction::InvokeCommand {
                        delegate,
                        object_id: object.object_id,
                        component_index: message.component_index,
                        connection_id,
                        payload: copy_bytes(&message.payload),
                    },
                );
                assert(views(out@) =~= views(old(out)@) + self.command_actions(
                    connection_id,
                    message@,
                ));
            },
            _ => {
                assert(views(out@) =~= views(old(out)@) + Seq::<ActionView>::empty());
            },
        }
    }

    /// Closes connection `connection_id`: it is no longer ready, and the
    /// transport is told to close it.
    pub fn disconnect_connection(&mut self, connection_id: u64, out: &mut Vec<ServerAction>)
        requires
            old(self).wf(),
        ensures
            final(self).wf(),
            final(self).readiness_set(old(self), connection_id, false),
            final(self).objects@ == old(self).objects@,
            final(self).spawned@ == old(self).spawned@,
            final(self).same_settings(old(self)),
            views(final(out)@) == views(old(out)@) + if old(self).has_connection(connection_id) {
                seq![ActionView::Disconnect { connection_id }]
            } else {
                Seq::empty()
            },
    {
        match self.find_connection(connection_id) {
            Some(ci) => {
                let ghost before = *self;
                self.connections[ci].disconnect();
                proof {
                    lemma_same_ids_unique(before.connections@, self.connections@);
                    before.lemma_connection_index(connection_id, ci as int);
                }
                emit(out, ServerAction::Disconnect { connection_id });
                assert(views(out@) =~= views(old(out)@) + seq![ActionView::Disconnect { connection_id }]);
            },
            None => {
                assert(views(out@) =~= views(old(out)@) + Seq::<ActionView>::empty());
            },
        }
    }

    /// Handles the state that a client sent for an object: only its owner
    /// may send it, and it is read without effect on the server.
    pub fn on_client_entity_state_message(
        &mut self,
        connection_id: u64,
        message: &crate::message_types::EntityStateMessage,
        channel: TransportChannel,
        out: &mut Vec<ServerAction>,
    )
        requires
            old(self).wf(),
        ensures
            *final(self) == *old(self),
            views(final(out)@) == views(old(out)@),
    {
        let k = match self.find_spawned(message.net_id) {
            Some(k) => k,
            None => {
                return;
            },
        };
        if self.objects[k].connection != Some(connection_id) {
            return;
        }
        let mut reader = crate::network_reader::NetworkReader::new(copy_bytes(&message.payload));
        if !self.objects[k].deserialize_server(&mut reader) {
            if self.exceptions_disconnect {
                self.disconnect_connection(connection_id, out);
            }
        }
    }

    /// Runs handler `h` on the message body that `reader` holds.
    pub fn invoke_handler(
        &mut self,
        h: MessageHandler,
        connection_id: u64,
        reader: &mut crate::network_reader::NetworkReader,
        channel: TransportChannel,
        out: &mut Vec<ServerAction>,
    )
        requires
            old(self).wf(),
            old(reader).wf(),
        ensures
            final(self).wf(),
            final(self).handled(
                old(self),
                h,
                connection_id,
                old(reader).rest(),
                channel,
                views(final(out)@),
                views(old(out)@),
            ),
    {
        let authenticated = match self.find_connection(connection_id) {
            Some(ci) => self.connections[ci].is_authenticated,
            None => false,
        };
        proof {
            if authenticated {
                let ci = choose|ci: int|
                    0 <= ci < self.connections@.len() && self.connections@[ci].connection_id
                        == connection_id && self.connections@[ci].is_authenticated;
                assert(self.is_authenticated(connection_id));
            } else if self.is_authenticated(connection_id) {
                let ci = choose|ci: int|
                    0 <= ci < self.connections@.len() && #[trigger] self.connections@[ci].connection_id
                        == connection_id && self.connections@[ci].is_authenticated;
                self.lemma_connection_index(connection_id, ci);
            }
        }
        if h.require_authentication && !authenticated {
            self.disconnect_connection(connection_id, out);
            return;
        }
        match h.kind {
            HandlerKind::Ready => {
                let _message = crate::message_types::ReadyMessage::deserialize(reader);
                self.set_client_ready(connection_id, out);
            },
            HandlerKind::Command => {
                let message = crate::message_types::CommandMessage::deserialize(reader);
                self.on_client_command_message(connection_id, &message, channel, out);
            },
            HandlerKind::EntityState => {
                let message = crate::message_types::EntityStateMessage::deserialize(reader);
                self.on_client_entity_state_message(connection_id, &message, channel, out);
            },
            HandlerKind::TimeSnapshot => {
                let _message = crate::message_types::TimeSnapshotMessage::deserialize(reader);
                emit(out, ServerAction::TimeSnapshot { connection_id });
            },
            HandlerKind::Ping => {
                emit(out, ServerAction::Ping { connection_id, body: reader.to_vec() });
            },
            HandlerKind::Pong => {
                emit(out, ServerAction::Pong { connection_id, body: reader.to_vec() });
            },
            HandlerKind::Custom(handler) => {
                emit(out, ServerAction::Deliver { handler, connection_id, channel, body: reader.to_vec() });
            },
        }
    }

    /// Reads a message id and runs its handler on the rest; says whether a
    /// handler was found. The id zero is invalid.
    pub fn unpack_and_invoke(
        &mut self,
        connection_id: u64,
        reader: &mut crate::network_reader::NetworkReader,
        channel: TransportChannel,
        out: &mut Vec<ServerAction>,
    ) -> (r: bool)
        requires
            old(self).wf(),
            old(reader).wf(),
        ensures
            final(self).wf(),
            ({
                let (id, n) = read_fixed::<u16>(old(reader).rest());
                &&& r == (id != 0 && old(self).handlers().contains_key(id))
                &&& !r ==> *final(self) == *old(self) && views(final(out)@) == views(old(out)@)
                &&& r ==> final(self).handled(
                    old(self),
                    old(self).handlers()[id],
                    connection_id,
                    skip(old(reader).rest(), n),
                    channel,
                    views(final(out)@),
                    views(old(out)@).push(ActionView::MessageReceived { connection_id }),
                )
            }),
    {
        let ghost rest = reader.rest();
        match crate::message::unpack_id(reader) {
            None => false,
            Some(message_type) => {
                assert(reader.rest() =~= skip(rest, read_fixed::<u16>(rest).1));
                match self.message_handlers.get(&message_type) {
                    None => false,
                    Some(h) => {
                        let h = *h;
                        emit(out, ServerAction::MessageReceived { connection_id });
                        self.invoke_handler(h, connection_id, reader, channel, out);
                        true
                    },
                }
            },
        }
    }

    /// Handles one message from connection `connection_id` (see
    /// `message_handled`).
    pub fn on_transport_message(
        &mut self,
        connection_id: u64,
        message: &Vec<u8>,
        channel: TransportChannel,
        out: &mut Vec<ServerAction>,
    )
        requires
            old(self).wf(),
        ensures
            final(self).wf(),
            final(self).message_handled(
                old(self),
                connection_id,
                message@,
                channel,
                views(final(out)@),
                views(old(out)@),
            ),
    {
        reveal(NetworkServer::message_handled);
        let mut reader = crate::network_reader::NetworkReader::new(copy_bytes(message));
        if reader.remaining() < crate::message::ID_SIZE {
            if self.exceptions_disconnect {
                self.disconnect_connection(connection_id, out);
            }
            return;
        }
        assert(reader.rest() =~= message@);
        if !self.unpack_and_invoke(connection_id, &mut reader, channel, out) {
            if self.exceptions_disconnect {
                self.disconnect_connection(connection_id, out);
            }
        }
    }

    /// Handles the bytes `data` that connection `connection_id` sent: the
    /// batch is split into its messages (see `batching::unbatch`), which are
    /// handled as `on_transport_batch` says. Returns the bit pattern of the
    /// batch's send time; none for a batch too short to carry one.
    #[verifier::spinoff_prover]
    pub fn on_transport_data(
        &mut self,
        connection_id: u64,
        data: &[u8],
        channel: TransportChannel,
        out: &mut Vec<ServerAction>,
    ) -> (r: Option<u64>)
        requires
            old(self).wf(),
        ensures
            final(self).wf(),
            r == if data@.len() >= crate::batching::TIMESTAMP_SIZE {
                Some(crate::le_bytes::le_value(data@.subrange(0, 8)) as u64)
            } else {
                None::<u64>
            },
            !old(self).has_connection(connection_id) ==> *final(self) == *old(self) && views(
                final(out)@,
            ) == views(old(out)@),
            old(self).has_connection(connection_id) ==> (exists|
                messages: Seq<Vec<u8>>,
                mid: NetworkServer,
                mid_out: Seq<ActionView>,
                states: Seq<NetworkServer>,
                outs: Seq<Seq<ActionView>>,
            |
                crate::batching::byte_views(messages) == crate::batching::batch_messages(data@)
                    && #[trigger] final(self).data_trace(
                    old(self),
                    connection_id,
                    crate::batching::carries_time(data@),
                    messages,
                    channel,
                    views(final(out)@),
                    views(old(out)@),
                    mid,
                    mid_out,
                    states,
                    outs,
                )),
    {
        let (ok, time_bits, messages) = crate::batching::unbatch(data);
        self.on_transport_batch(connection_id, ok, &messages, channel, out);
        proof {
            if !ok {
                assert(crate::batching::byte_views(messages@) =~= Seq::<Seq<u8>>::empty());
            }
            assert(crate::batching::byte_views(messages@) == crate::batching::batch_messages(data@));
            if old(self).has_connection(connection_id) {
                let (mid, mid_out, states, outs) = choose|
                    mid: NetworkServer,
                    mid_out: Seq<ActionView>,
                    states: Seq<NetworkServer>,
                    outs: Seq<Seq<ActionView>>,
                | #[trigger] self.data_trace(
                    old(self),
                    connection_id,
                    ok,
                    messages@,
                    channel,
                    views(out@),
                    views(old(out)@),
                    mid,
                    mid_out,
                    states,
                    outs,
                );
                assert(ok == crate::batching::carries_time(data@));
                assert(self.data_trace(
                    old(self),
                    connection_id,
                    crate::batching::carries_time(data@),
                    messages@,
                    channel,
                    views(out@),
                    views(old(out)@),
                    mid,
                    mid_out,
                    states,
                    outs,
                ));
            }
        }
        if ok {
            Some(time_bits)
        } else {
            None
        }
    }

    /// Handles a batch of messages from connection `connection_id`, split
    /// into `messages`; `batch_ok` says whether the batch was well formed.
    /// Nothing happens for an unknown connection. A malformed batch closes
    /// the connection when the server disconnects on such errors, and stops
    /// there otherwise; while a scene loads the messages are dropped; else
    /// each message is handled in turn (see `message_handled`).
    #[verifier::spinoff_prover]
    pub fn on_transport_batch(
        &mut self,
        connection_id: u64,
        batch_ok: bool,
        messages: &Vec<Vec<u8>>,
        channel: TransportChannel,
        out: &mut Vec<ServerAction>,
    )
        requires
            old(self).wf(),
        ensures
            final(self).wf(),
            !old(self).has_connection(connection_id) ==> *final(self) == *old(self) && views(
                final(out)@,
            ) == views(old(out)@),
            old(self).has_connection(connection_id) ==> (exists|
                mid: NetworkServer,
                mid_out: Seq<ActionView>,
                states: Seq<NetworkServer>,
                outs: Seq<Seq<ActionView>>,
            |
                #[trigger] final(self).data_trace(
                    old(self),
                    connection_id,
                    batch_ok,
                    messages@,
                    channel,
                    views(final(out)@),
                    views(old(out)@),
                    mid,
                    mid_out,
                    states,
                    outs,
                )),
    {
        if !self.connection_contains_key(connection_id) {
            return;
        }
        if !batch_ok && self.exceptions_disconnect {
            self.disconnect_connection(connection_id, out);
        }
        let ghost mid = *self;
        let ghost mid_out = views(out@);
        let ghost mut states: Seq<NetworkServer> = seq![*self];
        let ghost mut outs: Seq<Seq<ActionView>> = seq![views(out@)];
        let stop = (!batch_ok && !self.exceptions_disconnect) || self.is_loading_scene;
        if !stop {
            let n = messages.len();
            let mut i: usize = 0;
            while i < n
                invariant
                    n == messages@.len(),
                    i <= n,
                    self.wf(),
                    messages_handled(
                        states,
                        outs,
                        connection_id,
                        messages@.subrange(0, i as int),
                        channel,
                    ),
                    states.last() == *self,
                    outs.last() == views(out@),
                    states[0] == mid,
                    outs[0] == mid_out,
                decreases n - i,
            {
                self.on_transport_message(connection_id, &messages[i], channel, out);
                proof {
                    let old_states = states;
                    let old_outs = outs;
                    states = states.push(*self);
                    outs = outs.push(views(out@));
                    assert forall|k: int| 0 <= k < i + 1 implies #[trigger] states[k + 1].message_handled(
                        &states[k],
                        connection_id,
                        messages@.subrange(0, i + 1)[k]@,
                        channel,
                        outs[k + 1],
                        outs[k],
                    ) by {
                        if k < i {
                            assert(old_states[k + 1].message_handled(
                                &old_states[k],
                                connection_id,
                                messages@.subrange(0, i as int)[k]@,
                                channel,
                                old_outs[k + 1],
                                old_outs[k],
                            ));
                            assert(messages@.subrange(0, i as int)[k] == messages@.subrange(
                                0,
                                i + 1,
                            )[k]);
                        }
                    }
                }
                i = i + 1;
            }
            assert(messages@.subrange(0, n as int) =~= messages@);
        }
        proof {
            assert(if !batch_ok && old(self).exceptions_disconnect {
                mid.disconnect_effect(old(self), connection_id, mid_out, views(old(out)@))
            } else {
                mid == *old(self) && mid_out == views(old(out)@)
            });
            assert(self.data_trace(
                old(self),
                connection_id,
                batch_ok,
                messages@,
                channel,
                views(out@),
                views(old(out)@),
                mid,
                mid_out,
                states,
                outs,
            ));
        }
    }

    /// Makes every ready connection an observer of the object at `idx`,
    /// in order; each one newly added starts observing the object.
    pub fn add_all_ready_server_connections_to_observers(&mut self, idx: usize)
        requires
            old(self).wf(),
            idx < old(self).objects@.len(),
        ensures
            final(self).wf(),
            final(self).spawned@ == old(self).spawned@,
            final(self).same_settings(old(self)),
            final(self).objects@.len() == old(self).objects@.len(),
            forall|k: int|
                0 <= k < old(self).objects@.len() && k != idx ==> final(self).objects@[k]
                    == old(self).objects@[k],
            ({
                let o = old(self).objects@[idx as int];
                let n = final(self).objects@[idx as int];
                &&& n.keeps_core(&o)
                &&& n.had_authority == o.had_authority
                &&& n.observers@ == ready_observers(o.observers@, old(self).connections@)
                &&& n.behaviours@ == if o.observers@.len() == 0 && ready_observers(
                    o.observers@,
                    old(self).connections@,
                ).len() > 0 {
                    Seq::new(o.behaviours@.len(), |i: int| crate::network_identity::cleared(o.behaviours@[i]))
                } else {
                    o.behaviours@
                }
            }),
            final(self).connections@.len() == old(self).connections@.len(),
            forall|k: int|
                0 <= k < old(self).connections@.len() ==> {
                    let c = old(self).connections@[k];
                    let m = #[trigger] final(self).connections@[k];
                    &&& same_connection(m, c)
                    &&& m.owned@ == c.owned@
                    &&& m.observing@ == if c.is_ready && !old(self).objects@[idx as int].observers@.contains(
                        c.connection_id,
                    ) {
                        add_if_absent(c.observing@, old(self).objects@[idx as int].object_id)
                    } else {
                        c.observing@
                    }
                },
    {
        let ghost o = self.objects@[idx as int];
        let object_id = self.objects[idx].object_id;
        let n = self.connections.len();
        let mut i: usize = 0;
        while i < n
            invariant
                n == old(self).connections@.len(),
                i <= n,
                idx < self.objects@.len(),
                o == old(self).objects@[idx as int],
                object_id == o.object_id,
                self.spawned@ == old(self).spawned@,
                self.same_settings(old(self)),
                self.objects@.len() == old(self).objects@.len(),
                forall|k: int|
                    0 <= k < old(self).objects@.len() && k != idx ==> self.objects@[k]
                        == old(self).objects@[k],
                unique_objects(old(self).objects@),
                unique_connections(old(self).connections@),
                forall|k: int| 0 <= k < old(self).objects@.len() ==> #[trigger] old(self).objects@[k].wf(),
                ({
                    let m = self.objects@[idx as int];
                    let obs = ready_observers(o.observers@, old(self).connections@.subrange(0, i as int));
                    &&& m.keeps_core(&o)
                    &&& m.had_authority == o.had_authority
                    &&& m.wf() == o.wf()
                    &&& m.observers@ == obs
                    &&& m.behaviours@ == if o.observers@.len() == 0 && obs.len() > 0 {
                        Seq::new(o.behaviours@.len(), |j: int| crate::network_identity::cleared(o.behaviours@[j]))
                    } else {
                        o.behaviours@
                    }
                }),
                self.connections@.len() == n,
                forall|k: int| i <= k < n ==> self.connections@[k] == old(self).connections@[k],
                forall|k: int|
                    0 <= k < i ==> {
                        let c = old(self).connections@[k];
                        let m = #[trigger] self.connections@[k];
                        &&& same_connection(m, c)
                        &&& m.owned@ == c.owned@
                        &&& m.observing@ == if c.is_ready && !o.observers@.contains(c.connection_id) {
                            add_if_absent(c.observing@, object_id)
                        } else {
                            c.observing@
                        }
                    },
            decreases n - i,
        {
            let ghost pre = old(self).connections@.subrange(0, i as int);
            let ghost post = old(self).connections@.subrange(0, i as int + 1);
            let ghost c = old(self).connections@[i as int];
            let ghost before = self.objects@[idx as int];
            proof {
                lemma_ready_observers_len(o.observers@, pre);
                assert(post.drop_last() =~= pre);
                assert(post.last() == c);
                lemma_ready_observers_contains(o.observers@, pre, c.connection_id);
                assert(!(exists|k: int|
                    0 <= k < pre.len() && #[trigger] pre[k].connection_id == c.connection_id
                        && pre[k].is_ready)) by {
                    if exists|k: int|
                        0 <= k < pre.len() && #[trigger] pre[k].connection_id == c.connection_id
                            && pre[k].is_ready {
                        let k = choose|k: int|
                            0 <= k < pre.len() && #[trigger] pre[k].connection_id == c.connection_id
                                && pre[k].is_ready;
                        assert(old(self).connections@[k].connection_id != old(self).connections@[i as int].connection_id);
                    }
                }
            }
            if self.connections[i].is_ready {
                let cid = self.connections[i].connection_id;
                let added = self.objects[idx].add_observer(cid);
                if added {
                    self.connections[i].add_to_observing(object_id);
                }
                proof {
                    let m = self.objects@[idx as int];
                    let obs = ready_observers(o.observers@, post);
                    assert(m.observers@ == obs);
                    assert(m.behaviours@ =~= if o.observers@.len() == 0 && obs.len() > 0 {
                        Seq::new(o.behaviours@.len(), |j: int| crate::network_identity::cleared(o.behaviours@[j]))
                    } else {
                        o.behaviours@
                    });
                }
            }
            i = i + 1;
        }
        proof {
            assert(old(self).connections@.subrange(0, n as int) =~= old(self).connections@);
            lemma_same_ids_unique(old(self).connections@, self.connections@);
            self.lemma_objects_wf_after_update(*old(self), idx as int);
        }
    }

    /// Makes connection `connection` (or none) the owner of the object at
    /// `idx`. The new owner, if it is a live connection, lists the object
    /// last among its owned objects; every other connection, the previous
    /// owner among them, no longer lists it.
    #[verifier::spinoff_prover]
    pub fn set_connection_of(&mut self, idx: usize, connection: Option<u64>)
        requires
            old(self).wf(),
            idx < old(self).objects@.len(),
        ensures
            final(self).wf(),
            final(self).spawned@ == old(self).spawned@,
            final(self).same_settings(old(self)),
            final(self).objects@.len() == old(self).objects@.len(),
            forall|k: int|
                0 <= k < old(self).objects@.len() && k != idx ==> final(self).objects@[k]
                    == old(self).objects@[k],
            ({
                let o = old(self).objects@[idx as int];
                let n = final(self).objects@[idx as int];
                &&& n.connection == connection
                &&& n.keeps_core_but_owner(&o)
            }),
            final(self).connections@.len() == old(self).connections@.len(),
            forall|k: int|
                0 <= k < old(self).connections@.len() ==> {
                    let c = old(self).connections@[k];
                    let m = #[trigger] final(self).connections@[k];
                    &&& same_connection(m, c)
                    &&& m.observing@ == c.observing@
                    &&& m.owned@ == owned_after(c, old(self).objects@[idx as int].object_id, connection)
                },
    {
        let object_id = self.objects[idx].object_id;
        self.take_ownership(object_id, connection);
        let ghost mid = *self;
        self.objects[idx].set_connection(connection);
        proof {
            self.lemma_objects_wf_after_update(mid, idx as int);
            let cs = self.connections@;
            let os = self.objects@;
            assert forall|i: int, k: int|
                0 <= i < cs.len() && 0 <= k < os.len() && #[trigger] cs[i].owned@.contains(#[trigger] os[k].object_id)
                    implies os[k].connection == Some(cs[i].connection_id) by {
                let c = old(self).connections@[i];
                assert(cs[i].owned@ == owned_after(c, object_id, connection));
                crate::network_connection::lemma_without(c.owned@, object_id);
                if k != idx {
                    assert(os[k] == old(self).objects@[k]);
                    assert(os[k].object_id != object_id) by {
                        if k < idx {
                            assert(old(self).objects@[k].object_id != old(self).objects@[idx as int].object_id);
                        } else {
                            assert(old(self).objects@[idx as int].object_id != old(self).objects@[k].object_id);
                        }
                    }
                    assert(without(c.owned@, object_id).contains(os[k].object_id));
                    assert(c.owned@.contains(old(self).objects@[k].object_id));
                } else {
                    if connection != Some(c.connection_id) {
                        assert(!without(c.owned@, object_id).contains(object_id));
                    }
                }
            }
        }
    }

    /// Object `object_id` passes to connection `connection`: every other
    /// connection forgets it among its owned objects, and `connection`, if
    /// it is live, lists it last among them.
    fn take_ownership(&mut self, object_id: u64, connection: Option<u64>)
        requires
            old(self).wf(),
        ensures
            unique_connections(final(self).connections@),
            final(self).objects@ == old(self).objects@,
            final(self).spawned@ == old(self).spawned@,
            final(self).same_settings(old(self)),
            final(self).connections@.len() == old(self).connections@.len(),
            forall|k: int|
                0 <= k < old(self).connections@.len() ==> {
                    let c = old(self).connections@[k];
                    let m = #[trigger] final(self).connections@[k];
                    &&& same_connection(m, c)
                    &&& m.observing@ == c.observing@
                    &&& m.owned@ == owned_after(c, object_id, connection)
                },
    {
        let n = self.connections.len();
        let mut i: usize = 0;
        while i < n
            invariant
                n == old(self).connections@.len(),
                i <= n,
                self.connections@.len() == n,
                self.objects@ == old(self).objects@,
                self.spawned@ == old(self).spawned@,
                self.same_settings(old(self)),
                unique_objects(self.objects@),
                self.spawned@.no_duplicates(),
                forall|k: int| 0 <= k < self.objects@.len() ==> #[trigger] self.objects@[k].wf(),
                forall|k: int|
                    0 <= k < n ==> {
                        let c = old(self).connections@[k];
                        let m = #[trigger] self.connections@[k];
                        &&& same_connection(m, c)
                        &&& m.observing@ == c.observing@
                        &&& m.owned@ == if k < i {
                            owned_after(c, object_id, connection)
                        } else {
                            c.owned@
                        }
                    },
            decreases n - i,
        {
            let is_new_owner = match connection {
                Some(c) => self.connections[i].connection_id == c,
                None => false,
            };
            let ghost before = self.connections@;
            self.connections[i].remove_owned_object(object_id);
            if is_new_owner {
                self.connections[i].add_owned_object(object_id);
            }
            proof {
                crate::network_connection::lemma_without(old(self).connections@[i as int].owned@, object_id);
                assert forall|k: int| 0 <= k < n implies {
                    let c = old(self).connections@[k];
                    let m = #[trigger] self.connections@[k];
                    &&& same_connection(m, c)
                    &&& m.observing@ == c.observing@
                    &&& m.owned@ == if k < i + 1 {
                        owned_after(c, object_id, connection)
                    } else {
                        c.owned@
                    }
                } by {
                    if k != i {
                        assert(self.connections@[k] == before[k]);
                    }
                }
            }
            i = i + 1;
        }
        proof {
            lemma_same_ids_unique(old(self).connections@, self.connections@);
        }
    }

    /// Numbers the object at `idx` and starts serving it, unless it is
    /// served or numbered already.
    fn assign_net_id(&mut self, idx: usize, out: &mut Vec<ServerAction>)
        requires
            old(self).wf(),
            idx < old(self).objects@.len(),
            old(self).next_network_id < u32::MAX,
        ensures
            final(self).wf(),
            final(self).connections@ == old(self).connections@,
            final(self).objects@.len() == old(self).objects@.len(),
            forall|k: int|
                0 <= k < old(self).objects@.len() && k != idx ==> final(self).objects@[k]
                    == old(self).objects@[k],
            ({
                let o = old(self).objects@[idx as int];
                let n = final(self).objects@[idx as int];
                let assigned = !o.is_server && o.net_id == 0;
                &&& n.connection == o.connection
                &&& n.object_id == o.object_id
                &&& n.scene_id == o.scene_id
                &&& n.visibility == o.visibility
                &&& n.observers@ == o.observers@
                &&& n.behaviours@ == o.behaviours@
                &&& n.net_id == if assigned {
                    old(self).next_network_id
                } else {
                    o.net_id
                }
                &&& n.is_server == (o.is_server || assigned)
                &&& final(self).next_network_id == old(self).next_network_id + if assigned {
                    1int
                } else {
                    0int
                }
                &&& final(self).spawned@ == if assigned {
                    add_if_absent(old(self).spawned@, old(self).next_network_id)
                } else {
                    old(self).spawned@
                }
                &&& views(final(out)@) == views(old(out)@) + if assigned {
                    seq![ActionView::StartServer { object_id: o.object_id }]
                } else {
                    Seq::empty()
                }
            }),
            final(self).initialized == old(self).initialized,
            final(self).listen == old(self).listen,
            final(self).max_connections == old(self).max_connections,
            final(self).tick_rate == old(self).tick_rate,
            final(self).active == old(self).active,
            final(self).is_loading_scene == old(self).is_loading_scene,
            final(self).exceptions_disconnect == old(self).exceptions_disconnect,
            final(self).disconnect_inactive_connections == old(self).disconnect_inactive_connections,
            final(self).has_disconnected_handler == old(self).has_disconnected_handler,
            final(self).handlers() == old(self).handlers(),
            final(self).calls@ == old(self).calls@,
    {
        if !self.objects[idx].is_server && self.objects[idx].net_id == 0 {
            let object_id = self.objects[idx].object_id;
            self.objects[idx].is_server = true;
            let net_id = self.get_next_network_id();
            self.objects[idx].set_net_id(net_id);
            if !crate::network_connection::contains_u32(&self.spawned, net_id) {
                self.spawned.push(net_id);
                proof {
                    assert forall|a: int, b: int|
                        0 <= a < self.spawned@.len() && 0 <= b < self.spawned@.len() && a != b implies self.spawned@[a]
                        != self.spawned@[b] by {
                        if a == old(self).spawned@.len() {
                            assert(old(self).spawned@[b] != net_id);
                        } else if b == old(self).spawned@.len() {
                            assert(old(self).spawned@[a] != net_id);
                        }
                    }
                }
            }
            proof {
                self.lemma_objects_wf_after_update(*old(self), idx as int);
            }
            emit(out, ServerAction::StartServer { object_id });
            assert(views(out@) =~= views(old(out)@) + seq![ActionView::StartServer { object_id }]);
        } else {
            assert(views(out@) =~= views(old(out)@) + Seq::<ActionView>::empty());
        }
    }

    /// `self` and `new_out` follow from `before` and `old_out` by the spawn of
    /// object `object_id` for connection `connection_id` (see
    /// `spawn_object`).
    pub open spec fn spawn_effect(
        &self,
        before: &NetworkServer,
        object_id: u64,
        connection_id: u64,
        new_out: Seq<ActionView>,
        old_out: Seq<ActionView>,
    ) -> bool {
        &&& self.wf()
        &&& self.objects@.len() == before.objects@.len()
        &&& self.connections@.len() == before.connections@.len()
        &&& !before.active || (forall|k: int|
            0 <= k < before.objects@.len() ==> #[trigger] before.objects@[k].object_id
                != object_id) ==> *self == *before && new_out == old_out
        &&& forall|i: int|
            0 <= i < before.objects@.len() && before.active
                && #[trigger] before.objects@[i].object_id == object_id ==> {
                let o = before.objects@[i];
                let n = self.objects@[i];
                let assigned = !o.is_server && o.net_id == 0;
                let shown = o.visibility == crate::network_identity::Visibility::ForceShown;
                if before.spawned@.contains(o.net_id) {
                    *self == *before && new_out == old_out
                } else {
                    &&& forall|k: int|
                        0 <= k < before.objects@.len() && k != i ==> self.objects@[k]
                            == before.objects@[k]
                    &&& n.connection == Some(connection_id)
                    &&& n.object_id == o.object_id
                    &&& n.scene_id == o.scene_id
                    &&& n.visibility == o.visibility
                    &&& n.net_id == if assigned {
                        before.next_network_id
                    } else {
                        o.net_id
                    }
                    &&& n.is_server == (o.is_server || assigned)
                    &&& self.next_network_id == before.next_network_id + if assigned {
                        1int
                    } else {
                        0int
                    }
                    &&& self.spawned@ == if assigned {
                        add_if_absent(before.spawned@, before.next_network_id)
                    } else {
                        before.spawned@
                    }
                    &&& n.observers@ == if shown {
                        ready_observers(o.observers@, before.connections@)
                    } else {
                        o.observers@
                    }
                    &&& forall|k: int|
                        0 <= k < before.connections@.len() ==> {
                            let c = before.connections@[k];
                            let m = #[trigger] self.connections@[k];
                            &&& same_connection(m, c)
                            &&& m.owned@ == owned_after(c, object_id, Some(connection_id))
                            &&& m.observing@ == if shown && c.is_ready && !o.observers@.contains(
                                c.connection_id,
                            ) {
                                add_if_absent(c.observing@, object_id)
                            } else {
                                c.observing@
                            }
                        }
                    &&& new_out == old_out + seq![
                        ActionView::SetActive { object_id, active: true },
                    ] + if assigned {
                        seq![ActionView::StartServer { object_id }]
                    } else {
                        Seq::empty()
                    }
                }
            }
    }

    /// Spawns object `object_id` for connection `connection_id`: unless the
    /// server is inactive, the object is unknown or its net id is spawned
    /// already, the connection becomes its owner and it is activated; an
    /// object that is neither served nor numbered gets the next net id, joins
    /// the spawned set and starts its server hooks; an object shown to all
    /// then gets every ready connection as observer.
    #[verifier::spinoff_prover]
    #[verifier::rlimit(40)]
    pub fn spawn_object(&mut self, object_id: u64, connection_id: u64, out: &mut Vec<ServerAction>)
        requires
            old(self).wf(),
            old(self).next_network_id < u32::MAX,
        ensures
            final(self).spawn_effect(old(self), object_id, connection_id, views(final(out)@), views(old(out)@)),
            extends(views(final(out)@), views(old(out)@)),
            final(self).wf(),
            final(self).objects@.len() == old(self).objects@.len(),
            final(self).next_network_id <= old(self).next_network_id + 1,
            final(self).active == old(self).active,
            final(self).is_loading_scene == old(self).is_loading_scene,
            final(self).initialized == old(self).initialized,
            final(self).listen == old(self).listen,
    {
        assert(views(old(out)@).subrange(0, views(old(out)@).len() as int) =~= views(old(out)@));
        if !self.active {
            return;
        }
        let idx = match self.find_object(object_id) {
            Some(i) => i,
            None => {
                return;
            },
        };
        proof {
            assert forall|i: int|
                0 <= i < old(self).objects@.len() && #[trigger] old(self).objects@[i].object_id
                    == object_id implies i == idx by {
                if i < idx {
                    assert(old(self).objects@[i].object_id != old(self).objects@[idx as int].object_id);
                } else if i > idx {
                    assert(old(self).objects@[idx as int].object_id != old(self).objects@[i].object_id);
                }
            }
        }
        if crate::network_connection::contains_u32(&self.spawned, self.objects[idx].net_id) {
            return;
        }
        self.set_connection_of(idx, Some(connection_id));
        let ghost after_owner = *self;
        emit(out, ServerAction::SetActive { object_id, active: true });
        self.assign_net_id(idx, out);
        let ghost before_observers = *self;
        proof {
            assert forall|k: int| 0 <= k < old(self).connections@.len() implies #[trigger] same_id_ready(
                old(self).connections@[k],
                before_observers.connections@[k],
            ) by {
                assert(same_connection(before_observers.connections@[k], old(self).connections@[k]));
            }
            lemma_ready_observers_same(
                old(self).objects@[idx as int].observers@,
                old(self).connections@,
                before_observers.connections@,
            );
        }
        if self.objects[idx].visibility == crate::network_identity::Visibility::ForceShown {
            self.add_all_ready_server_connections_to_observers(idx);
        }
        proof {
            let o = old(self).objects@[idx as int];
            let n = self.objects@[idx as int];
            let shown = o.visibility == crate::network_identity::Visibility::ForceShown;
            assert(n.connection == Some(connection_id));
            assert(n.object_id == o.object_id);
            assert(n.scene_id == o.scene_id);
            assert(n.visibility == o.visibility);
            assert(n.observers@ == if shown {
                ready_observers(o.observers@, old(self).connections@)
            } else {
                o.observers@
            });
            assert forall|k: int| 0 <= k < old(self).connections@.len() implies {
                let c = old(self).connections@[k];
                let m = #[trigger] self.connections@[k];
                &&& same_connection(m, c)
                &&& m.owned@ == owned_after(c, object_id, Some(connection_id))
                &&& m.observing@ == if shown && c.is_ready && !o.observers@.contains(
                    c.connection_id,
                ) {
                    add_if_absent(c.observing@, object_id)
                } else {
                    c.observing@
                }
            } by {
                assert(after_owner.connections@[k] == before_observers.connections@[k]);
            }
            let x = seq![ActionView::SetActive { object_id, active: true }] + if !old(
                self,
            ).objects@[idx as int].is_server && old(self).objects@[idx as int].net_id == 0 {
                seq![ActionView::StartServer { object_id }]
            } else {
                Seq::empty()
            };
            assert(views(out@) =~= views(old(out)@) + x);
            assert(views(out@) =~= views(old(out)@) + seq![
                ActionView::SetActive { object_id, active: true },
            ] + if !old(self).objects@[idx as int].is_server && old(self).objects@[idx as int].net_id == 0 {
                seq![ActionView::StartServer { object_id }]
            } else {
                Seq::empty()
            });
            lemma_extends_append(views(out@), views(old(out)@), views(old(out)@), x);
        }
    }

    /// The object at `k` is the only one with its id.
    proof fn lemma_object_index(&self, object_id: u64, k: int)
        requires
            unique_objects(self.objects@),
            self.object_at(object_id, k),
        ensures
            forall|j: int| #[trigger] self.object_at(object_id, j) ==> j == k,
    {
        assert forall|j: int| #[trigger] self.object_at(object_id, j) implies j == k by {
            if j < k {
                assert(self.objects@[j].object_id != self.objects@[k].object_id);
            } else if j > k {
                assert(self.objects@[k].object_id != self.objects@[j].object_id);
            }
        }
    }

    /// Tells connection `connection_id` who owns object `object_id` (see
    /// `change_owner_actions`).
    pub fn send_change_owner_message(&self, object_id: u64, connection_id: u64, out: &mut Vec<ServerAction>)
        requires
            self.wf(),
        ensures
            views(final(out)@) == views(old(out)@) + self.change_owner_actions(object_id, connection_id),
    {
        let k = match self.find_object(object_id) {
            Some(k) => k,
            None => {
                assert(views(out@) =~= views(old(out)@) + Seq::<ActionView>::empty());
                return;
            },
        };
        proof {
            self.lemma_object_index(object_id, k as int);
        }
        let net_id = self.objects[k].net_id;
        if net_id == 0 || self.objects[k].server_only {
            proof {
                if exists|i: int| self.connection_at(connection_id, i) {
                    let i = choose|i: int| self.connection_at(connection_id, i);
                    self.lemma_connection_index(connection_id, i);
                }
            }
            assert(views(out@) =~= views(old(out)@) + self.change_owner_actions(object_id, connection_id));
            return;
        }
        let ci = match self.find_connection(connection_id) {
            Some(ci) => ci,
            None => {
                assert(!(exists|i: int| self.connection_at(connection_id, i)));
                assert(views(out@) =~= views(old(out)@) + Seq::<ActionView>::empty());
                return;
            },
        };
        proof {
            self.lemma_connection_index(connection_id, ci as int);
            assert(self.connection_at(connection_id, ci as int));
            assert(forall|i: int| #[trigger] self.connection_at(connection_id, i) ==> i == ci);
        }
        if contains_u64(&self.connections[ci].observing, object_id) {
            assert(views(out@) =~= views(old(out)@) + Seq::<ActionView>::empty());
            return;
        }
        let is_owner = self.objects[k].connection == Some(connection_id);
        let is_local = self.connections[ci].identity == Some(object_id) && is_owner;
        let mut message = crate::message_types::ChangeOwnerMessage::new(net_id, is_owner, is_local);
        send_message(out, connection_id, &mut message, TransportChannel::Reliable);
    }

    /// Tells connection `connection_id` to hide the object with net id
    /// `net_id`.
    pub fn hide_for_connection(&self, net_id: u32, connection_id: u64, out: &mut Vec<ServerAction>)
        ensures
            views(final(out)@) == views(old(out)@) + send_view(
                connection_id,
                TransportChannel::Reliable,
                message_bytes::<crate::message_types::ObjectHideMessage>(net_id),
            ),
    {
        let mut message = crate::message_types::ObjectHideMessage::new(net_id);
        send_message(out, connection_id, &mut message, TransportChannel::Reliable);
    }

    /// `self` and `new_out` follow from `before` and `old_out` when the owner of
    /// object `object_id` loses its authority (see `remove_client_authority`).
    pub open spec fn authority_removed(
        &self,
        before: &NetworkServer,
        object_id: u64,
        new_out: Seq<ActionView>,
        old_out: Seq<ActionView>,
    ) -> bool {
        &&& self.wf()
        &&& self.spawned@ == before.spawned@
        &&& self.same_settings(before)
        &&& self.objects@.len() == before.objects@.len()
        &&& forall|k: int| #[trigger] before.object_at(object_id, k) ==> {
            let o = before.objects@[k];
            let applies = o.is_server && o.connection is Some && (exists|i: int|
                before.connection_at(o.connection->0, i) && before.connections@[i].identity
                    != Some(object_id));
            if applies {
                &&& forgot_owned(self.connections@, before.connections@, object_id)
                &&& self.objects@[k].connection is None
                &&& self.objects@[k].net_id == o.net_id
                &&& self.objects@[k].object_id == o.object_id
                &&& self.objects@[k].observers@ == o.observers@
                &&& self.objects@[k].behaviours@ == o.behaviours@
                &&& self.objects@[k].is_server == o.is_server
                &&& self.objects@[k].server_only == o.server_only
                &&& forall|j: int|
                    0 <= j < before.objects@.len() && j != k ==> self.objects@[j]
                        == before.objects@[j]
                &&& new_out == old_out.push(
                    ActionView::AuthorityChanged {
                        connection_id: o.connection->0,
                        object_id,
                        has_authority: false,
                    },
                ) + self.change_owner_actions(object_id, o.connection->0)
            } else {
                *self == *before && new_out == old_out
            }
        }
        &&& (forall|k: int| !#[trigger] before.object_at(object_id, k)) ==> *self == *before && new_out == old_out
    }

    /// The owner of object `object_id` loses its authority over it: only for
    /// a served object whose owner is a live connection and not one whose
    /// player it is. The application is told, the object has no owner any
    /// more, and the former owner is told who owns the object.
    #[verifier::spinoff_prover]
    #[verifier::rlimit(40)]
    pub fn remove_client_authority(&mut self, object_id: u64, out: &mut Vec<ServerAction>)
        requires
            old(self).wf(),
        ensures
            final(self).authority_removed(old(self), object_id, views(final(out)@), views(old(out)@)),
    {
        let k = match self.find_object(object_id) {
            Some(k) => k,
            None => {
                return;
            },
        };
        proof {
            self.lemma_object_index(object_id, k as int);
            assert(old(self).object_at(object_id, k as int));
        }
        if !self.objects[k].is_server {
            return;
        }
        let owner = match self.objects[k].connection {
            Some(c) => c,
            None => {
                return;
            },
        };
        let ci = match self.find_connection(owner) {
            Some(ci) => ci,
            None => {
                assert(forall|i: int| !self.connection_at(owner, i));
                return;
            },
        };
        proof {
            self.lemma_connection_index(owner, ci as int);
            assert(forall|i: int| #[trigger] self.connection_at(owner, i) ==> i == ci);
        }
        if self.connections[ci].identity == Some(object_id) {
            return;
        }
        assert(self.connection_at(owner, ci as int));
        emit(out, ServerAction::AuthorityChanged { connection_id: owner, object_id, has_authority: false });
        self.set_connection_of(k, None);
        self.send_change_owner_message(object_id, owner, out);
    }

    /// `self` and `new_out` follow from `before` and `old_out` by the destruction
    /// of object `object_id` (see `destroy`).
    #[verifier::opaque]
    pub open spec fn destroy_effect(
        &self,
        before: &NetworkServer,
        object_id: u64,
        new_out: Seq<ActionView>,
        old_out: Seq<ActionView>,
    ) -> bool {
        &&& self.wf()
        &&& self.same_settings(before)
        &&& !before.active || (forall|k: int| !#[trigger] before.object_at(object_id, k))
            ==> *self == *before && new_out == old_out
        &&& forall|i: int|
            before.active && #[trigger] before.object_at(object_id, i) ==> {
                let o = before.objects@[i];
                let scene = o.scene_id != 0;
                &&& self.spawned@ == without(before.spawned@, o.net_id)
                &&& self.connections@.len() == before.connections@.len()
                &&& forall|k: int|
                    0 <= k < before.connections@.len() ==> #[trigger] forgot_object(
                        self.connections@[k],
                        before.connections@[k],
                        object_id,
                        o.connection,
                        o.observers@,
                    )
                &&& if scene {
                    &&& self.objects@.len() == before.objects@.len()
                    &&& unspawned_object(self.objects@[i], o, true)
                    &&& forall|k: int|
                        0 <= k < before.objects@.len() && k != i ==> self.objects@[k]
                            == before.objects@[k]
                    &&& new_out == old_out + unspawn_actions(
                        before.connections@,
                        o,
                        true,
                    )
                } else {
                    &&& self.objects@ == before.objects@.remove(i)
                    &&& new_out == old_out + unspawn_actions(
                        before.connections@,
                        o,
                        false,
                    ).push(ActionView::DestroyObject { object_id })
                }
            }
    }

    /// Destroys object `object_id` on the network: a scene object is
    /// unspawned and reset; another one is unspawned and then removed from
    /// the world. Nothing happens when the server is inactive or the object
    /// is unknown.
    pub fn destroy(&mut self, object_id: u64, out: &mut Vec<ServerAction>)
        requires
            old(self).wf(),
        ensures
            final(self).destroy_effect(old(self), object_id, views(final(out)@), views(old(out)@)),
            final(self).wf(),
            final(self).same_settings(old(self)),
            final(self).connections@.len() == old(self).connections@.len(),
            extends(views(final(out)@), views(old(out)@)),
    {
        reveal(NetworkServer::destroy_effect);
        assert(views(old(out)@).subrange(0, views(old(out)@).len() as int) =~= views(old(out)@));
        if !self.active {
            return;
        }
        let k = match self.find_object(object_id) {
            Some(k) => k,
            None => {
                return;
            },
        };
        proof {
            self.lemma_object_index(object_id, k as int);
            assert(old(self).object_at(object_id, k as int));
        }
        assert(views(old(out)@).subrange(0, views(old(out)@).len() as int) =~= views(old(out)@));
        if self.objects[k].scene_id != 0 {
            self.un_spawn_internal(object_id, true, out);
            proof {
                lemma_extends_append(views(out@), views(old(out)@), views(old(out)@), unspawn_actions(old(self).connections@, old(self).objects@[k as int], true));
            }
        } else {
            self.un_spawn_internal(object_id, false, out);
            let ghost mid = *self;
            emit(out, ServerAction::DestroyObject { object_id });
            proof {
                lemma_extends_append(views(out@), views(old(out)@), views(old(out)@), unspawn_actions(old(self).connections@, old(self).objects@[k as int], false).push(ActionView::DestroyObject { object_id }));
            }
            self.objects.remove(k);
            proof {
                assert(self.objects@ =~= old(self).objects@.remove(k as int)) by {
                    assert forall|j: int| 0 <= j < self.objects@.len() implies self.objects@[j]
                        == old(self).objects@.remove(k as int)[j] by {
                        if j < k {
                            assert(mid.objects@[j] == old(self).objects@[j]);
                        } else {
                            assert(mid.objects@[j + 1] == old(self).objects@[j + 1]);
                        }
                    }
                }
                assert forall|a: int, b: int|
                    0 <= a < b < self.objects@.len() implies #[trigger] self.objects@[a].object_id
                    != #[trigger] self.objects@[b].object_id by {
                    let a1 = if a < k { a } else { a + 1 };
                    let b1 = if b < k { b } else { b + 1 };
                    assert(old(self).objects@[a1].object_id != old(self).objects@[b1].object_id);
                }
                assert forall|j: int| 0 <= j < self.objects@.len() implies #[trigger] self.objects@[j].wf() by {
                    let j1 = if j < k { j } else { j + 1 };
                    assert(old(self).objects@[j1].wf());
                }
            }
        }
    }

    /// The initial state of the object at `k` for its owner (`is_owner`) or
    /// its observers (see `spawn_payload`).
    pub fn create_spawn_message_payload(&mut self, is_owner: bool, k: usize) -> (r: Vec<u8>)
        requires
            old(self).wf(),
            k < old(self).objects@.len(),
        ensures
            final(self).wf(),
            final(self).serialized_only(old(self)),
            r@ == spawn_payload(old(self).objects@[k as int].behaviours@, is_owner),
    {
        if self.objects[k].behaviours.len() == 0 {
            return Vec::new();
        }
        let mut owner_writer = NetworkWriter::new();
        let mut observers_writer = NetworkWriter::new();
        assert(self.objects@[k as int].wf());
        self.objects[k].serialize_server(true, &mut owner_writer, &mut observers_writer);
        proof {
            let bs = old(self).objects@[k as int].behaviours@;
            assert(crate::network_identity::after_serialization(bs, true) =~= bs);
            self.lemma_objects_wf_after_update(*old(self), k as int);
        }
        if is_owner {
            owner_writer.to_vec()
        } else {
            observers_writer.to_vec()
        }
    }

    /// Sends the spawn message of the object at `k` to connection
    /// `connection_id` (see `spawn_message_actions`).
    pub fn send_spawn_message(&mut self, k: usize, connection_id: u64, out: &mut Vec<ServerAction>)
        requires
            old(self).wf(),
            k < old(self).objects@.len(),
        ensures
            final(self).wf(),
            final(self).serialized_only(old(self)),
            views(final(out)@) == views(old(out)@) + old(self).spawn_message_actions(k as int, connection_id),
    {
        if self.objects[k].server_only {
            assert(views(out@) =~= views(old(out)@) + Seq::<ActionView>::empty());
            return;
        }
        let object_id = self.objects[k].object_id;
        let is_owner = self.objects[k].connection == Some(connection_id);
        let is_local = match self.find_connection(connection_id) {
            Some(ci) => {
                proof {
                    assert(self.connection_at(connection_id, ci as int));
                    self.lemma_connection_index(connection_id, ci as int);
                    assert(forall|i: int| #[trigger] self.connection_at(connection_id, i) ==> i == ci);
                }
                self.connections[ci].identity == Some(object_id)
            },
            None => {
                assert(forall|i: int| !self.connection_at(connection_id, i));
                false
            },
        };
        let net_id = self.objects[k].net_id;
        let scene_id = self.objects[k].scene_id;
        let asset_id = self.objects[k].asset_id;
        let payload = self.create_spawn_message_payload(is_owner, k);
        emit(
            out,
            ServerAction::SendSpawn {
                connection_id,
                object_id,
                net_id,
                is_local_player: is_local,
                is_owner,
                scene_id,
                asset_id,
                payload,
            },
        );
        assert(views(out@) =~= views(old(out)@) + old(self).spawn_message_actions(k as int, connection_id));
    }

    /// Spawns object `object_id` again for its owner (see `respawn_effect`).
    pub fn respawn(&mut self, object_id: u64, out: &mut Vec<ServerAction>)
        requires
            old(self).wf(),
            old(self).next_network_id < u32::MAX,
        ensures
            final(self).respawn_effect(old(self), object_id, views(final(out)@), views(old(out)@)),
    {
        let k = match self.find_object(object_id) {
            Some(k) => k,
            None => {
                return;
            },
        };
        proof {
            self.lemma_object_index(object_id, k as int);
            assert(self.object_at(object_id, k as int));
        }
        let owner = match self.objects[k].connection {
            Some(c) => c,
            None => {
                return;
            },
        };
        if !self.connection_contains_key(owner) {
            return;
        }
        if self.objects[k].net_id == 0 {
            self.spawn_object(object_id, owner, out);
        } else {
            self.send_spawn_message(k, owner, out);
        }
    }

    /// Makes object `object_id` the player of connection `connection_id`
    /// and the connection its owner.
    #[verifier::spinoff_prover]
    #[verifier::rlimit(40)]
    fn set_player(&mut self, ci: usize, k: usize)
        requires
            old(self).wf(),
            ci < old(self).connections@.len(),
            k < old(self).objects@.len(),
        ensures
            final(self).player_set(
                old(self),
                old(self).connections@[ci as int].connection_id,
                old(self).objects@[k as int].object_id,
            ),
    {
        let object_id = self.objects[k].object_id;
        let connection_id = self.connections[ci].connection_id;
        proof {
            old(self).lemma_connection_index(connection_id, ci as int);
            old(self).lemma_object_index(object_id, k as int);
            assert(forall|i: int| 0 <= i < old(self).connections@.len() && #[trigger] old(self).connections@[i].connection_id == connection_id ==> i == ci);
            assert(forall|j: int| 0 <= j < old(self).objects@.len() && #[trigger] old(self).objects@[j].object_id == object_id ==> j == k) by {
                assert forall|j: int| 0 <= j < old(self).objects@.len() && #[trigger] old(self).objects@[j].object_id == object_id implies j == k by {
                    assert(old(self).object_at(object_id, j));
                }
            }
        }
        self.set_connection_of(k, Some(connection_id));
        let ghost mid = *self;
        self.connections[ci].identity = Some(object_id);
        proof {
            lemma_same_ids_unique(mid.connections@, self.connections@);
            assert forall|i: int, j: int|
                0 <= i < self.connections@.len() && 0 <= j < self.objects@.len()
                    && #[trigger] self.connections@[i].owned@.contains(#[trigger] self.objects@[j].object_id)
                    implies self.objects@[j].connection == Some(self.connections@[i].connection_id) by {
                assert(mid.connections@[i].owned@ == self.connections@[i].owned@);
            }
        }
    }

    /// Makes object `object_id` the player of connection `connection_id`:
    /// the connection owns it, becomes ready, and the object is respawned.
    /// False, with no change, when either is unknown.
    pub fn add_player_for_connection(&mut self, connection_id: u64, object_id: u64, out: &mut Vec<ServerAction>) -> (r: bool)
        requires
            old(self).wf(),
            old(self).next_network_id < u32::MAX,
        ensures
            r == (old(self).has_object(object_id) && old(self).has_connection(connection_id)),
            final(self).wf(),
            !r ==> *final(self) == *old(self) && views(final(out)@) == views(old(out)@),
            r ==> (exists|s1: NetworkServer, s2: NetworkServer, o2: Seq<ActionView>|
                #[trigger] final(self).player_added_trace(
                    old(self),
                    connection_id,
                    object_id,
                    s1,
                    s2,
                    o2,
                    views(final(out)@),
                    views(old(out)@),
                )),
    {
        let k = match self.find_object(object_id) {
            Some(k) => k,
            None => {
                return false;
            },
        };
        let ci = match self.find_connection(connection_id) {
            Some(ci) => ci,
            None => {
                return false;
            },
        };
        self.set_player(ci, k);
        let ghost s1 = *self;
        self.set_client_ready(connection_id, out);
        let ghost s2 = *self;
        let ghost o2 = views(out@);
        self.respawn(object_id, out);
        assert(self.player_added_trace(
            old(self),
            connection_id,
            object_id,
            s1,
            s2,
            o2,
            views(out@),
            views(old(out)@),
        ));
        true
    }

    /// Replaces the player of connection `connection_id` by object
    /// `object_id` (see `player_replaced_trace`). False, with no change, when
    /// either is unknown, when the connection owns the object already, or
    /// when the connection has no player that exists.
    #[verifier::spinoff_prover]
    #[verifier::rlimit(40)]
    pub fn replace_player_for_connection(
        &mut self,
        connection_id: u64,
        object_id: u64,
        options: ReplacePlayerOptions,
        out: &mut Vec<ServerAction>,
    ) -> (r: bool)
        requires
            old(self).wf(),
            old(self).next_network_id < u32::MAX,
        ensures
            r == (old(self).has_object(object_id) && old(self).has_connection(connection_id)
                && (forall|k: int| #[trigger] old(self).object_at(object_id, k) ==> old(self).objects@[k].connection != Some(connection_id))
                && old(self).has_live_player(connection_id)),
            !r ==> *final(self) == *old(self) && views(final(out)@) == views(old(out)@),
            r ==> (exists|
                previous: u64,
                s1: NetworkServer,
                o1: Seq<ActionView>,
                s2: NetworkServer,
                o2: Seq<ActionView>,
            |
                #[trigger] final(self).player_replaced_trace(
                    old(self),
                    connection_id,
                    object_id,
                    previous,
                    options,
                    s1,
                    o1,
                    s2,
                    o2,
                    views(final(out)@),
                    views(old(out)@),
                ) && (exists|i: int| old(self).connection_at(connection_id, i)
                    && old(self).connections@[i].identity == Some(previous))),
    {
        let k = match self.find_object(object_id) {
            Some(k) => k,
            None => {
                return false;
            },
        };
        proof {
            self.lemma_object_index(object_id, k as int);
            assert(self.object_at(object_id, k as int));
        }
        let ci = match self.find_connection(connection_id) {
            Some(ci) => ci,
            None => {
                return false;
            },
        };
        proof {
            self.lemma_connection_index(connection_id, ci as int);
        }
        if self.objects[k].connection == Some(connection_id) {
            return false;
        }
        let previous = match self.connections[ci].identity {
            Some(p) => p,
            None => {
                return false;
            },
        };
        if self.find_object(previous).is_none() {
            return false;
        }
        assert(self.connection_at(connection_id, ci as int));
        self.set_player(ci, k);
        let ghost s1 = *self;
        self.spawn_observers_for_connection(connection_id, out);
        let ghost o1 = views(out@);
        self.respawn(object_id, out);
        let ghost s2 = *self;
        let ghost o2 = views(out@);
        match options {
            ReplacePlayerOptions::KeepAuthority => {
                self.send_change_owner_message(previous, connection_id, out);
            },
            ReplacePlayerOptions::KeepActive => {
                self.remove_client_authority(previous, out);
            },
            _ => {
                self.un_spawn(previous, out);
            },
        }
        assert(self.player_replaced_trace(
            old(self),
            connection_id,
            object_id,
            previous,
            options,
            s1,
            o1,
            s2,
            o2,
            views(out@),
            views(old(out)@),
        ));
        true
    }

    /// Forgets the player of the connection at `ci`.
    fn clear_player(&mut self, ci: usize)
        requires
            old(self).wf(),
            ci < old(self).connections@.len(),
        ensures
            final(self).player_cleared(old(self), old(self).connections@[ci as int].connection_id),
    {
        let connection_id = self.connections[ci].connection_id;
        proof {
            old(self).lemma_connection_index(connection_id, ci as int);
            assert(forall|i: int| 0 <= i < old(self).connections@.len() && #[trigger] old(self).connections@[i].connection_id == connection_id ==> i == ci);
        }
        self.connections[ci].identity = None;
        proof {
            lemma_same_ids_unique(old(self).connections@, self.connections@);
        }
    }

    /// The connection at `ci` gives up the object at `pk` and keeps it
    /// active; returns the server after the object lost its owner.
    #[verifier::spinoff_prover]
    #[verifier::rlimit(40)]
    fn keep_active_player(&mut self, ci: usize, pk: usize, out: &mut Vec<ServerAction>) -> (s1: Ghost<NetworkServer>)
        requires
            old(self).wf(),
            ci < old(self).connections@.len(),
            pk < old(self).objects@.len(),
        ensures
            final(self).kept_active(
                old(self),
                old(self).connections@[ci as int].connection_id,
                old(self).objects@[pk as int].object_id,
                s1@,
                views(final(out)@),
                views(old(out)@),
            ),
    {
        let connection_id = self.connections[ci].connection_id;
        let player = self.objects[pk].object_id;
        proof {
            self.lemma_connection_index(connection_id, ci as int);
            self.lemma_object_index(player, pk as int);
        }
        self.set_connection_of(pk, None);
        let ghost t = *self;
        proof {
            assert forall|k: int| 0 <= k < old(self).objects@.len() implies if old(self).objects@[k].object_id == player {
                &&& (#[trigger] t.objects@[k]).connection is None
                &&& t.objects@[k].keeps_core_but_owner(&old(self).objects@[k])
            } else {
                t.objects@[k] == old(self).objects@[k]
            } by {
                if old(self).objects@[k].object_id == player {
                    assert(old(self).object_at(player, k));
                }
            }
        }
        self.connections[ci].remove_owned_object(player);
        proof {
            lemma_same_ids_unique(t.connections@, self.connections@);
            assert(forall|i: int| 0 <= i < t.connections@.len() && #[trigger] t.connections@[i].connection_id == connection_id ==> i == ci);
            crate::network_connection::lemma_without(t.connections@[ci as int].owned@, player);
            assert forall|i: int, j: int|
                0 <= i < self.connections@.len() && 0 <= j < self.objects@.len()
                    && #[trigger] self.connections@[i].owned@.contains(#[trigger] self.objects@[j].object_id)
                    implies self.objects@[j].connection == Some(self.connections@[i].connection_id) by {
                assert(t.connections@[i].owned@.contains(t.objects@[j].object_id));
            }
        }
        self.send_change_owner_message(player, connection_id, out);
        Ghost(t)
    }

    /// Takes the player from connection `connection_id` (see
    /// `player_removed_trace`); nothing when the connection is unknown or has
    /// no player that exists.
    #[verifier::spinoff_prover]
    pub fn remove_player_for_connection(
        &mut self,
        connection_id: u64,
        options: RemovePlayerOptions,
        out: &mut Vec<ServerAction>,
    )
        requires
            old(self).wf(),
        ensures
            final(self).wf(),
            !old(self).has_live_player(connection_id) ==> *final(self) == *old(self) && views(
                final(out)@,
            ) == views(old(out)@),
            old(self).has_live_player(connection_id) ==> (exists|
                player: u64,
                s1: NetworkServer,
                s2: NetworkServer,
                o2: Seq<ActionView>,
            |
                #[trigger] final(self).player_removed_trace(
                    old(self),
                    connection_id,
                    player,
                    options,
                    s1,
                    s2,
                    o2,
                    views(final(out)@),
                    views(old(out)@),
                ) && (exists|i: int| old(self).connection_at(connection_id, i)
                    && old(self).connections@[i].identity == Some(player))),
    {
        let ci = match self.find_connection(connection_id) {
            Some(ci) => ci,
            None => {
                return;
            },
        };
        proof {
            self.lemma_connection_index(connection_id, ci as int);
            assert(self.connection_at(connection_id, ci as int));
        }
        let player = match self.connections[ci].identity {
            Some(p) => p,
            None => {
                return;
            },
        };
        let pk = match self.find_object(player) {
            Some(k) => k,
            None => {
                return;
            },
        };
        proof {
            self.lemma_object_index(player, pk as int);
        }
        let ghost mut s1 = *self;
        match options {
            RemovePlayerOptions::KeepActive => {
                let t = self.keep_active_player(ci, pk, out);
                proof {
                    s1 = t@;
                }
            },
            RemovePlayerOptions::UnSpawn => {
                self.un_spawn(player, out);
                proof {
                    if old(self).active {
                        assert(old(self).objects@[pk as int].object_id == player);
                        assert(forgot_object(
                            self.connections@[ci as int],
                            old(self).connections@[ci as int],
                            player,
                            old(self).objects@[pk as int].connection,
                            old(self).objects@[pk as int].observers@,
                        ));
                    }
                }
            },
            RemovePlayerOptions::Destroy => {
                self.destroy(player, out);
                proof {
                    reveal(NetworkServer::destroy_effect);
                    if old(self).active {
                        assert(old(self).object_at(player, pk as int));
                        assert(forgot_object(
                            self.connections@[ci as int],
                            old(self).connections@[ci as int],
                            player,
                            old(self).objects@[pk as int].connection,
                            old(self).objects@[pk as int].observers@,
                        ));
                    }
                }
            },
        }
        assert(self.connection_at(connection_id, ci as int));
        let ghost s2 = *self;
        let ghost o2 = views(out@);
        let ci2 = match self.find_connection(connection_id) {
            Some(ci2) => ci2,
            None => {
                assert(false);
                return;
            },
        };
        self.clear_player(ci2);
        assert(self.player_removed_trace(
            old(self),
            connection_id,
            player,
            options,
            s1,
            s2,
            o2,
            views(out@),
            views(old(out)@),
        ));
    }

    /// Makes connection `connection_id` an observer of the object at `idx`;
    /// when it was not one, it starts observing the object.
    pub fn add_observer(&mut self, idx: usize, connection_id: u64)
        requires
            old(self).wf(),
            idx < old(self).objects@.len(),
        ensures
            final(self).wf(),
            final(self).spawned@ == old(self).spawned@,
            final(self).same_settings(old(self)),
            final(self).objects@.len() == old(self).objects@.len(),
            forall|k: int|
                0 <= k < old(self).objects@.len() && k != idx ==> final(self).objects@[k]
                    == old(self).objects@[k],
            ({
                let o = old(self).objects@[idx as int];
                let n = final(self).objects@[idx as int];
                let added = !o.observers@.contains(connection_id);
                &&& n.keeps_core(&o)
                &&& n.had_authority == o.had_authority
                &&& n.observers@ == add_if_absent(o.observers@, connection_id)
                &&& n.behaviours@ == if added && o.observers@.len() == 0 {
                    Seq::new(o.behaviours@.len(), |i: int| crate::network_identity::cleared(o.behaviours@[i]))
                } else {
                    o.behaviours@
                }
                &&& final(self).connections@.len() == old(self).connections@.len()
                &&& forall|k: int|
                    0 <= k < old(self).connections@.len() ==> {
                        let c = old(self).connections@[k];
                        let m = #[trigger] final(self).connections@[k];
                        &&& same_connection(m, c)
                        &&& m.owned@ == c.owned@
                        &&& m.observing@ == if added && c.connection_id == connection_id {
                            add_if_absent(c.observing@, o.object_id)
                        } else {
                            c.observing@
                        }
                    }
            }),
    {
        let object_id = self.objects[idx].object_id;
        let added = self.objects[idx].add_observer(connection_id);
        proof {
            self.lemma_objects_wf_after_update(*old(self), idx as int);
            let o = old(self).objects@[idx as int];
            assert(self.objects@[idx as int].behaviours@ =~= if added && o.observers@.len() == 0 {
                Seq::new(o.behaviours@.len(), |i: int| crate::network_identity::cleared(o.behaviours@[i]))
            } else {
                o.behaviours@
            });
        }
        if added {
            match self.find_connection(connection_id) {
                Some(ci) => {
                    proof {
                        old(self).lemma_connection_index(connection_id, ci as int);
                        assert(forall|i: int| 0 <= i < old(self).connections@.len() && #[trigger] old(self).connections@[i].connection_id == connection_id ==> i == ci);
                    }
                    self.connections[ci].add_to_observing(object_id);
                    proof {
                        lemma_same_ids_unique(old(self).connections@, self.connections@);
                    }
                },
                None => {},
            }
        }
    }

    /// Rebuilds the observers of the object at `idx` when it is shown to
    /// all: on initialization every ready connection becomes an observer.
    /// Other objects keep their observers.
    pub fn rebuild_observers(&mut self, idx: usize, initialize: bool)
        requires
            old(self).wf(),
            idx < old(self).objects@.len(),
        ensures
            old(self).objects@[idx as int].visibility != crate::network_identity::Visibility::ForceShown
                || !initialize ==> *final(self) == *old(self),
            final(self).wf(),
            final(self).spawned@ == old(self).spawned@,
            final(self).same_settings(old(self)),
            final(self).objects@.len() == old(self).objects@.len(),
            forall|k: int|
                0 <= k < old(self).objects@.len() && k != idx ==> final(self).objects@[k]
                    == old(self).objects@[k],
            old(self).objects@[idx as int].visibility == crate::network_identity::Visibility::ForceShown
                && initialize ==> final(self).objects@[idx as int].observers@ == ready_observers(
                old(self).objects@[idx as int].observers@,
                old(self).connections@,
            ),
    {
        if self.objects[idx].visibility == crate::network_identity::Visibility::ForceShown {
            self.rebuild_observers_default(idx, initialize);
        }
    }

    /// On initialization, a hidden object gets its live owner as observer;
    /// another one every ready connection.
    fn rebuild_observers_default(&mut self, idx: usize, initialize: bool)
        requires
            old(self).wf(),
            idx < old(self).objects@.len(),
        ensures
            !initialize ==> *final(self) == *old(self),
            final(self).wf(),
            final(self).spawned@ == old(self).spawned@,
            final(self).same_settings(old(self)),
            final(self).objects@.len() == old(self).objects@.len(),
            forall|k: int|
                0 <= k < old(self).objects@.len() && k != idx ==> final(self).objects@[k]
                    == old(self).objects@[k],
            initialize && old(self).objects@[idx as int].visibility
                != crate::network_identity::Visibility::ForceHidden ==> final(self).objects@[idx as int].observers@
                == ready_observers(old(self).objects@[idx as int].observers@, old(self).connections@),
            initialize && old(self).objects@[idx as int].visibility
                == crate::network_identity::Visibility::ForceHidden ==> final(self).objects@[idx as int].observers@
                == if old(self).objects@[idx as int].connection is Some && old(self).has_connection(
                old(self).objects@[idx as int].connection->0,
            ) {
                add_if_absent(
                    old(self).objects@[idx as int].observers@,
                    old(self).objects@[idx as int].connection->0,
                )
            } else {
                old(self).objects@[idx as int].observers@
            },
    {
        if !initialize {
            return;
        }
        if self.objects[idx].visibility == crate::network_identity::Visibility::ForceHidden {
            match self.objects[idx].connection {
                Some(owner) => {
                    if self.connection_contains_key(owner) {
                        self.add_observer(idx, owner);
                    }
                },
                None => {},
            }
        } else {
            self.add_all_ready_server_connections_to_observers(idx);
        }
    }

    /// The serialization of object `object_id` at `tick` for connection
    /// `connection_id`: the owner's one when the connection owns the object,
    /// else the observers' one; none when the object is unknown or that
    /// serialization is empty.
    #[verifier::spinoff_prover]
    #[verifier::rlimit(40)]
    pub fn serialize_for_connection(&mut self, object_id: u64, connection_id: u64, tick: u64) -> (r: Option<Vec<u8>>)
        requires
            old(self).wf(),
        ensures
            final(self).wf(),
            final(self).connections@ == old(self).connections@,
            final(self).spawned@ == old(self).spawned@,
            final(self).same_settings(old(self)),
            final(self).objects@.len() == old(self).objects@.len(),
            (forall|k: int| !#[trigger] old(self).object_at(object_id, k)) ==> r is None && *final(self) == *old(self),
            forall|k: int| #[trigger] old(self).object_at(object_id, k) ==> {
                let o = old(self).objects@[k];
                let owned = o.connection == Some(connection_id);
                let bytes: Seq<u8> = if o.last_serialization.tick == tick {
                    if owned { o.last_serialization.owner_writer@ } else { o.last_serialization.observers_writer@ }
                } else {
                    crate::network_identity::serialization(
                        o.behaviours@,
                        crate::network_identity::dirty_mask(o.behaviours@, false, owned),
                        false,
                    )
                };
                &&& bytes.len() > 0 ==> r is Some && r->0@ == bytes
                &&& bytes.len() == 0 ==> r is None
                &&& bytes.len() <= 1024
                &&& forall|j: int| 0 <= j < old(self).objects@.len() && j != k ==> final(self).objects@[j]
                    == old(self).objects@[j]
                &&& final(self).objects@[k].object_id == o.object_id
                &&& final(self).objects@[k].net_id == o.net_id
                &&& final(self).objects@[k].connection == o.connection
                &&& final(self).objects@[k].observers@ == o.observers@
                &&& o.last_serialization.tick != tick ==> final(self).objects@[k].behaviours@
                    == crate::network_identity::after_serialization(o.behaviours@, false)
                &&& forall|owned2: bool| #[trigger] state_at_tick(final(self).objects@[k], owned2, tick)
                    == state_at_tick(o, owned2, tick)
            },
    {
        let k = match self.find_object(object_id) {
            Some(k) => k,
            None => {
                return None;
            },
        };
        proof {
            self.lemma_object_index(object_id, k as int);
            assert(self.object_at(object_id, k as int));
        }
        assert(self.objects@[k as int].wf());
        let owned = self.objects[k].connection == Some(connection_id);
        proof {
            let bs = self.objects@[k as int].behaviours@;
            crate::network_identity::lemma_serialization_len(bs, crate::network_identity::dirty_mask(bs, false, true), false);
            crate::network_identity::lemma_serialization_len(bs, crate::network_identity::dirty_mask(bs, false, false), false);
        }
        let (owner_bytes, observers_bytes) = self.objects[k].get_server_serialization_at_tick(tick);
        proof {
            self.lemma_objects_wf_after_update(*old(self), k as int);
        }
        if owned {
            if owner_bytes.len() > 0 {
                Some(owner_bytes)
            } else {
                None
            }
        } else {
            if observers_bytes.len() > 0 {
                Some(observers_bytes)
            } else {
                None
            }
        }
    }

    /// Sends connection `connection_id`, at index `ci`, the state of each
    /// object it observes that has something for it at `tick`; says whether
    /// some observed object had nothing.
    #[verifier::spinoff_prover]
    #[verifier::rlimit(60)]
    fn send_entity_states(&mut self, ci: usize, connection_id: u64, tick: u64, out: &mut Vec<ServerAction>) -> (has_null: bool)
        requires
            old(self).wf(),
            ci < old(self).connections@.len(),
            old(self).connections@[ci as int].connection_id == connection_id,
        ensures
            final(self).wf(),
            final(self).connections@ == old(self).connections@,
            final(self).spawned@ == old(self).spawned@,
            final(self).same_settings(old(self)),
            same_states_at(*final(self), *old(self), tick),
            views(final(out)@).len() >= views(old(out)@).len(),
            views(final(out)@).subrange(0, views(old(out)@).len() as int) == views(old(out)@),
            entity_state_sends_to(
                views(final(out)@).subrange(views(old(out)@).len() as int, views(final(out)@).len() as int),
                connection_id,
            ),
            views(final(out)@) == views(old(out)@) + entity_state_sends(
                *old(self),
                old(self).connections@[ci as int].observing@,
                connection_id,
                tick,
            ),
            has_null == has_empty_state(*old(self), old(self).connections@[ci as int].observing@, connection_id, tick),
    {
        let observing = crate::network_connection::copy_ids(&self.connections[ci].observing);
        let mut has_null = false;
        let n = observing.len();
        assert(observing@.subrange(0, 0) =~= Seq::<u64>::empty());
        assert(views(old(out)@).subrange(0, views(old(out)@).len() as int) =~= views(old(out)@));
        assert(views(old(out)@).subrange(views(old(out)@).len() as int, views(old(out)@).len() as int) =~= Seq::<ActionView>::empty());
        let mut j: usize = 0;
        while j < n
            invariant
                n == observing@.len(),
                j <= n,
                self.wf(),
                ci < self.connections@.len(),
                self.connections@ == old(self).connections@,
                self.spawned@ == old(self).spawned@,
                self.same_settings(old(self)),
                self.objects@.len() == old(self).objects@.len(),
                forall|k: int| 0 <= k < self.objects@.len() ==> #[trigger] self.objects@[k].object_id == old(self).objects@[k].object_id,
                views(out@).len() >= views(old(out)@).len(),
                views(out@).subrange(0, views(old(out)@).len() as int) == views(old(out)@),
                entity_state_sends_to(
                    views(out@).subrange(views(old(out)@).len() as int, views(out@).len() as int),
                    connection_id,
                ),
                observing@ == old(self).connections@[ci as int].observing@,
                same_states_at(*self, *old(self), tick),
                views(out@) == views(old(out)@) + entity_state_sends(
                    *old(self),
                    observing@.subrange(0, j as int),
                    connection_id,
                    tick,
                ),
                has_null == has_empty_state(*old(self), observing@.subrange(0, j as int), connection_id, tick),
            decreases n - j,
        {
            let object_id = observing[j];
            let ghost pre = *self;
            let ghost pre_out = views(out@);
            proof {
                let sub = observing@.subrange(0, j + 1);
                assert(sub.drop_last() =~= observing@.subrange(0, j as int));
                assert(sub.last() == object_id);
                lemma_has_empty_state_push(*old(self), sub, connection_id, tick);
                lemma_same_states_send(*self, *old(self), tick, object_id, connection_id);
            }
            match self.find_object(object_id) {
                Some(k) => {
                    proof {
                        assert(self.object_at(object_id, k as int));
                        self.lemma_object_index(object_id, k as int);
                    }
                    match self.serialize_for_connection(object_id, connection_id, tick) {
                        Some(bytes) => {
                            let net_id = self.objects[k].net_id;
                            let mut message = crate::message_types::EntityStateMessage::new(net_id, bytes);
                            let ghost before_out = views(out@);
                            send_message(out, connection_id, &mut message, TransportChannel::Reliable);
                            proof {
                                let id = <crate::message_types::EntityStateMessage as MessageSerializer>::spec_id();
                                crate::le_bytes::lemma_le_bytes_len(id as nat, 2);
                                let mb = message_bytes::<crate::message_types::EntityStateMessage>(message@);
                                assert(mb.subrange(0, 2) =~= id_bytes(id));
                                let lo = views(old(out)@).len() as int;
                                let prev = before_out.subrange(lo, before_out.len() as int);
                                let now = views(out@).subrange(lo, views(out@).len() as int);
                                if mb.len() <= 1502 {
                                    assert(now =~= prev.push(ActionView::Send { connection_id, channel: TransportChannel::Reliable, payload: mb }));
                                    assert forall|i: int| 0 <= i < now.len() implies match #[trigger] now[i] {
                                        ActionView::Send { connection_id: c, channel, payload } => c == connection_id && channel
                                            == TransportChannel::Reliable && payload.len() >= 2 && payload.subrange(0, 2) == id_bytes(id),
                                        _ => false,
                                    } by {
                                        if i < prev.len() {
                                            assert(now[i] == prev[i]);
                                        }
                                    }
                                } else {
                                    assert(now =~= prev);
                                }
                                assert(views(out@).subrange(0, lo) =~= before_out.subrange(0, lo));
                            }
                        },
                        None => {
                            has_null = true;
                        },
                    }
                    proof {
                        assert(pre.object_at(object_id, k as int));
                        let o = pre.objects@[k as int];
                        let kc = choose|kk: int| #[trigger] pre.object_at(object_id, kk);
                        assert(kc == k);
                        assert(state_for(pre, object_id, connection_id, tick) == state_at_tick(
                            o,
                            o.connection == Some(connection_id),
                            tick,
                        ));
                        assert(views(out@) == pre_out + entity_state_send(pre, object_id, connection_id, tick));
                        assert forall|kk: int| 0 <= kk < self.objects@.len() implies {
                            &&& #[trigger] self.objects@[kk].object_id == old(self).objects@[kk].object_id
                            &&& self.objects@[kk].net_id == old(self).objects@[kk].net_id
                            &&& self.objects@[kk].connection == old(self).objects@[kk].connection
                            &&& forall|owned: bool| #[trigger] state_at_tick(self.objects@[kk], owned, tick)
                                == state_at_tick(old(self).objects@[kk], owned, tick)
                        } by {
                            assert(pre.objects@[kk].object_id == old(self).objects@[kk].object_id);
                            if kk != k {
                                assert(self.objects@[kk] == pre.objects@[kk]);
                            } else {
                                assert forall|owned: bool| #[trigger] state_at_tick(self.objects@[kk], owned, tick)
                                    == state_at_tick(old(self).objects@[kk], owned, tick) by {
                                    assert(state_at_tick(self.objects@[kk], owned, tick) == state_at_tick(
                                        pre.objects@[kk],
                                        owned,
                                        tick,
                                    ));
                                }
                            }
                        }
                    }
                },
                None => {
                    proof {
                        assert(!pre.has_object(object_id));
                        assert(views(out@) =~= pre_out + entity_state_send(pre, object_id, connection_id, tick));
                    }
                },
            }
            proof {
                let sub = observing@.subrange(0, j + 1);
                assert(views(out@) =~= views(old(out)@) + entity_state_sends(*old(self), sub, connection_id, tick));
            }
            j = j + 1;
        }
        assert(observing@.subrange(0, n as int) =~= observing@);
        has_null
    }

    /// Sends connection `connection_id` the state of each object it
    /// observes that has something for it at `tick`; when some object had
    /// nothing, the connection stops observing objects that no longer exist.
    pub fn broadcast_to_connection(&mut self, connection_id: u64, tick: u64, out: &mut Vec<ServerAction>)
        requires
            old(self).wf(),
        ensures
            final(self).wf(),
            views(final(out)@).len() >= views(old(out)@).len(),
            views(final(out)@).subrange(0, views(old(out)@).len() as int) == views(old(out)@),
            entity_state_sends_to(
                views(final(out)@).subrange(views(old(out)@).len() as int, views(final(out)@).len() as int),
                connection_id,
            ),
            !old(self).has_connection(connection_id) ==> *final(self) == *old(self) && views(final(out)@)
                == views(old(out)@),
            final(self).spawned@ == old(self).spawned@,
            final(self).same_settings(old(self)),
            final(self).objects@.len() == old(self).objects@.len(),
            final(self).connections@.len() == old(self).connections@.len(),
            forall|i: int|
                0 <= i < old(self).connections@.len() ==> {
                    let c = old(self).connections@[i];
                    let m = #[trigger] final(self).connections@[i];
                    &&& same_connection(m, c)
                    &&& m.owned@ == c.owned@
                    &&& c.connection_id != connection_id ==> m.observing@ == c.observing@
                    &&& c.connection_id == connection_id ==> m.observing@ == c.observing@ || m.observing@
                        == c.observing@.filter(|o: u64| old(self).has_object(o))
                },
            same_states_at(*final(self), *old(self), tick),
            forall|i: int|
                #[trigger] old(self).connection_at(connection_id, i) ==> {
                    let c = old(self).connections@[i];
                    &&& views(final(out)@) == views(old(out)@) + entity_state_sends(
                        *old(self),
                        c.observing@,
                        connection_id,
                        tick,
                    )
                    &&& final(self).connections@[i].observing@ == if has_empty_state(
                        *old(self),
                        c.observing@,
                        connection_id,
                        tick,
                    ) {
                        c.observing@.filter(|o: u64| old(self).has_object(o))
                    } else {
                        c.observing@
                    }
                },
    {
        let ci = match self.find_connection(connection_id) {
            Some(ci) => ci,
            None => {
                return;
            },
        };
        let ghost before_sends = *self;
        let has_null = self.send_entity_states(ci, connection_id, tick, out);
        proof {
            old(self).lemma_connection_index(connection_id, ci as int);
        }
        if has_null {
            let observed = crate::network_connection::copy_ids(&self.connections[ci].observing);
            let kept = self.existing_objects_of(&observed);
            proof {
                let p_now = |o: u64| self.has_object(o);
                let p_old = |o: u64| old(self).has_object(o);
                assert forall|o: u64| #[trigger] p_now(o) == p_old(o) by {
                    if self.has_object(o) {
                        let k = choose|k: int| 0 <= k < self.objects@.len() && #[trigger] self.objects@[k].object_id == o;
                        assert(old(self).objects@[k].object_id == o);
                    }
                    if old(self).has_object(o) {
                        let k = choose|k: int| 0 <= k < old(self).objects@.len() && #[trigger] old(self).objects@[k].object_id == o;
                        assert(self.objects@[k].object_id == o);
                    }
                }
                assert(p_now =~= p_old);
            }
            let ghost before = *self;
            self.connections[ci].observing = kept;
            proof {
                lemma_same_ids_unique(before.connections@, self.connections@);
            }
        }
    }

    /// The ids of `ids` that name objects of the server, in order.
    #[verifier::spinoff_prover]
    fn existing_objects_of(&self, ids: &Vec<u64>) -> (r: Vec<u64>)
        ensures
            r@ == ids@.filter(|o: u64| self.has_object(o)),
    {
        let ghost pred = |o: u64| self.has_object(o);
        let mut kept: Vec<u64> = Vec::new();
        let m = ids.len();
        let mut i: usize = 0;
        assert(ids@.subrange(0, 0) =~= Seq::<u64>::empty());
        proof {
            reveal_with_fuel(Seq::filter, 1);
        }
        while i < m
            invariant
                m == ids@.len(),
                i <= m,
                pred == (|o: u64| self.has_object(o)),
                kept@ == ids@.subrange(0, i as int).filter(pred),
            decreases m - i,
        {
            let object_id = ids[i];
            let looked = self.find_object(object_id);
            let found = looked.is_some();
            proof {
                match looked {
                    Some(k) => {
                        assert(self.objects@[k as int].object_id == object_id);
                        assert(self.has_object(object_id));
                    },
                    None => {
                        assert(!self.has_object(object_id));
                    },
                }
                assert(found == pred(object_id));
                let s = ids@.subrange(0, i as int);
                assert(ids@.subrange(0, i + 1) =~= s.push(object_id));
                s.lemma_filter_push(object_id, pred);
            }
            if found {
                kept.push(object_id);
            }
            i = i + 1;
        }
        assert(ids@.subrange(0, m as int) =~= ids@);
        kept
    }

    /// Closes connection `connection_id` when the server closes inactive
    /// connections and it is not `alive`; says whether it did.
    pub fn disconnect_if_inactive(&mut self, connection_id: u64, alive: bool, out: &mut Vec<ServerAction>) -> (r: bool)
        requires
            old(self).wf(),
        ensures
            final(self).wf(),
            r == (old(self).disconnect_inactive_connections && !alive),
            r ==> final(self).disconnect_effect(
                old(self),
                connection_id,
                views(final(out)@),
                views(old(out)@),
            ),
            !r ==> *final(self) == *old(self) && views(final(out)@) == views(old(out)@),
    {
        if self.disconnect_inactive_connections && !alive {
            self.disconnect_connection(connection_id, out);
            return true;
        }
        false
    }

    /// The broadcast's turn of the connection at `i`: closed when inactive
    /// (not `alive`); else, when ready, sent a time snapshot and the state of
    /// the objects it observes; then updated.
    #[verifier::spinoff_prover]
    #[verifier::rlimit(40)]
    fn broadcast_one(&mut self, i: usize, tick: u64, alive: bool, out: &mut Vec<ServerAction>)
        requires
            old(self).wf(),
            i < old(self).connections@.len(),
        ensures
            final(self).wf(),
            final(self).spawned@ == old(self).spawned@,
            final(self).same_settings(old(self)),
            final(self).objects@.len() == old(self).objects@.len(),
            final(self).connections@.len() == old(self).connections@.len(),
            forall|k: int|
                0 <= k < old(self).connections@.len() ==> (#[trigger] final(self).connections@[k]).connection_id
                    == old(self).connections@[k].connection_id && final(self).connections@[k].is_ready == if k
                    == i {
                    old(self).connections@[k].is_ready && !(old(self).disconnect_inactive_connections && !alive)
                } else {
                    old(self).connections@[k].is_ready
                },
            broadcast_step(
                views(old(out)@),
                views(final(out)@),
                old(self).connections@[i as int].connection_id,
                old(self).disconnect_inactive_connections && !alive,
                old(self).connections@[i as int].is_ready,
                entity_state_sends(
                    *old(self),
                    old(self).connections@[i as int].observing@,
                    old(self).connections@[i as int].connection_id,
                    tick,
                ),
            ),
            same_states_at(*final(self), *old(self), tick),
            forall|k: int|
                0 <= k < old(self).connections@.len() && k != i ==> (#[trigger] final(self).connections@[k]).observing@
                    == old(self).connections@[k].observing@,
    {
        let n = self.connections.len();
        let connection_id = self.connections[i].connection_id;
        proof {
            self.lemma_connection_index(connection_id, i as int);
        }
        if self.disconnect_if_inactive(connection_id, alive, out) {
            proof {
                assert(old(self).has_connection(connection_id)) by {
                    assert(old(self).connections@[i as int].connection_id == connection_id);
                }
                assert forall|k: int| 0 <= k < n implies (#[trigger] self.connections@[k]).connection_id
                    == old(self).connections@[k].connection_id && self.connections@[k].is_ready == if k == i {
                    old(self).connections@[k].is_ready && !(old(self).disconnect_inactive_connections && !alive)
                } else {
                    old(self).connections@[k].is_ready
                } by {
                    if old(self).connections@[k].connection_id == connection_id {
                        assert(with_ready(self.connections@[k], old(self).connections@[k], false));
                    }
                }
                assert forall|k: int| 0 <= k < n && k != i implies (#[trigger] self.connections@[k]).observing@
                    == old(self).connections@[k].observing@ by {
                    if old(self).connections@[k].connection_id == connection_id {
                        assert(with_ready(self.connections@[k], old(self).connections@[k], false));
                    }
                }
                assert(views(out@) =~= views(old(out)@).push(ActionView::Disconnect { connection_id }));
                lemma_same_states_refl(*self, tick);
            }
            return;
        }
        if self.connections[i].is_ready {
            let mut snapshot = crate::message_types::TimeSnapshotMessage::new();
            send_message(out, connection_id, &mut snapshot, TransportChannel::Unreliable);
            let ghost head = views(out@);
            let ghost before = *self;
            self.broadcast_to_connection(connection_id, tick, out);
            let ghost mid = views(out@);
            proof {
                assert forall|k: int| 0 <= k < n implies (#[trigger] self.connections@[k]).connection_id
                    == old(self).connections@[k].connection_id && self.connections@[k].is_ready
                    == old(self).connections@[k].is_ready by {
                    assert(same_connection(self.connections@[k], before.connections@[k]));
                }
                assert(before.connection_at(connection_id, i as int));
                assert forall|k: int| 0 <= k < n && k != i implies (#[trigger] self.connections@[k]).observing@
                    == old(self).connections@[k].observing@ by {
                    assert(old(self).connections@[k].connection_id != connection_id);
                }
            }
            emit(out, ServerAction::Update { connection_id });
            proof {
                let now = views(out@);
                assert(now =~= mid.push(ActionView::Update { connection_id }));
            }
        } else {
            emit(out, ServerAction::Update { connection_id });
            proof {
                lemma_same_states_refl(*self, tick);
            }
        }
    }

    /// The periodic broadcast at `tick`: each connection, in order, is
    /// closed when inactive (`alive` says which are alive); else a ready one
    /// gets a time snapshot and the state of the objects it observes, and
    /// each one is updated.
    pub fn broadcast(&mut self, tick: u64, alive: &Vec<bool>, out: &mut Vec<ServerAction>)
        requires
            old(self).wf(),
            alive@.len() == old(self).connections@.len(),
        ensures
            final(self).wf(),
            final(self).spawned@ == old(self).spawned@,
            final(self).same_settings(old(self)),
            final(self).objects@.len() == old(self).objects@.len(),
            final(self).connections@.len() == old(self).connections@.len(),
            forall|i: int|
                0 <= i < old(self).connections@.len() ==> (#[trigger] final(self).connections@[i]).connection_id
                    == old(self).connections@[i].connection_id && final(self).connections@[i].is_ready == (
                    old(self).connections@[i].is_ready && !(old(self).disconnect_inactive_connections
                        && !alive@[i])),
            exists|outs: Seq<Seq<ActionView>>|
                #[trigger] broadcast_trace(
                    outs,
                    old(self).connections@,
                    alive@,
                    old(self).disconnect_inactive_connections,
                    *old(self),
                    tick,
                ) && outs[0] == views(old(out)@) && outs.last() == views(final(out)@),
            same_states_at(*final(self), *old(self), tick),
    {
        let n = self.connections.len();
        let ghost mut outs: Seq<Seq<ActionView>> = seq![views(out@)];
        assert(old(self).connections@.subrange(0, 0) =~= Seq::<NetworkConnectionToClient>::empty());
        assert(alive@.subrange(0, 0) =~= Seq::<bool>::empty());
        let mut i: usize = 0;
        while i < n
            invariant
                n == old(self).connections@.len(),
                n == alive@.len(),
                i <= n,
                self.wf(),
                self.spawned@ == old(self).spawned@,
                self.same_settings(old(self)),
                self.objects@.len() == old(self).objects@.len(),
                self.connections@.len() == n,
                forall|k: int|
                    0 <= k < n ==> (#[trigger] self.connections@[k]).connection_id
                        == old(self).connections@[k].connection_id && self.connections@[k].is_ready == if k < i {
                        old(self).connections@[k].is_ready && !(old(self).disconnect_inactive_connections
                            && !alive@[k])
                    } else {
                        old(self).connections@[k].is_ready
                    },
                broadcast_trace(
                    outs,
                    old(self).connections@.subrange(0, i as int),
                    alive@.subrange(0, i as int),
                    old(self).disconnect_inactive_connections,
                    *old(self),
                    tick,
                ),
                same_states_at(*self, *old(self), tick),
                forall|k: int| i <= k < n ==> (#[trigger] self.connections@[k]).observing@
                    == old(self).connections@[k].observing@,
                outs[0] == views(old(out)@),
                outs.last() == views(out@),
            decreases n - i,
        {
            let ghost prev_outs = outs;
            let ghost before = *self;
            self.broadcast_one(i, tick, alive[i], out);
            proof {
                assert(old(self).connections@.subrange(0, i + 1).drop_last() =~= old(self).connections@.subrange(0, i as int));
                assert(alive@.subrange(0, i + 1).drop_last() =~= alive@.subrange(0, i as int));
                assert(before.connections@[i as int].connection_id == old(self).connections@[i as int].connection_id);
                assert(before.connections@[i as int].is_ready == old(self).connections@[i as int].is_ready);
                assert(before.connections@[i as int].observing@ == old(self).connections@[i as int].observing@);
                lemma_same_states_sends(
                    before,
                    *old(self),
                    tick,
                    old(self).connections@[i as int].observing@,
                    old(self).connections@[i as int].connection_id,
                );
                lemma_same_states_trans(*self, before, *old(self), tick);
                outs = outs.push(views(out@));
                assert(outs.drop_last() =~= prev_outs);
            }
            i = i + 1;
        }
        assert(old(self).connections@.subrange(0, n as int) =~= old(self).connections@);
        assert(alive@.subrange(0, n as int) =~= alive@);
    }

    /// Destroys every spawned object, then forgets the spawned set.
    pub fn cleanup_spawned(&mut self, out: &mut Vec<ServerAction>)
        requires
            old(self).wf(),
        ensures
            final(self).wf(),
            final(self).spawned@ == Seq::<u32>::empty(),
            final(self).connections@.len() == old(self).connections@.len(),
            final(self).same_settings(old(self)),
            extends(views(final(out)@), views(old(out)@)),
            exists|states: Seq<NetworkServer>, outs: Seq<Seq<ActionView>>|
                #[trigger] Self::cleanup_trace(states, outs, old(self).spawned@) && states[0] == *old(self)
                    && outs[0] == views(old(out)@) && *final(self) == (NetworkServer {
                    spawned: final(self).spawned,
                    ..states.last()
                }) && views(final(out)@) == outs.last(),
    {
        let ids = crate::network_connection::copy_net_ids(&self.spawned);
        assert(views(out@).subrange(0, views(out@).len() as int) =~= views(out@));
        let ghost mut states: Seq<NetworkServer> = seq![*self];
        let ghost mut outs: Seq<Seq<ActionView>> = seq![views(out@)];
        assert(ids@.subrange(0, 0) =~= Seq::<u32>::empty());
        let n = ids.len();
        let mut i: usize = 0;
        while i < n
            invariant
                n == ids@.len(),
                ids@ == old(self).spawned@,
                i <= n,
                self.wf(),
                self.connections@.len() == old(self).connections@.len(),
                self.same_settings(old(self)),
                extends(views(out@), views(old(out)@)),
                Self::cleanup_trace(states, outs, ids@.subrange(0, i as int)),
                states[0] == *old(self),
                outs[0] == views(old(out)@),
                states.last() == *self,
                outs.last() == views(out@),
            decreases n - i,
        {
            let ghost s0 = *self;
            let ghost o0 = views(out@);
            let net_id = ids[i];
            match self.find_spawned(net_id) {
                Some(k) => {
                    let object_id = self.objects[k].object_id;
                    let ghost before_out = views(out@);
                    self.destroy(object_id, out);
                    proof {
                        let x = views(out@).subrange(before_out.len() as int, views(out@).len() as int);
                        assert(views(out@) =~= views(out@).subrange(0, before_out.len() as int) + x);
                        lemma_extends_append(views(out@), before_out, views(old(out)@), x);
                        assert forall|k2: int| #[trigger] s0.spawned_at(net_id, k2) implies k2 == k by {
                            if k2 < k {
                                assert(s0.objects@[k2].net_id != net_id);
                            } else if k2 > k {
                                assert(s0.objects@[k as int].net_id != net_id);
                            }
                        }
                    }
                },
                None => {},
            }
            proof {
                let prev_states = states;
                let prev_outs = outs;
                states = states.push(*self);
                outs = outs.push(views(out@));
                assert(states.drop_last() =~= prev_states);
                assert(outs.drop_last() =~= prev_outs);
                assert(ids@.subrange(0, i + 1).drop_last() =~= ids@.subrange(0, i as int));
                assert(s0.destroy_step(*self, o0, views(out@), net_id));
            }
            i = i + 1;
        }
        assert(ids@.subrange(0, n as int) =~= ids@);
        self.spawned = Vec::new();
    }

    /// Stops the server: an initialized one closes every connection and
    /// stops the transport; then the server listens again, forgets its
    /// connections and handlers, destroys the spawned objects, becomes
    /// inactive and numbers objects from 1 again.
    #[verifier::spinoff_prover]
    pub fn shutdown(&mut self, out: &mut Vec<ServerAction>)
        requires
            old(self).wf(),
        ensures
            final(self).wf(),
            !final(self).initialized,
            final(self).listen,
            !final(self).is_loading_scene,
            !final(self).active,
            !final(self).has_disconnected_handler,
            final(self).next_network_id == 1,
            final(self).connections@ == Seq::<NetworkConnectionToClient>::empty(),
            final(self).handlers() == Map::<u16, MessageHandler>::empty(),
            final(self).spawned@ == Seq::<u32>::empty(),
            ({
                let prefix = if old(self).initialized {
                    disconnects(old(self).connections@).push(ActionView::StopTransport)
                } else {
                    Seq::empty()
                };
                views(final(out)@).len() >= views(old(out)@).len() + prefix.len()
                    && views(final(out)@).subrange(0, (views(old(out)@).len() + prefix.len()) as int)
                    == views(old(out)@) + prefix
            }),
            exists|states: Seq<NetworkServer>, outs: Seq<Seq<ActionView>>|
                #[trigger] Self::cleanup_trace(states, outs, old(self).spawned@) && states[0].objects@
                    == old(self).objects@ && states[0].spawned@ == old(self).spawned@ && states[0].connections@
                    == Seq::<NetworkConnectionToClient>::empty() && states[0].handlers() == Map::<
                    u16,
                    MessageHandler,
                >::empty() && states[0].active == old(self).active && states[0].listen && !states[0].initialized
                    && !states[0].is_loading_scene && outs[0] == views(old(out)@) + (if old(self).initialized {
                    disconnects(old(self).connections@).push(ActionView::StopTransport)
                } else {
                    Seq::empty()
                }) && final(self).objects@ == states.last().objects@ && views(final(out)@) == outs.last(),
    {
        if self.initialized {
            self.disconnect_all(out);
            emit(out, ServerAction::StopTransport);
            self.initialized = false;
        }
        let ghost prefix_out = views(out@);
        assert(prefix_out =~= views(old(out)@) + if old(self).initialized {
            disconnects(old(self).connections@).push(ActionView::StopTransport)
        } else {
            Seq::empty()
        });
        self.listen = true;
        self.is_loading_scene = false;
        self.connections = Vec::new();
        self.message_handlers = HashMap::new();
        self.cleanup_spawned(out);
        self.active = false;
        self.reset_server_statics();
        self.has_disconnected_handler = false;
    }

    /// A connection that is no longer listed gives up its player and keeps
    /// it active: the player loses its owner and the connection stops owning
    /// it.
    #[verifier::spinoff_prover]
    #[verifier::rlimit(40)]
    fn remove_detached_player(&mut self, conn: &mut NetworkConnectionToClient, out: &mut Vec<ServerAction>)
        requires
            old(self).wf(),
            !old(self).has_connection(old(conn).connection_id),
        ensures
            final(self).wf(),
            final(self).connections@.len() == old(self).connections@.len(),
            forall|k: int|
                0 <= k < old(self).connections@.len() ==> same_connection(
                    #[trigger] final(self).connections@[k],
                    old(self).connections@[k],
                ) && final(self).connections@[k].observing@ == old(self).connections@[k].observing@,
            final(self).spawned@ == old(self).spawned@,
            final(self).same_settings(old(self)),
            final(self).objects@.len() == old(self).objects@.len(),
            !final(self).has_connection(final(conn).connection_id),
            same_connection(*final(conn), *old(conn)),
            final(conn).observing@ == old(conn).observing@,
            extends(views(final(out)@), views(old(out)@)),
            final(self).detached_player(old(self), *final(conn), *old(conn), views(final(out)@), views(old(out)@)),
    {
        assert(views(old(out)@).subrange(0, views(old(out)@).len() as int) =~= views(old(out)@));
        let player = match conn.identity {
            Some(p) => p,
            None => {
                return;
            },
        };
        let pk = match self.find_object(player) {
            Some(k) => k,
            None => {
                return;
            },
        };
        proof {
            self.lemma_object_index(player, pk as int);
        }
        self.set_connection_of(pk, None);
        conn.remove_owned_object(player);
        proof {
            assert(forgot_owned(self.connections@, old(self).connections@, player));
            assert(!self.has_connection(conn.connection_id)) by {
                if self.has_connection(conn.connection_id) {
                    let i = choose|i: int| 0 <= i < self.connections@.len() && #[trigger] self.connections@[i].connection_id == conn.connection_id;
                    assert(same_connection(self.connections@[i], old(self).connections@[i]));
                }
            }
        }
        let ghost before_out = views(out@);
        self.send_change_owner_message(player, conn.connection_id, out);
        proof {
            lemma_extends_append(views(out@), before_out, views(old(out)@), self.change_owner_actions(player, conn.connection_id));
        }
    }

    /// A connection that is no longer listed gives up object `object_id`:
    /// a scene object makes it give up its player; another one is
    /// destroyed.
    #[verifier::spinoff_prover]
    #[verifier::rlimit(40)]
    fn destroy_owned(&mut self, conn: &mut NetworkConnectionToClient, object_id: u64, out: &mut Vec<ServerAction>)
        requires
            old(self).wf(),
            !old(self).has_connection(old(conn).connection_id),
        ensures
            final(self).wf(),
            final(self).same_settings(old(self)),
            final(self).connections@.len() == old(self).connections@.len(),
            final(conn).connection_id == old(conn).connection_id,
            !final(self).has_connection(final(conn).connection_id),
            extends(views(final(out)@), views(old(out)@)),
            final(self).owned_step(old(self), *final(conn), *old(conn), views(final(out)@), views(old(out)@), object_id),
    {
        assert(views(old(out)@).subrange(0, views(old(out)@).len() as int) =~= views(old(out)@));
        match self.find_object(object_id) {
            Some(k) => {
                proof {
                    self.lemma_object_index(object_id, k as int);
                }
                if self.objects[k].scene_id != 0 {
                    self.remove_detached_player(conn, out);
                    proof {
                        assert forall|k2: int| #[trigger] old(self).object_at(object_id, k2) implies k2 == k by {}
                        assert(old(self).object_at(object_id, k as int));
                        assert(self.owned_step(old(self), *conn, *old(conn), views(out@), views(old(out)@), object_id));
                    }
                } else {
                    self.destroy(object_id, out);
                    proof {
                        assert forall|k2: int| #[trigger] old(self).object_at(object_id, k2) implies k2 == k by {}
                        assert(self.destroy_effect(old(self), object_id, views(out@), views(old(out)@)));
                        assert(old(self).object_at(object_id, k as int));
                        assert(self.owned_step(old(self), *conn, *old(conn), views(out@), views(old(out)@), object_id));
                    }
                    proof {
                        reveal(NetworkServer::destroy_effect);
                        if old(self).active {
                            assert(old(self).object_at(object_id, k as int));
                            assert forall|j: int| 0 <= j < self.connections@.len() implies #[trigger] self.connections@[j].connection_id != conn.connection_id by {
                                assert(forgot_object(
                                    self.connections@[j],
                                    old(self).connections@[j],
                                    object_id,
                                    old(self).objects@[k as int].connection,
                                    old(self).objects@[k as int].observers@,
                                ));
                            }
                        }
                    }
                }
            },
            None => {},
        }
    }

    /// The objects `after` are the objects `before` once connection
    /// `connection_id`, which observed the objects `observing`, was taken
    /// off their observers; nothing else of them changed.
    pub open spec fn observers_forgot(
        after: Seq<NetworkIdentity>,
        before: Seq<NetworkIdentity>,
        connection_id: u64,
        observing: Seq<u64>,
    ) -> bool {
        &&& after.len() == before.len()
        &&& forall|k: int|
            0 <= k < before.len() ==> {
                let o = before[k];
                let m = #[trigger] after[k];
                &&& m.observers@ == if observing.contains(o.object_id) {
                    without(o.observers@, connection_id)
                } else {
                    o.observers@
                }
                &&& m.behaviours@ == o.behaviours@
                &&& m.keeps_core(&o)
                &&& m.had_authority == o.had_authority
            }
    }

    /// Takes connection `conn` off the observers of every object it
    /// observes, and empties what it observes.
    #[verifier::spinoff_prover]
    #[verifier::rlimit(60)]
    pub fn remove_from_observings_observers(&mut self, conn: &mut NetworkConnectionToClient)
        requires
            old(self).wf(),
        ensures
            final(self).wf(),
            Self::observers_forgot(final(self).objects@, old(self).objects@, old(conn).connection_id, old(conn).observing@),
            *final(self) == (NetworkServer { objects: final(self).objects, ..*old(self) }),
            *final(conn) == (NetworkConnectionToClient { observing: final(conn).observing, ..*old(conn) }),
            final(conn).observing@ == Seq::<u64>::empty(),
    {
        let m = conn.observing.len();
        let cid = conn.connection_id;
        let mut j: usize = 0;
        while j < m
            invariant
                m == conn.observing@.len(),
                *conn == *old(conn),
                cid == old(conn).connection_id,
                j <= m,
                self.wf(),
                *self == (NetworkServer { objects: self.objects, ..*old(self) }),
                Self::observers_forgot(self.objects@, old(self).objects@, cid, conn.observing@.subrange(0, j as int)),
            decreases m - j,
        {
            let object_id = conn.observing[j];
            let ghost cur = self.objects@;
            let ghost prefix = conn.observing@.subrange(0, j as int);
            let ghost next = conn.observing@.subrange(0, j + 1);
            assert(next =~= prefix.push(object_id));
            match self.find_object(object_id) {
                Some(k) => {
                    let ghost before = *self;
                    proof {
                        self.lemma_object_index(object_id, k as int);
                    }
                    self.objects[k].remove_observer(cid);
                    proof {
                        self.lemma_objects_wf_after_update(before, k as int);
                        let o = old(self).objects@[k as int];
                        crate::network_connection::lemma_without(o.observers@, cid);
                        crate::network_connection::lemma_without_absent(without(o.observers@, cid), cid);
                        assert forall|i: int| 0 <= i < old(self).objects@.len() implies {
                            let o = old(self).objects@[i];
                            let m = #[trigger] self.objects@[i];
                            &&& m.observers@ == if next.contains(o.object_id) {
                                without(o.observers@, cid)
                            } else {
                                o.observers@
                            }
                            &&& m.behaviours@ == o.behaviours@
                            &&& m.keeps_core(&o)
                            &&& m.had_authority == o.had_authority
                        } by {
                            if i == k {
                                assert(next[j as int] == object_id);
                                assert(next.contains(object_id));
                            } else {
                                assert(!before.object_at(object_id, i));
                                assert(next.contains(old(self).objects@[i].object_id) == prefix.contains(
                                    old(self).objects@[i].object_id,
                                ));
                            }
                        }
                    }
                },
                None => {
                    proof {
                        assert forall|i: int| 0 <= i < old(self).objects@.len() implies #[trigger] next.contains(
                            old(self).objects@[i].object_id,
                        ) == prefix.contains(old(self).objects@[i].object_id) by {
                            assert(self.objects@[i].object_id != object_id);
                        }
                    }
                },
            }
            j = j + 1;
        }
        assert(conn.observing@.subrange(0, m as int) =~= conn.observing@);
        conn.observing = Vec::new();
    }

    /// `after`, `conn_after` and `new_out` follow `before`, `conn_before`
    /// and `old_out` when the connection, not listed in `before`, cleans up
    /// (see `destroy_player_for_connection`).
    pub open spec fn player_destroyed(
        after: NetworkServer,
        before: NetworkServer,
        conn_after: NetworkConnectionToClient,
        conn_before: NetworkConnectionToClient,
        new_out: Seq<ActionView>,
        old_out: Seq<ActionView>,
    ) -> bool {
        &&& after.wf()
        &&& after.same_settings(&before)
        &&& after.connections@.len() == before.connections@.len()
        &&& conn_after.identity is None
        &&& conn_after.observing@ == Seq::<u64>::empty()
        &&& conn_after.connection_id == conn_before.connection_id
        &&& !after.has_connection(conn_before.connection_id)
        &&& owners_agree(seq![conn_after], after.objects@)
        &&& exists|states: Seq<NetworkServer>, conns: Seq<NetworkConnectionToClient>, outs: Seq<Seq<ActionView>>|
            #[trigger] Self::owned_trace(states, conns, outs, conn_before.owned@) && states[0] == before
                && conns[0] == conn_before && outs[0] == old_out && new_out == outs.last()
                && Self::observers_forgot(
                after.objects@,
                states.last().objects@,
                conn_before.connection_id,
                conns.last().observing@,
            ) && after == (NetworkServer { objects: after.objects, ..states.last() }) && same_connection(
                conn_after,
                NetworkConnectionToClient { identity: None, ..conns.last() },
            ) && conn_after.owned@ == conns.last().owned@
    }

    /// Cleans up after the listed connection `connection_id`, which stays
    /// listed, at its place: as `destroy_player_for_connection` does for it.
    /// False, with nothing changed, for a connection that is not listed.
    #[verifier::spinoff_prover]
    #[verifier::rlimit(60)]
    pub fn destroy_player_for_connection_id(&mut self, connection_id: u64, out: &mut Vec<ServerAction>) -> (r: bool)
        requires
            old(self).wf(),
        ensures
            final(self).wf(),
            r == old(self).has_connection(connection_id),
            !r ==> *final(self) == *old(self) && views(final(out)@) == views(old(out)@),
            r ==> exists|i: int, pre: NetworkServer, post: NetworkServer, c: NetworkConnectionToClient|
                #[trigger] Self::player_destroyed(
                    post,
                    pre,
                    c,
                    old(self).connections@[i],
                    views(final(out)@),
                    views(old(out)@),
                ) && old(self).connection_at(connection_id, i) && pre.connections@ == old(
                    self,
                ).connections@.remove(i) && (NetworkServer { connections: old(self).connections, ..pre })
                    == *old(self) && final(self).connections@ == post.connections@.insert(i, c) && (
                NetworkServer { connections: post.connections, ..*final(self) }) == post,
    {
        let i = match self.find_connection(connection_id) {
            Some(i) => i,
            None => {
                assert(views(out@) =~= views(old(out)@));
                return false;
            },
        };
        proof {
            self.lemma_connection_index(connection_id, i as int);
        }
        let mut conn = self.connections.remove(i);
        let ghost pre = *self;
        proof {
            assert(self.connections@ =~= old(self).connections@.remove(i as int));
            assert forall|a: int, b: int| 0 <= a < b < self.connections@.len() implies #[trigger] self.connections@[a].connection_id
                != #[trigger] self.connections@[b].connection_id by {
                let a0 = if a < i { a } else { a + 1 };
                let b0 = if b < i { b } else { b + 1 };
                assert(self.connections@[a] == old(self).connections@[a0]);
                assert(self.connections@[b] == old(self).connections@[b0]);
            }
            assert forall|a: int, j: int|
                0 <= a < self.connections@.len() && 0 <= j < self.objects@.len() && #[trigger] self.connections@[a].owned@.contains(
                    #[trigger] self.objects@[j].object_id,
                ) implies self.objects@[j].connection == Some(self.connections@[a].connection_id) by {
                let a0 = if a < i { a } else { a + 1 };
                assert(self.connections@[a] == old(self).connections@[a0]);
            }
            assert(!self.has_connection(connection_id)) by {
                if self.has_connection(connection_id) {
                    let a = choose|a: int| 0 <= a < self.connections@.len() && #[trigger] self.connections@[a].connection_id == connection_id;
                    let a0 = if a < i { a } else { a + 1 };
                    assert(self.connections@[a] == old(self).connections@[a0]);
                }
            }
            assert forall|a: int, j: int|
                0 <= a < 1 && 0 <= j < self.objects@.len() && #[trigger] seq![conn][a].owned@.contains(
                    #[trigger] self.objects@[j].object_id,
                ) implies self.objects@[j].connection == Some(seq![conn][a].connection_id) by {
                assert(seq![conn][a] == old(self).connections@[i as int]);
                assert(old(self).connections@[i as int].owned@.contains(old(self).objects@[j].object_id));
            }
            assert((NetworkServer { connections: old(self).connections, ..pre }) == *old(self));
        }
        let ghost conn0 = conn;
        let ghost out0 = views(out@);
        self.destroy_player_for_connection(&mut conn, out);
        let ghost post = *self;
        proof {
            assert(Self::player_destroyed(post, pre, conn, conn0, views(out@), out0));
        }
        self.connections.insert(i, conn);
        proof {
            assert(self.connections@ =~= post.connections@.insert(i as int, conn));
            assert forall|a: int, b: int| 0 <= a < b < self.connections@.len() implies #[trigger] self.connections@[a].connection_id
                != #[trigger] self.connections@[b].connection_id by {
                if a != i && b != i {
                    let a0 = if a < i { a } else { a - 1 };
                    let b0 = if b < i { b } else { b - 1 };
                    assert(self.connections@[a] == post.connections@[a0]);
                    assert(self.connections@[b] == post.connections@[b0]);
                } else if a == i {
                    let b0 = b - 1;
                    assert(self.connections@[b] == post.connections@[b0]);
                    assert(post.connections@[b0].connection_id != connection_id);
                } else {
                    assert(self.connections@[a] == post.connections@[a]);
                    assert(post.connections@[a].connection_id != connection_id);
                }
            }
            assert forall|a: int, j: int|
                0 <= a < self.connections@.len() && 0 <= j < self.objects@.len() && #[trigger] self.connections@[a].owned@.contains(
                    #[trigger] self.objects@[j].object_id,
                ) implies self.objects@[j].connection == Some(self.connections@[a].connection_id) by {
                if a < i {
                    assert(self.connections@[a] == post.connections@[a]);
                } else if a > i {
                    assert(self.connections@[a] == post.connections@[a - 1]);
                } else {
                    assert(seq![conn][0] == conn);
                    assert(seq![conn][0].owned@.contains(self.objects@[j].object_id));
                }
            }
            assert((NetworkServer { connections: post.connections, ..*self }) == post);
            assert(old(self).connection_at(connection_id, i as int));
        }
        true
    }

    /// Cleans up after a connection that went away: each object it owns is
    /// destroyed, or, for a scene object, its player is given up; every
    /// object it observed forgets it, and it has no player any more.
    pub fn destroy_player_for_connection(&mut self, conn: &mut NetworkConnectionToClient, out: &mut Vec<ServerAction>)
        requires
            old(self).wf(),
            !old(self).has_connection(old(conn).connection_id),
            owners_agree(seq![*old(conn)], old(self).objects@),
        ensures
            final(self).wf(),
            owners_agree(seq![*final(conn)], final(self).objects@),
            final(self).same_settings(old(self)),
            final(self).connections@.len() == old(self).connections@.len(),
            final(conn).identity is None,
            final(conn).observing@ == Seq::<u64>::empty(),
            final(conn).connection_id == old(conn).connection_id,
            !final(self).has_connection(old(conn).connection_id),
            extends(views(final(out)@), views(old(out)@)),
            exists|states: Seq<NetworkServer>, conns: Seq<NetworkConnectionToClient>, outs: Seq<Seq<ActionView>>|
                #[trigger] Self::owned_trace(states, conns, outs, old(conn).owned@) && states[0] == *old(self)
                    && conns[0] == *old(conn) && outs[0] == views(old(out)@) && views(final(out)@) == outs.last()
                    && Self::observers_forgot(
                    final(self).objects@,
                    states.last().objects@,
                    old(conn).connection_id,
                    conns.last().observing@,
                ) && *final(self) == (NetworkServer { objects: final(self).objects, ..states.last() })
                    && same_connection(*final(conn), NetworkConnectionToClient { identity: None, ..conns.last() })
                    && final(conn).owned@ == conns.last().owned@,
    {
        assert(views(old(out)@).subrange(0, views(old(out)@).len() as int) =~= views(old(out)@));
        let owned = crate::network_connection::copy_ids(&conn.owned);
        let ghost mut states: Seq<NetworkServer> = seq![*self];
        let ghost mut conns: Seq<NetworkConnectionToClient> = seq![*conn];
        let ghost mut outs: Seq<Seq<ActionView>> = seq![views(out@)];
        assert(owned@.subrange(0, 0) =~= Seq::<u64>::empty());
        let n = owned.len();
        let mut i: usize = 0;
        while i < n
            invariant
                n == owned@.len(),
                owned@ == old(conn).owned@,
                i <= n,
                self.wf(),
                self.same_settings(old(self)),
                self.connections@.len() == old(self).connections@.len(),
                conn.connection_id == old(conn).connection_id,
                !self.has_connection(conn.connection_id),
                extends(views(out@), views(old(out)@)),
                Self::owned_trace(states, conns, outs, owned@.subrange(0, i as int)),
                states[0] == *old(self),
                conns[0] == *old(conn),
                outs[0] == views(old(out)@),
                states.last() == *self,
                conns.last() == *conn,
                outs.last() == views(out@),
                owners_agree(seq![*conn], self.objects@),
            decreases n - i,
        {
            let object_id = owned[i];
            let ghost before_out = views(out@);
            let ghost prev_states = states;
            let ghost prev_conns = conns;
            let ghost prev_outs = outs;
            let ghost before_self = *self;
            let ghost before_conn = *conn;
            self.destroy_owned(conn, object_id, out);
            proof {
                self.lemma_owned_step_agrees(&before_self, *conn, before_conn, views(out@), before_out, object_id);
                lemma_extends_trans(views(out@), before_out, views(old(out)@));
                states = states.push(*self);
                conns = conns.push(*conn);
                outs = outs.push(views(out@));
                assert(states.drop_last() =~= prev_states);
                assert(conns.drop_last() =~= prev_conns);
                assert(outs.drop_last() =~= prev_outs);
                assert(owned@.subrange(0, i + 1).drop_last() =~= owned@.subrange(0, i as int));
            }
            i = i + 1;
        }
        assert(owned@.subrange(0, n as int) =~= owned@);
        let ghost before_forget = *self;
        let ghost conn_before_forget = *conn;
        self.remove_from_observings_observers(conn);
        conn.identity = None;
        proof {
            assert forall|a: int, j: int|
                0 <= a < 1 && 0 <= j < self.objects@.len() && #[trigger] seq![*conn][a].owned@.contains(
                    #[trigger] self.objects@[j].object_id,
                ) implies self.objects@[j].connection == Some(seq![*conn][a].connection_id) by {
                assert(seq![*conn][a] == *conn);
                assert(seq![conn_before_forget][0] == conn_before_forget);
                assert(self.objects@[j].keeps_core(&before_forget.objects@[j]));
                assert(seq![conn_before_forget][0].owned@.contains(before_forget.objects@[j].object_id));
            }
        }
    }

    /// A transport connection went away: it is removed and its buffers are
    /// dropped; the application is told when it handles disconnections, else
    /// the connection's objects are cleaned up. Nothing for an unknown
    /// connection.
    #[verifier::spinoff_prover]
    #[verifier::rlimit(40)]
    pub fn on_transport_disconnected(&mut self, connection_id: u64, out: &mut Vec<ServerAction>)
        requires
            old(self).wf(),
        ensures
            final(self).wf(),
            final(self).same_settings(old(self)),
            !final(self).has_connection(connection_id),
            !old(self).has_connection(connection_id) ==> *final(self) == *old(self) && views(
                final(out)@,
            ) == views(old(out)@),
            old(self).has_connection(connection_id) ==> final(self).connections@.len() + 1
                == old(self).connections@.len(),
            old(self).has_connection(connection_id) && old(self).has_disconnected_handler ==> {
                &&& final(self).objects@ == old(self).objects@
                &&& final(self).spawned@ == old(self).spawned@
                &&& views(final(out)@) == views(old(out)@) + seq![
                    ActionView::Cleanup { connection_id },
                    ActionView::Disconnected { connection_id },
                ]
            },
            old(self).has_connection(connection_id) && !old(self).has_disconnected_handler
                ==> extends(views(final(out)@), views(old(out)@).push(ActionView::Cleanup { connection_id })),
            old(self).has_connection(connection_id) && !old(self).has_disconnected_handler ==> exists|i: int|
                0 <= i < old(self).connections@.len() && old(self).connections@[i].connection_id == connection_id
                    && #[trigger] final(self).cleaned_after(old(self), i, views(final(out)@), views(old(out)@)),
    {
        match self.remove_connection(connection_id) {
            None => {},
            Some(mut conn) => {
                let ghost i = choose|i: int|
                    0 <= i < old(self).connections@.len() && old(self).connections@[i] == conn
                        && self.connections@ == old(self).connections@.remove(i);
                emit(out, ServerAction::Cleanup { connection_id });
                if self.has_disconnected_handler {
                    emit(out, ServerAction::Disconnected { connection_id });
                    assert(views(out@) =~= views(old(out)@) + seq![
                        ActionView::Cleanup { connection_id },
                        ActionView::Disconnected { connection_id },
                    ]);
                } else {
                    let ghost mid = *self;
                    let ghost mid_out = views(out@);
                    let ghost conn0 = conn;
                    proof {
                        assert forall|a: int, j: int|
                            0 <= a < 1 && 0 <= j < self.objects@.len() && #[trigger] seq![conn][a].owned@.contains(
                                #[trigger] self.objects@[j].object_id,
                            ) implies self.objects@[j].connection == Some(seq![conn][a].connection_id) by {
                            assert(seq![conn][a] == old(self).connections@[i]);
                            assert(old(self).connections@[i].owned@.contains(old(self).objects@[j].object_id));
                        }
                    }
                    self.destroy_player_for_connection(&mut conn, out);
                    proof {
                        let (states, conns, outs) = choose|
                            states: Seq<NetworkServer>,
                            conns: Seq<NetworkConnectionToClient>,
                            outs: Seq<Seq<ActionView>>,
                        |
                            #[trigger] Self::owned_trace(states, conns, outs, conn0.owned@) && states[0] == mid
                                && conns[0] == conn0 && outs[0] == mid_out && views(out@) == outs.last()
                                && Self::observers_forgot(
                                self.objects@,
                                states.last().objects@,
                                conn0.connection_id,
                                conns.last().observing@,
                            ) && *self == (NetworkServer { objects: self.objects, ..states.last() })
                                && same_connection(conn, NetworkConnectionToClient { identity: None, ..conns.last() })
                                && conn.owned@ == conns.last().owned@;
                        assert(Self::owned_trace(states, conns, outs, old(self).connections@[i].owned@));
                        assert(self.cleaned_after(old(self), i, views(out@), views(old(out)@)));
                    }
                }
            },
        }
    }

    /// Activates the scene objects that are not numbered yet, then spawns,
    /// for its live owner, each of them whose parent is active
    /// (`valid_parent`, by object). False, with no change, when the server is
    /// inactive.
    #[verifier::spinoff_prover]
    pub fn spawn_objects(&mut self, valid_parent: &Vec<bool>, out: &mut Vec<ServerAction>) -> (r: bool)
        requires
            old(self).wf(),
            valid_parent@.len() == old(self).objects@.len(),
            old(self).next_network_id + old(self).objects@.len() < u32::MAX,
        ensures
            r == old(self).active,
            !r ==> *final(self) == *old(self) && views(final(out)@) == views(old(out)@),
            final(self).wf(),
            final(self).objects@.len() == old(self).objects@.len(),
            extends(views(final(out)@), views(old(out)@)),
            final(self).active == old(self).active,
            final(self).is_loading_scene == old(self).is_loading_scene,
            final(self).initialized == old(self).initialized,
            r ==> final(self).objects_spawned(old(self), valid_parent@, views(final(out)@), views(old(out)@)),
    {
        assert(views(old(out)@).subrange(0, views(old(out)@).len() as int) =~= views(old(out)@));
        if !self.active {
            return false;
        }
        let n = self.objects.len();
        let mut i: usize = 0;
        assert(views(out@) =~= views(old(out)@) + activations(self.objects@.subrange(0, 0)));
        while i < n
            invariant
                n == self.objects@.len(),
                i <= n,
                *self == *old(self),
                views(out@) == views(old(out)@) + activations(self.objects@.subrange(0, i as int)),
            decreases n - i,
        {
            proof {
                assert(self.objects@.subrange(0, i + 1).drop_last() =~= self.objects@.subrange(0, i as int));
            }
            if self.objects[i].is_scene_object() && self.objects[i].net_id == 0 {
                emit(out, ServerAction::SetActive { object_id: self.objects[i].object_id, active: true });
            }
            proof {
                assert(views(out@) =~= views(old(out)@) + activations(self.objects@.subrange(0, i + 1)));
            }
            i = i + 1;
        }
        assert(self.objects@.subrange(0, n as int) =~= self.objects@);
        proof {
            let x = activations(old(self).objects@);
            lemma_extends_append(views(out@), views(old(out)@), views(old(out)@), x);
        }
        let ids = self.object_ids();
        let ghost all_ids = object_ids_of(old(self).objects@);
        assert(ids@ =~= all_ids);
        let ghost mut states: Seq<NetworkServer> = seq![*self];
        let ghost mut outs: Seq<Seq<ActionView>> = seq![views(out@)];
        assert(all_ids.subrange(0, 0) =~= Seq::<u64>::empty());
        assert(valid_parent@.subrange(0, 0) =~= Seq::<bool>::empty());
        let mut i: usize = 0;
        while i < n
            invariant
                n == ids@.len(),
                n == valid_parent@.len(),
                ids@ == all_ids,
                i <= n,
                self.wf(),
                self.objects@.len() == n,
                self.next_network_id + (n - i) < u32::MAX,
                extends(views(out@), views(old(out)@)),
                self.active == old(self).active,
                self.is_loading_scene == old(self).is_loading_scene,
                self.initialized == old(self).initialized,
                Self::spawn_trace(states, outs, all_ids.subrange(0, i as int), valid_parent@.subrange(0, i as int)),
                states[0] == *old(self),
                outs[0] == views(old(out)@) + activations(old(self).objects@),
                states.last() == *self,
                outs.last() == views(out@),
            decreases n - i,
        {
            let ghost s0 = *self;
            let ghost o0 = views(out@);
            let object_id = ids[i];
            if valid_parent[i] {
                match self.find_object(object_id) {
                    Some(k) => {
                        proof {
                            self.lemma_object_index(object_id, k as int);
                        }
                        if self.objects[k].is_scene_object() && self.objects[k].net_id == 0 {
                            match self.objects[k].connection {
                                Some(owner) => {
                                    if self.connection_contains_key(owner) {
                                        let ghost before_out = views(out@);
                                        proof {
                                            assert(s0.spawn_candidate(object_id, k as int));
                                        }
                                        self.spawn_object(object_id, owner, out);
                                        proof {
                                            lemma_extends_trans(views(out@), before_out, views(old(out)@));
                                        }
                                    } else {
                                        proof {
                                            assert forall|k2: int| !#[trigger] s0.spawn_candidate(object_id, k2) by {
                                                if s0.spawn_candidate(object_id, k2) {
                                                    assert(k2 == k);
                                                }
                                            }
                                        }
                                    }
                                },
                                None => {
                                    proof {
                                        assert forall|k2: int| !#[trigger] s0.spawn_candidate(object_id, k2) by {
                                            if s0.spawn_candidate(object_id, k2) {
                                                assert(k2 == k);
                                            }
                                        }
                                    }
                                },
                            }
                        } else {
                            proof {
                                assert forall|k2: int| !#[trigger] s0.spawn_candidate(object_id, k2) by {
                                    if s0.spawn_candidate(object_id, k2) {
                                        assert(k2 == k);
                                    }
                                }
                            }
                        }
                    },
                    None => {},
                }
            }
            proof {
                let prev_states = states;
                let prev_outs = outs;
                states = states.push(*self);
                outs = outs.push(views(out@));
                assert(states.drop_last() =~= prev_states);
                assert(outs.drop_last() =~= prev_outs);
                assert(all_ids.subrange(0, i + 1).drop_last() =~= all_ids.subrange(0, i as int));
                assert(valid_parent@.subrange(0, i + 1).drop_last() =~= valid_parent@.subrange(0, i as int));
                assert(s0.spawn_step(*self, o0, views(out@), object_id, valid_parent@[i as int]));
            }
            i = i + 1;
        }
        assert(all_ids.subrange(0, n as int) =~= all_ids);
        assert(valid_parent@.subrange(0, n as int) =~= valid_parent@);
        true
    }

    /// The ids of the objects, in order.
    pub fn object_ids(&self) -> (r: Vec<u64>)
        ensures
            r@.len() == self.objects@.len(),
            forall|i: int| 0 <= i < r@.len() ==> r@[i] == self.objects@[i].object_id,
    {
        let mut r: Vec<u64> = Vec::new();
        let mut i: usize = 0;
        while i < self.objects.len()
            invariant
                i <= self.objects@.len(),
                r@.len() == i,
                forall|k: int| 0 <= k < i ==> r@[k] == self.objects@[k].object_id,
            decreases self.objects.len() - i,
        {
            r.push(self.objects[i].object_id);
            i = i + 1;
        }
        r
    }

    /// Sends per second.
    pub fn send_rate(&self) -> (r: i32)
        ensures
            r == self.tick_rate as i32,
    {
        self.tick_rate as i32
    }

    /// The index of the connection with id `connection_id`.
    pub fn find_connection(&self, connection_id: u64) -> (r: Option<usize>)
        ensures
            match r {
                Some(i) => i < self.connections@.len() && self.connections@[i as int].connection_id
                    == connection_id,
                None => !self.has_connection(connection_id),
            },
    {
        let mut i: usize = 0;
        while i < self.connections.len()
            invariant
                i <= self.connections@.len(),
                forall|k: int| 0 <= k < i ==> #[trigger] self.connections@[k].connection_id != connection_id,
            decreases self.connections.len() - i,
        {
            if self.connections[i].connection_id == connection_id {
                return Some(i);
            }
            i = i + 1;
        }
        None
    }

    /// Some connection has id `connection_id`.
    pub fn connection_contains_key(&self, connection_id: u64) -> (r: bool)
        ensures
            r == self.has_connection(connection_id),
    {
        self.find_connection(connection_id).is_some()
    }

    /// Hands out the next network id: the counter's value, after which the
    /// counter moves on by one.
    pub fn get_next_network_id(&mut self) -> (r: u32)
        requires
            old(self).next_network_id < u32::MAX,
        ensures
            r == old(self).next_network_id,
            *final(self) == (NetworkServer { next_network_id: (r + 1) as u32, ..*old(self) }),
    {
        let r = self.next_network_id;
        self.next_network_id = r + 1;
        r
    }

    /// Starts the network ids over at one.
    pub fn reset_server_statics(&mut self)
        ensures
            *final(self) == (NetworkServer { next_network_id: 1, ..*old(self) }),
    {
        self.next_network_id = 1;
    }

    /// A transport connection arrived, with the address that the transport
    /// knows for it, if any: it is handled as one that arrived with that
    /// address, or with an empty one.
    pub fn on_transport_connected(
        &mut self,
        connection_id: u64,
        address: Option<String>,
        out: &mut Vec<ServerAction>,
    )
        requires
            old(self).wf(),
        ensures
            final(self).wf(),
            old(self).spec_connection_allowed(connection_id) ==> {
                &&& final(self).connections@.drop_last() == old(self).connections@
                &&& final(self).connections@.last().connection_id == connection_id
                &&& final(self).connections@.last().address@ == match address {
                    Some(a) => a@,
                    None => Seq::<char>::empty(),
                }
                &&& views(final(out)@) == views(old(out)@).push(ActionView::Connected { connection_id })
            },
            !old(self).spec_connection_allowed(connection_id) ==> {
                &&& final(self).connections@ == old(self).connections@
                &&& views(final(out)@) == views(old(out)@).push(ActionView::Disconnect { connection_id })
            },
            final(self).objects@ == old(self).objects@,
            final(self).spawned@ == old(self).spawned@,
            final(self).handlers() == old(self).handlers(),
    {
        let address = match address {
            Some(a) => a,
            None => String::new(),
        };
        self.on_transport_connected_with_address(connection_id, address.as_str(), out);
    }

    /// A transport error on a connection: the application is told when the
    /// connection is known.
    pub fn on_transport_error(
        &self,
        connection_id: u64,
        error: TransportError,
        reason: &str,
        out: &mut Vec<ServerAction>,
    )
        ensures
            views(final(out)@) == views(old(out)@) + if self.has_connection(connection_id) {
                seq![ActionView::Error { connection_id, error, reason: reason@ }]
            } else {
                Seq::empty()
            },
    {
        if self.connection_contains_key(connection_id) {
            emit(out, ServerAction::Error { connection_id, error, reason: reason.to_string() });
            assert(views(out@) =~= views(old(out)@) + seq![ActionView::Error { connection_id, error, reason: reason@ }]);
        } else {
            assert(views(out@) =~= views(old(out)@) + Seq::<ActionView>::empty());
        }
    }

    /// A transport failure on a connection: the application is told when
    /// the connection is known.
    pub fn on_transport_exception(&self, connection_id: u64, out: &mut Vec<ServerAction>)
        ensures
            views(final(out)@) == views(old(out)@) + if self.has_connection(connection_id) {
                seq![ActionView::TransportException { connection_id }]
            } else {
                Seq::empty()
            },
    {
        if self.connection_contains_key(connection_id) {
            emit(out, ServerAction::TransportException { connection_id });
            assert(views(out@) =~= views(old(out)@) + seq![ActionView::TransportException { connection_id }]);
        } else {
            assert(views(out@) =~= views(old(out)@) + Seq::<ActionView>::empty());
        }
    }

    /// Before the frame: the transport's server update runs, then every
    /// connection's clock interpolation is brought up to date.
    pub fn network_early_update(&self, out: &mut Vec<ServerAction>)
        ensures
            views(final(out)@) == views(old(out)@).push(ActionView::TransportEarlyUpdate)
                + interpolation_updates(self.connections@),
    {
        emit(out, ServerAction::TransportEarlyUpdate);
        let ghost start = views(out@);
        let mut i: usize = 0;
        while i < self.connections.len()
            invariant
                i <= self.connections@.len(),
                start == views(old(out)@).push(ActionView::TransportEarlyUpdate),
                views(out@) == start + interpolation_updates(self.connections@.subrange(0, i as int)),
            decreases self.connections.len() - i,
        {
            let connection_id = self.connections[i].connection_id;
            emit(out, ServerAction::UpdateTimeInterpolation { connection_id });
            assert(interpolation_updates(self.connections@.subrange(0, i + 1)) =~= interpolation_updates(
                self.connections@.subrange(0, i as int),
            ).push(ActionView::UpdateTimeInterpolation { connection_id }));
            i = i + 1;
        }
        assert(self.connections@.subrange(0, i as int) =~= self.connections@);
    }

    /// After the frame: when the send interval elapsed, the state is
    /// broadcast; then the transport's server update runs.
    pub fn network_late_update(
        &mut self,
        send_interval_elapsed: bool,
        tick: u64,
        alive: &Vec<bool>,
        out: &mut Vec<ServerAction>,
    )
        requires
            old(self).wf(),
            alive@.len() == old(self).connections@.len(),
        ensures
            final(self).wf(),
            final(self).same_settings(old(self)),
            final(self).spawned@ == old(self).spawned@,
            !send_interval_elapsed ==> *final(self) == *old(self) && views(final(out)@) == views(
                old(out)@,
            ).push(ActionView::TransportLateUpdate),
            send_interval_elapsed ==> exists|outs: Seq<Seq<ActionView>>|
                #[trigger] broadcast_trace(
                    outs,
                    old(self).connections@,
                    alive@,
                    old(self).disconnect_inactive_connections,
                    *old(self),
                    tick,
                ) && outs[0] == views(old(out)@) && views(final(out)@) == outs.last().push(
                    ActionView::TransportLateUpdate,
                ),
    {
        if send_interval_elapsed {
            self.broadcast(tick, alive, out);
        }
        emit(out, ServerAction::TransportLateUpdate);
    }

    /// The index of the object with id `object_id`.
    pub fn find_object(&self, object_id: u64) -> (r: Option<usize>)
        ensures
            match r {
                Some(i) => i < self.objects@.len() && self.objects@[i as int].object_id == object_id,
                None => forall|k: int|
                    0 <= k < self.objects@.len() ==> #[trigger] self.objects@[k].object_id
                        != object_id,
            },
    {
        let mut i: usize = 0;
        while i < self.objects.len()
            invariant
                i <= self.objects@.len(),
                forall|k: int| 0 <= k < i ==> #[trigger] self.objects@[k].object_id != object_id,
            decreases self.objects.len() - i,
        {
            if self.objects[i].object_id == object_id {
                return Some(i);
            }
            i = i + 1;
        }
        None
    }

    /// The index of the spawned object with net id `net_id`: the first
    /// object with that net id, when the net id is spawned.
    pub fn find_spawned(&self, net_id: u32) -> (r: Option<usize>)
        ensures
            match r {
                Some(i) => self.spawned_at(net_id, i as int),
                None => !self.spawned@.contains(net_id) || forall|k: int|
                    0 <= k < self.objects@.len() ==> #[trigger] self.objects@[k].net_id != net_id,
            },
    {
        if !crate::network_connection::contains_u32(&self.spawned, net_id) {
            return None;
        }
        let mut i: usize = 0;
        while i < self.objects.len()
            invariant
                i <= self.objects@.len(),
                self.spawned@.contains(net_id),
                forall|k: int| 0 <= k < i ==> #[trigger] self.objects@[k].net_id != net_id,
            decreases self.objects.len() - i,
        {
            if self.objects[i].net_id == net_id {
                return Some(i);
            }
            i = i + 1;
        }
        None
    }
}

} // verus!
