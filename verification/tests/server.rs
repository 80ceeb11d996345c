use unity_mirror_rs::message::{MessageDeserializer, NetworkMessage};
use unity_mirror_rs::message_types::{EntityStateMessage, ReadyMessage, TimeSnapshotMessage};
use unity_mirror_rs::network_reader::NetworkReader;
use unity_mirror_rs::network_behaviour::NetworkBehaviour;
use unity_mirror_rs::network_identity::NetworkIdentity;
use unity_mirror_rs::network_server::{pack, HandlerKind, NetworkServer, ServerAction};
use unity_mirror_rs::transport::{TransportChannel, TransportError};

fn listening(max: i32) -> (NetworkServer, Vec<ServerAction>) {
    let mut server = NetworkServer::new();
    let mut out = Vec::new();
    server.listen(max, &mut out);
    (server, out)
}

fn connect(server: &mut NetworkServer, id: u64) -> Vec<ServerAction> {
    let mut out = Vec::new();
    server.on_transport_connected_with_address(id, "127.0.0.1", &mut out);
    out
}

#[test]
fn new_server_defaults() {
    let server = NetworkServer::new();
    assert!(!server.active);
    assert!(server.listen);
    assert_eq!(server.next_network_id, 1);
    assert_eq!(server.send_rate(), 30);
    assert!(server.connections.is_empty());
}

#[test]
fn listen_starts_transport_and_registers_handlers() {
    let (server, out) = listening(4);
    assert!(server.active && server.initialized);
    assert_eq!(server.max_connections, 4);
    assert_eq!(out.len(), 2);
    assert!(matches!(out[0], ServerAction::ResetTime));
    assert!(matches!(out[1], ServerAction::StartTransport));
    assert!(server.message_handlers.contains_key(&ReadyMessage::message_id()));
    assert!(server.message_handlers.contains_key(&TimeSnapshotMessage::message_id()));
}

#[test]
fn connections_are_accepted_once_and_up_to_the_limit() {
    let (mut server, _) = listening(2);
    let out = connect(&mut server, 7);
    assert!(matches!(out[..], [ServerAction::Connected { connection_id: 7 }]));
    assert_eq!(server.connections[0].address, "127.0.0.1");
    let again = connect(&mut server, 7);
    assert!(matches!(again[..], [ServerAction::Disconnect { connection_id: 7 }]));
    let zero = connect(&mut server, 0);
    assert!(matches!(zero[..], [ServerAction::Disconnect { connection_id: 0 }]));
    connect(&mut server, 8);
    let full = connect(&mut server, 9);
    assert!(matches!(full[..], [ServerAction::Disconnect { connection_id: 9 }]));
    assert_eq!(server.connections.len(), 2);
    assert!(server.connection_contains_key(8));
    assert!(!server.connection_contains_key(9));
}

#[test]
fn connected_without_address_gets_an_empty_one() {
    let (mut server, _) = listening(2);
    let mut out = Vec::new();
    server.on_transport_connected(3, None, &mut out);
    assert_eq!(server.connections[0].address, "");
    server.on_transport_connected(4, Some("10.0.0.1".to_string()), &mut out);
    assert_eq!(server.connections[1].address, "10.0.0.1");
}

#[test]
fn disconnected_connection_is_forgotten_and_may_return() {
    let (mut server, _) = listening(2);
    connect(&mut server, 5);
    let mut out = Vec::new();
    server.on_transport_disconnected(5, &mut out);
    assert!(!server.connection_contains_key(5));
    assert!(matches!(out[0], ServerAction::Cleanup { connection_id: 5 }));
    let back = connect(&mut server, 5);
    assert!(matches!(back[..], [ServerAction::Connected { connection_id: 5 }]));
}

#[test]
fn unknown_disconnect_changes_nothing() {
    let (mut server, _) = listening(2);
    let mut out = Vec::new();
    server.on_transport_disconnected(42, &mut out);
    assert!(out.is_empty());
}

#[test]
fn network_ids_count_up_and_reset() {
    let mut server = NetworkServer::new();
    assert_eq!(server.get_next_network_id(), 1);
    assert_eq!(server.get_next_network_id(), 2);
    assert_eq!(server.next_network_id, 3);
    server.reset_server_statics();
    assert_eq!(server.get_next_network_id(), 1);
}

#[test]
fn spawning_numbers_the_object() {
    let (mut server, _) = listening(2);
    connect(&mut server, 1);
    let identity = NetworkIdentity::new(100, "player".to_string(), 0, 5, vec![NetworkBehaviour::default()], 1);
    server.objects.push(identity);
    let mut out = Vec::new();
    server.spawn_object(100, 1, &mut out);
    assert_eq!(server.objects[0].net_id, 1);
    assert!(server.objects[0].is_server);
    assert_eq!(server.objects[0].connection(), Some(1));
    assert_eq!(server.spawned, vec![1]);
    assert_eq!(server.next_network_id, 2);
    assert!(out.iter().any(|a| matches!(a, ServerAction::StartServer { object_id: 100 })));
    assert_eq!(server.find_spawned(1), Some(0));
    assert_eq!(server.object_ids(), vec![100]);
}

#[test]
fn spawning_on_an_inactive_server_does_nothing() {
    let mut server = NetworkServer::new();
    server.objects.push(NetworkIdentity::new(100, "x".to_string(), 0, 0, vec![], 0));
    let mut out = Vec::new();
    server.spawn_object(100, 1, &mut out);
    assert_eq!(server.objects[0].net_id, 0);
    assert!(out.is_empty());
}

#[test]
fn transport_errors_are_reported_for_known_connections() {
    let (mut server, _) = listening(2);
    connect(&mut server, 2);
    let mut out = Vec::new();
    server.on_transport_error(2, TransportError::Timeout, "late", &mut out);
    server.on_transport_error(3, TransportError::Timeout, "late", &mut out);
    server.on_transport_exception(2, &mut out);
    server.on_transport_exception(3, &mut out);
    assert_eq!(out.len(), 2);
    match &out[0] {
        ServerAction::Error { connection_id, error, reason } => {
            assert_eq!(*connection_id, 2);
            assert_eq!(*error, TransportError::Timeout);
            assert_eq!(reason, "late");
        },
        _ => panic!("expected an error report"),
    }
    assert!(matches!(out[1], ServerAction::TransportException { connection_id: 2 }));
}

#[test]
fn early_update_visits_every_connection() {
    let (mut server, _) = listening(3);
    connect(&mut server, 4);
    connect(&mut server, 6);
    let mut out = Vec::new();
    server.network_early_update(&mut out);
    assert_eq!(out.len(), 3);
    assert!(matches!(out[0], ServerAction::TransportEarlyUpdate));
    assert!(matches!(out[1], ServerAction::UpdateTimeInterpolation { connection_id: 4 }));
    assert!(matches!(out[2], ServerAction::UpdateTimeInterpolation { connection_id: 6 }));
}

#[test]
fn late_update_without_broadcast_only_updates_transport() {
    let (mut server, _) = listening(3);
    connect(&mut server, 4);
    let mut out = Vec::new();
    server.network_late_update(false, 1, &vec![true], &mut out);
    assert_eq!(out.len(), 1);
    assert!(matches!(out[0], ServerAction::TransportLateUpdate));
}

#[test]
fn ready_message_needs_authentication() {
    let (mut server, _) = listening(3);
    connect(&mut server, 4);
    let mut message = ReadyMessage;
    let bytes = pack(&mut message);
    let mut out = Vec::new();
    server.on_transport_message(4, &bytes, TransportChannel::Reliable, &mut out);
    assert!(out.iter().any(|a| matches!(a, ServerAction::Disconnect { connection_id: 4 })));
    assert!(!server.connections[0].is_ready);
}

#[test]
fn ready_message_from_authenticated_connection_makes_it_ready() {
    let (mut server, _) = listening(3);
    connect(&mut server, 4);
    server.connections[0].is_authenticated = true;
    let mut message = ReadyMessage;
    let bytes = pack(&mut message);
    let mut out = Vec::new();
    server.on_transport_message(4, &bytes, TransportChannel::Reliable, &mut out);
    assert!(server.connections[0].is_ready);
}

#[test]
fn handlers_register_once_and_unregister() {
    let mut server = NetworkServer::new();
    server.register_handler::<ReadyMessage>(HandlerKind::Custom(1), false);
    server.register_handler::<ReadyMessage>(HandlerKind::Custom(2), true);
    let h = server.message_handlers.get(&ReadyMessage::message_id()).copied().unwrap();
    assert_eq!(h.kind, HandlerKind::Custom(1));
    assert!(!h.require_authentication);
    server.replace_handler::<ReadyMessage>(HandlerKind::Custom(3), true);
    assert_eq!(server.message_handlers.get(&ReadyMessage::message_id()).unwrap().kind, HandlerKind::Custom(3));
    server.unregister_handler::<ReadyMessage>();
    assert!(!server.message_handlers.contains_key(&ReadyMessage::message_id()));
}

#[test]
fn shutdown_forgets_everything() {
    let (mut server, _) = listening(3);
    connect(&mut server, 4);
    server.get_next_network_id();
    let mut out = Vec::new();
    server.shutdown(&mut out);
    assert!(!server.active && !server.initialized);
    assert!(server.connections.is_empty());
    assert_eq!(server.next_network_id, 1);
    assert!(matches!(out[0], ServerAction::Disconnect { connection_id: 4 }));
    assert!(matches!(out[1], ServerAction::StopTransport));
}

#[test]
fn shutdown_destroys_spawned_objects() {
    let (mut server, _) = listening(3);
    connect(&mut server, 1);
    server.objects.push(NetworkIdentity::new(100, "bullet".to_string(), 0, 5, vec![], 0));
    let mut out = Vec::new();
    server.spawn_object(100, 1, &mut out);
    assert_eq!(server.spawned, vec![1]);
    let mut out = Vec::new();
    server.shutdown(&mut out);
    assert!(server.spawned.is_empty());
    assert!(server.objects.is_empty());
    assert!(out.iter().any(|a| matches!(a, ServerAction::DestroyObject { object_id: 100 })));
}

#[test]
fn spawn_objects_activates_and_spawns_scene_objects_with_live_owners() {
    let (mut server, _) = listening(3);
    connect(&mut server, 1);
    let mut owned = NetworkIdentity::new(10, "door".to_string(), 77, 0, vec![], 0);
    owned.connection = Some(1);
    let unowned = NetworkIdentity::new(11, "tree".to_string(), 78, 0, vec![], 0);
    let dynamic = NetworkIdentity::new(12, "npc".to_string(), 0, 0, vec![], 0);
    server.objects.push(owned);
    server.objects.push(unowned);
    server.objects.push(dynamic);
    let mut out = Vec::new();
    assert!(server.spawn_objects(&vec![true, true, true], &mut out));
    assert!(matches!(out[0], ServerAction::SetActive { object_id: 10, active: true }));
    assert!(matches!(out[1], ServerAction::SetActive { object_id: 11, active: true }));
    assert_eq!(server.objects[0].net_id, 1);
    assert_eq!(server.objects[1].net_id, 0);
    assert_eq!(server.objects[2].net_id, 0);
    let mut stopped = NetworkServer::new();
    let mut none = Vec::new();
    assert!(!stopped.spawn_objects(&vec![], &mut none));
}

#[test]
fn leaving_connection_is_taken_off_observers() {
    let mut server = NetworkServer::new();
    let mut a = NetworkIdentity::new(1, "a".to_string(), 0, 0, vec![], 0);
    a.observers = vec![5, 6];
    let mut b = NetworkIdentity::new(2, "b".to_string(), 0, 0, vec![], 0);
    b.observers = vec![5];
    server.objects.push(a);
    server.objects.push(b);
    let mut conn = unity_mirror_rs::network_connection::NetworkConnectionToClient::new(5, String::new());
    conn.observing = vec![1, 3];
    server.remove_from_observings_observers(&mut conn);
    assert_eq!(server.objects[0].observers, vec![6]);
    assert_eq!(server.objects[1].observers, vec![5]);
    assert!(conn.observing.is_empty());
}

#[test]
fn broadcast_sends_observed_state_and_reuses_it_at_the_same_tick() {
    let (mut server, _) = listening(4);
    connect(&mut server, 7);
    let mut behaviour = NetworkBehaviour::default();
    behaviour.sync_var_dirty_bits = 1;
    behaviour.sync_interval_elapsed = true;
    server.objects.push(NetworkIdentity::new(100, "crate".to_string(), 0, 5, vec![behaviour], 1));
    let mut spawned = Vec::new();
    server.spawn_object(100, 1, &mut spawned);
    server.connections[0].is_ready = true;
    server.connections[0].observing = vec![100, 200];
    let mut out = Vec::new();
    server.broadcast(3, &vec![true], &mut out);
    assert_eq!(out.len(), 3);
    match &out[0] {
        ServerAction::Send { connection_id, channel, payload } => {
            assert_eq!(*connection_id, 7);
            assert_eq!(*channel, TransportChannel::Unreliable);
            assert_eq!(payload, &pack(&mut TimeSnapshotMessage::new()));
        },
        _ => panic!("expected a time snapshot"),
    }
    let first = match &out[1] {
        ServerAction::Send { connection_id, channel, payload } => {
            assert_eq!(*connection_id, 7);
            assert_eq!(*channel, TransportChannel::Reliable);
            assert_eq!(&payload[..2], &EntityStateMessage::message_id().to_le_bytes());
            let mut r = NetworkReader::new(payload[2..].to_vec());
            let m = EntityStateMessage::deserialize(&mut r);
            assert_eq!(m.net_id, 1);
            assert_eq!(m.payload[0], 1);
            payload.clone()
        },
        _ => panic!("expected the object's state"),
    };
    assert!(matches!(out[2], ServerAction::Update { connection_id: 7 }));
    assert_eq!(server.objects[0].behaviours[0].sync_var_dirty_bits, 0);
    assert_eq!(server.connections[0].observing, vec![100, 200]);
    let mut again = Vec::new();
    server.broadcast(3, &vec![true], &mut again);
    assert!(matches!(&again[1], ServerAction::Send { payload, .. } if *payload == first));
    let mut later = Vec::new();
    server.broadcast(4, &vec![true], &mut later);
    assert_eq!(later.len(), 2);
    assert!(matches!(later[1], ServerAction::Update { connection_id: 7 }));
    assert_eq!(server.connections[0].observing, vec![100]);
}

#[test]
fn a_new_owner_takes_the_object_from_the_previous_one() {
    let (mut server, _) = listening(4);
    connect(&mut server, 7);
    connect(&mut server, 8);
    server.objects.push(NetworkIdentity::new(100, "ball".to_string(), 0, 5, vec![], 0));
    let mut out = Vec::new();
    server.spawn_object(100, 7, &mut out);
    assert_eq!(server.connections[0].owned, vec![100]);
    server.set_connection_of(0, Some(8));
    assert!(server.connections[0].owned.is_empty());
    assert_eq!(server.connections[1].owned, vec![100]);
    assert_eq!(server.objects[0].connection, Some(8));
    server.set_connection_of(0, None);
    assert!(server.connections[1].owned.is_empty());
    assert_eq!(server.objects[0].connection, None);
}

#[test]
fn a_listed_connection_cleans_up_by_id_and_stays_listed() {
    let (mut server, _) = listening(4);
    connect(&mut server, 7);
    connect(&mut server, 8);
    server.objects.push(NetworkIdentity::new(100, "bullet".to_string(), 0, 5, vec![], 0));
    let mut out = Vec::new();
    server.spawn_object(100, 7, &mut out);
    server.connections[0].identity = Some(100);
    let mut cleanup = Vec::new();
    assert!(server.destroy_player_for_connection_id(7, &mut cleanup));
    assert!(server.objects.is_empty());
    assert_eq!(server.connections.len(), 2);
    assert_eq!(server.connections[0].connection_id, 7);
    assert_eq!(server.connections[0].identity, None);
    assert_eq!(server.connections[1].connection_id, 8);
    let mut none = Vec::new();
    assert!(!server.destroy_player_for_connection_id(9, &mut none));
    assert!(none.is_empty());
}

#[test]
fn raw_batches_are_split_and_handled() {
    let (mut server, _) = listening(3);
    connect(&mut server, 4);
    server.connections[0].is_authenticated = true;
    let mut message = ReadyMessage;
    let bytes = pack(&mut message);
    let data = unity_mirror_rs::batching::batch(2.5f64.to_bits(), &bytes);
    let mut out = Vec::new();
    assert_eq!(server.on_transport_data(4, &data, TransportChannel::Reliable, &mut out), Some(2.5f64.to_bits()));
    assert!(server.connections[0].is_ready);
    let mut short = Vec::new();
    assert_eq!(server.on_transport_data(4, &[1, 2, 3], TransportChannel::Reliable, &mut short), None);
}
