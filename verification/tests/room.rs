use unity_mirror_rs::network_connection::NetworkConnectionToClient;
use unity_mirror_rs::network_room_manager::{
    AddPlayerDecision, NetworkRoomManager, NetworkRoomManagerConfig, PendingPlayer, RoomEvent, RoomPlayer,
};
use unity_mirror_rs::network_identity::NetworkIdentity;
use unity_mirror_rs::network_server::{NetworkServer, ServerAction};

fn room(min_players: i32) -> NetworkRoomManager {
    NetworkRoomManager::new(min_players, "RoomPlayer".to_string(), "Room".to_string(), "Game".to_string())
}

fn slot(object_id: u64, ready: bool) -> RoomPlayer {
    RoomPlayer { object_id, ready_to_begin: ready, index: 0 }
}

fn server_with_players(players: &[(u64, u64)]) -> NetworkServer {
    let mut server = NetworkServer::new();
    for (connection_id, object_id) in players {
        let mut c = NetworkConnectionToClient::new(*connection_id, String::new());
        c.identity = Some(*object_id);
        server.connections.push(c);
    }
    server
}

#[test]
fn readiness_changes_are_told_once() {
    let mut r = room(1);
    let mut events = Vec::new();
    r.set_all_players_ready(false, &mut events);
    assert!(events.is_empty());
    r.set_all_players_ready(true, &mut events);
    r.set_all_players_ready(true, &mut events);
    r.set_all_players_ready(false, &mut events);
    assert_eq!(events, vec![RoomEvent::PlayersReady, RoomEvent::PlayersNotReady]);
}

#[test]
fn game_begins_when_enough_connections_are_ready() {
    let mut r = room(2);
    r.room_slots = vec![slot(10, true), slot(11, true)];
    r.pending_players.push(PendingPlayer { connection: 1, room_player: 10 });
    let server = server_with_players(&[(1, 10), (2, 11)]);
    assert_eq!(r.count_ready_slots(), 2);
    assert_eq!(r.count_ready_connections(&server), 2);
    let mut events = Vec::new();
    r.ready_status_changed(&server, "Room", "Room", &mut events);
    assert!(r.all_players_ready);
    assert!(r.pending_players.is_empty());
    assert_eq!(events, vec![RoomEvent::PlayersReady]);
}

#[test]
fn too_few_ready_connections_do_not_begin() {
    let mut r = room(3);
    r.room_slots = vec![slot(10, true), slot(11, true)];
    let server = server_with_players(&[(1, 10), (2, 11)]);
    let mut events = Vec::new();
    r.check_ready_to_begin(&server, "Room", "Room", &mut events);
    assert!(!r.all_players_ready);
    assert!(events.is_empty());
}

#[test]
fn a_slot_not_ready_stops_the_game() {
    let mut r = room(1);
    r.room_slots = vec![slot(10, true), slot(11, false)];
    r.all_players_ready = true;
    let server = server_with_players(&[(1, 10), (2, 11)]);
    let mut events = Vec::new();
    r.ready_status_changed(&server, "Room", "Room", &mut events);
    assert!(!r.all_players_ready);
    assert_eq!(events, vec![RoomEvent::PlayersNotReady]);
}

#[test]
fn outside_the_network_scene_nothing_is_checked() {
    let mut r = room(0);
    r.room_slots = vec![slot(10, true)];
    let server = server_with_players(&[(1, 10)]);
    let mut events = Vec::new();
    r.check_ready_to_begin(&server, "Elsewhere", "Room", &mut events);
    assert!(!r.all_players_ready);
    assert!(events.is_empty());
}

#[test]
fn indices_follow_the_slots() {
    let mut r = room(1);
    r.room_slots = vec![slot(10, false), slot(11, true), slot(12, false)];
    r.recalculate_room_player_indices();
    let indices: Vec<i32> = r.room_slots.iter().map(|p| p.index).collect();
    assert_eq!(indices, vec![0, 1, 2]);
    assert!(r.room_slots[1].ready_to_begin);
}

#[test]
fn disconnect_removes_the_players_slots() {
    let mut r = room(1);
    r.room_slots = vec![slot(10, true), slot(11, true), slot(12, true)];
    r.all_players_ready = true;
    let mut c = NetworkConnectionToClient::new(1, String::new());
    c.identity = Some(11);
    c.owned = vec![12];
    let mut events = Vec::new();
    r.on_server_disconnect(&c, "Room", &mut events);
    assert_eq!(r.room_slots, vec![RoomPlayer { object_id: 10, ready_to_begin: false, index: 0 }]);
    assert!(!r.all_players_ready);
    assert_eq!(events, vec![RoomEvent::PlayersNotReady, RoomEvent::ServerDisconnect { connection_id: 1 }]);
}

#[test]
fn disconnect_without_player_keeps_the_slots() {
    let mut r = room(1);
    r.room_slots = vec![slot(10, true), slot(11, true)];
    let c = NetworkConnectionToClient::new(1, String::new());
    let mut events = Vec::new();
    r.on_server_disconnect(&c, "Game", &mut events);
    assert_eq!(r.room_slots.len(), 2);
    assert!(r.room_slots.iter().all(|p| !p.ready_to_begin));
    assert_eq!(events, vec![RoomEvent::ServerDisconnect { connection_id: 1 }]);
}

#[test]
fn players_join_only_in_the_room_scene() {
    let mut r = room(1);
    let mut server = NetworkServer::new();
    server.connections.push(NetworkConnectionToClient::new(1, String::new()));
    server.connections.push(NetworkConnectionToClient::new(2, String::new()));
    server.objects.push(NetworkIdentity::new(50, "room player".to_string(), 0, 0, vec![], 0));
    let mut events = Vec::new();
    let mut out = Vec::new();
    assert_eq!(
        r.on_server_add_player(1, Some(50), "Room", &mut server, &mut events, &mut out),
        AddPlayerDecision::CreateRoomPlayer
    );
    assert_eq!(server.connections[0].identity, Some(50));
    let mut closed = Vec::new();
    assert_eq!(
        r.on_server_add_player(2, None, "Game", &mut server, &mut events, &mut closed),
        AddPlayerDecision::Disconnect
    );
    assert!(matches!(closed[..], [ServerAction::Disconnect { connection_id: 2 }]));
    assert_eq!(r.client_index, 2);
}

#[test]
fn connections_are_accepted_only_in_the_room_scene() {
    let r = room(1);
    let mut server = NetworkServer::new();
    server.connections.push(NetworkConnectionToClient::new(3, String::new()));
    let mut out = Vec::new();
    assert!(r.on_server_connect(3, "Room", &mut server, &mut out));
    assert!(out.is_empty());
    assert!(!r.on_server_connect(3, "Game", &mut server, &mut out));
    assert!(matches!(out[..], [ServerAction::Disconnect { connection_id: 3 }]));
}

#[test]
fn pending_players_wait_for_the_game_scene() {
    let mut r = room(1);
    let mut server = NetworkServer::new();
    let mut out = Vec::new();
    assert!(!r.scene_loaded_for_player("Room", 1, 10, None, true, &mut server, &mut out));
    assert!(!r.scene_loaded_for_player("Game", 2, 11, Some(20), false, &mut server, &mut out));
    assert_eq!(r.pending_players, vec![PendingPlayer { connection: 1, room_player: 10 }]);
    assert!(r.on_server_scene_changed("Room").is_empty());
    assert_eq!(r.on_server_scene_changed("Game"), vec![PendingPlayer { connection: 1, room_player: 10 }]);
    assert!(r.pending_players.is_empty());
    assert!(out.is_empty());
}

#[test]
fn server_needs_both_scenes() {
    let r = room(1);
    assert!(r.on_start_server());
    let empty = NetworkRoomManager::new(1, String::new(), String::new(), "Game".to_string());
    assert!(!empty.on_start_server());
}

#[test]
fn scene_change_on_a_stopped_server_keeps_readiness() {
    let mut r = room(1);
    r.room_slots = vec![slot(10, true)];
    r.all_players_ready = true;
    let mut server = NetworkServer::new();
    let mut events = Vec::new();
    let mut out = Vec::new();
    r.on_server_change_scene(&mut server, &mut events, &mut out);
    assert!(r.room_slots[0].ready_to_begin);
    assert!(!r.all_players_ready);
    assert_eq!(events, vec![RoomEvent::PlayersNotReady]);
}

#[test]
fn stopping_forgets_the_slots() {
    let mut r = room(1);
    r.room_slots = vec![slot(10, true)];
    r.on_stop_server();
    assert!(r.room_slots.is_empty());
}

#[test]
fn room_initialize_takes_the_configuration() {
    let mut r = room(1);
    r.room_slots = vec![slot(1, true)];
    r.initialize(NetworkRoomManagerConfig {
        min_players: 4,
        room_player_prefab: "Lobby".to_string(),
        room_scene: "Lobby".to_string(),
        gameplay_scene: "Arena".to_string(),
        client_index: 7,
    });
    assert_eq!(r.min_players, 4);
    assert_eq!(r.room_scene, "Lobby");
    assert_eq!(r.gameplay_scene, "Arena");
    assert_eq!(r.client_index, 7);
    assert!(r.room_slots.is_empty());
}
