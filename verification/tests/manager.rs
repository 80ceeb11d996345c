use unity_mirror_rs::network_manager::{NetworkManager, NetworkManagerConfig, PlayerSpawnMethod};
use unity_mirror_rs::network_server::{NetworkServer, ServerAction};

fn config(online: Option<&str>, offline: Option<&str>) -> NetworkManagerConfig {
    NetworkManagerConfig {
        dont_destroy_on_load: true,
        send_rate: 30,
        start_scene: "Start".to_string(),
        offline_scene: offline.map(|s| s.to_string()),
        online_scene: online.map(|s| s.to_string()),
        player_prefab: "Player".to_string(),
        auto_create_player: true,
        exceptions_disconnect: true,
        spawn_prefabs: vec!["Bullet".to_string()],
    }
}

#[test]
fn initialize_takes_the_configuration() {
    let mut manager = NetworkManager::new();
    manager.initialize(config(Some("Game"), None));
    assert_eq!(manager.online_scene, "Game");
    assert_eq!(manager.offline_scene, "");
    assert_eq!(manager.max_connections, 100);
    assert_eq!(manager.send_rate, 60);
    assert_eq!(manager.player_prefab, "Player");
    assert!(manager.is_server_online_scene_change_needed());
    let mut server = NetworkServer::new();
    manager.apply_configuration(&mut server);
    assert_eq!(server.tick_rate, 60);
}

#[test]
fn no_online_scene_change_without_a_distinct_online_scene() {
    let mut manager = NetworkManager::new();
    manager.initialize(config(Some("Same"), Some("Same")));
    assert!(!manager.is_server_online_scene_change_needed());
    let mut none = NetworkManager::new();
    none.initialize(config(None, None));
    assert!(!none.is_server_online_scene_change_needed());
}

#[test]
fn round_robin_start_positions_cycle() {
    let mut manager = NetworkManager::new();
    assert_eq!(manager.get_start_position(0), None);
    assert_eq!(manager.get_start_position(3), Some(0));
    assert_eq!(manager.get_start_position(3), Some(1));
    assert_eq!(manager.get_start_position(3), Some(2));
    assert_eq!(manager.get_start_position(3), Some(0));
    assert_eq!(manager.start_position_index, 1);
}

#[test]
fn random_start_positions_are_drawn_in_range() {
    let mut manager = NetworkManager::new();
    manager.player_spawn_method = PlayerSpawnMethod::Random;
    let mut found = 0;
    for _ in 0..200 {
        if let Some(i) = manager.get_start_position(3) {
            assert!(i < 3);
            found += 1;
        }
    }
    assert!(found > 0);
    assert_eq!(manager.get_start_position(0), None);
}

#[test]
fn start_position_from_a_drawn_index() {
    let mut manager = NetworkManager::new();
    manager.start_position_index = 2;
    assert_eq!(manager.start_position_from(1, 3), Some(1));
    assert_eq!(manager.start_position_index, 0);
    assert_eq!(manager.start_position_from(3, 3), None);
    assert_eq!(manager.start_position_index, 0);
    assert_eq!(manager.start_position_from(0, 0), None);
}

#[test]
fn scene_change_needs_a_name_and_an_active_server() {
    let mut manager = NetworkManager::new();
    let mut server = NetworkServer::new();
    let mut out = Vec::new();
    assert!(!manager.server_change_scene(&mut server, "", &mut out));
    assert!(!manager.server_change_scene(&mut server, "Game", &mut out));
    assert!(out.is_empty());
    server.listen(4, &mut out);
    out.clear();
    assert!(manager.server_change_scene(&mut server, "Game", &mut out));
    assert_eq!(manager.get_network_scene_name(), "Game");
    assert!(server.is_loading_scene);
    assert!(matches!(&out[0], ServerAction::LoadScene { scene_name } if scene_name == "Game"));
    assert!(!manager.server_change_scene(&mut server, "Game", &mut out));
}

#[test]
fn start_server_starts_once() {
    let mut manager = NetworkManager::new();
    let mut server = NetworkServer::new();
    let mut out = Vec::new();
    assert!(manager.start_server(&mut server, &vec![], &mut out));
    assert!(server.active);
    assert!(out.iter().any(|a| matches!(a, ServerAction::ServerStarted)));
    let mut again = Vec::new();
    assert!(!manager.start_server(&mut server, &vec![], &mut again));
    assert!(again.is_empty());
}

#[test]
fn scene_finished_loading_is_told() {
    let mut manager = NetworkManager::new();
    let mut server = NetworkServer::new();
    let mut out = Vec::new();
    manager.start_server(&mut server, &vec![], &mut out);
    manager.server_change_scene(&mut server, "Arena", &mut out);
    out.clear();
    manager.finish_load_scene(&mut server, &vec![], &mut out);
    assert!(!server.is_loading_scene);
    assert!(matches!(out.last(), Some(ServerAction::ServerSceneChanged { scene_name }) if scene_name == "Arena"));
}

#[test]
fn adding_a_player_needs_a_prefab_and_no_player_yet() {
    let mut manager = NetworkManager::new();
    manager.initialize(config(None, None));
    let server = NetworkServer::new();
    assert!(manager.on_server_add_player_internal(&server, 1, true));
    assert!(!manager.on_server_add_player_internal(&server, 1, false));
    manager.player_prefab = String::new();
    assert!(!manager.on_server_add_player_internal(&server, 1, true));
}

#[test]
fn connections_authenticate_without_an_authenticator() {
    let manager = NetworkManager::new();
    let mut server = NetworkServer::new();
    let mut out = Vec::new();
    server.listen(2, &mut out);
    server.on_transport_connected_with_address(4, "", &mut out);
    out.clear();
    assert!(manager.on_server_connect_internal(&mut server, 4, true, &mut out));
    assert!(!server.connections[0].is_authenticated);
    assert!(!manager.on_server_connect_internal(&mut server, 4, false, &mut out));
    assert!(server.connections[0].is_authenticated);
    assert!(matches!(out[..], [ServerAction::ServerConnect { connection_id: 4 }]));
}

#[test]
fn a_scene_name_too_long_to_send_goes_out_empty() {
    let mut manager = NetworkManager::new();
    let mut server = NetworkServer::new();
    let mut out = Vec::new();
    server.listen(4, &mut out);
    server.on_transport_connected_with_address(3, "127.0.0.1", &mut out);
    assert_eq!(server.connections.len(), 1);
    let long = "a".repeat(70000);
    let mut changed = Vec::new();
    assert!(manager.server_change_scene(&mut server, &long, &mut changed));
    assert_eq!(manager.network_scene_name, long);
    let sent = changed
        .iter()
        .find_map(|a| match a {
            ServerAction::Send { connection_id: 3, payload, .. } if payload.len() == 6 => Some(payload.clone()),
            _ => None,
        })
        .expect("the scene message");
    assert_eq!(&sent[2..], &[0, 0, 0, 0]);
}
