use unity_mirror_rs::network_behaviour::NetworkBehaviour;
use unity_mirror_rs::network_connection::NetworkConnectionToClient;
use unity_mirror_rs::network_identity::NetworkIdentity;
use unity_mirror_rs::network_server::{NetworkServer, ServerAction};
use unity_mirror_rs::transport::TransportChannel;

fn server_with(connections: &[(u64, bool)]) -> NetworkServer {
    let mut server = NetworkServer::new();
    for (id, ready) in connections {
        let mut c = NetworkConnectionToClient::new(*id, String::new());
        c.is_ready = *ready;
        server.connections.push(c);
    }
    server
}

fn component() -> NetworkBehaviour {
    let mut b = NetworkBehaviour::default();
    b.net_id = 9;
    b.component_index = 2;
    b
}

fn recipients(out: &[ServerAction]) -> Vec<u64> {
    out.iter()
        .map(|a| match a {
            ServerAction::Rpc { connection_id, net_id, component_index, function_hash, payload, .. } => {
                assert_eq!((*net_id, *component_index, *function_hash), (9, 2, 77));
                assert_eq!(payload, &vec![1, 2]);
                *connection_id
            },
            _ => panic!("only remote calls are sent"),
        })
        .collect()
}

#[test]
fn rpc_goes_to_ready_observers_but_the_owner() {
    let server = server_with(&[(1, true), (2, true), (3, false)]);
    let mut identity = NetworkIdentity::new(5, "npc".to_string(), 0, 0, vec![component()], 1);
    identity.connection = Some(1);
    identity.observers = vec![1, 2, 3, 4];
    let b = component();
    let mut out = Vec::new();
    b.send_rpc_internal(&identity, &server, 77, &vec![1, 2], TransportChannel::Reliable, false, &mut out);
    assert_eq!(recipients(&out), vec![2]);
    let mut with_owner = Vec::new();
    b.send_rpc_internal(&identity, &server, 77, &vec![1, 2], TransportChannel::Reliable, true, &mut with_owner);
    assert_eq!(recipients(&with_owner), vec![1, 2]);
}

#[test]
fn rpc_needs_a_live_owner() {
    let server = server_with(&[(1, true)]);
    let mut identity = NetworkIdentity::new(5, "npc".to_string(), 0, 0, vec![component()], 1);
    identity.observers = vec![1];
    let b = component();
    let mut out = Vec::new();
    b.send_rpc_internal(&identity, &server, 77, &vec![1, 2], TransportChannel::Reliable, true, &mut out);
    assert!(out.is_empty());
    identity.connection = Some(8);
    b.send_rpc_internal(&identity, &server, 77, &vec![1, 2], TransportChannel::Reliable, true, &mut out);
    assert!(out.is_empty());
}

#[test]
fn target_rpc_goes_to_the_target_or_the_owner() {
    let server = server_with(&[(1, true), (2, false)]);
    let mut identity = NetworkIdentity::new(5, "pet".to_string(), 0, 0, vec![component()], 1);
    let b = component();
    let mut out = Vec::new();
    assert!(!b.send_target_rpc_internal(&identity, &server, None, 77, &vec![1, 2], TransportChannel::Reliable, &mut out));
    assert!(out.is_empty());
    identity.connection = Some(1);
    assert!(b.send_target_rpc_internal(&identity, &server, None, 77, &vec![1, 2], TransportChannel::Reliable, &mut out));
    assert!(b.send_target_rpc_internal(&identity, &server, Some(2), 77, &vec![1, 2], TransportChannel::Reliable, &mut out));
    assert_eq!(recipients(&out), vec![1]);
}

#[test]
fn roles_come_from_the_object() {
    let b = component();
    let mut identity = NetworkIdentity::new(5, "x".to_string(), 0, 0, vec![], 0);
    identity.is_server = true;
    identity.connection = Some(4);
    assert!(b.is_server(Some(&identity)));
    assert!(b.is_server_only(Some(&identity)));
    assert!(!b.is_client(Some(&identity)));
    assert!(!b.is_client_only(Some(&identity)));
    assert!(!b.is_owned(Some(&identity)));
    assert_eq!(b.connection_to_client(Some(&identity)), Some(4));
    assert!(!b.is_server(None));
    assert_eq!(b.connection_to_client(None), None);
}
