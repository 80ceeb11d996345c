use unity_mirror_rs::network_loop::NetworkLoop;
use unity_mirror_rs::network_server::{NetworkServer, ServerAction};

#[test]
fn handlers_run_in_the_order_they_were_added() {
    let mut l = NetworkLoop::new();
    l.handlers.append_early_update_handler(3);
    l.handlers.append_early_update_handler(1);
    l.handlers.append_late_update_handler(7);
    let server = NetworkServer::new();
    let mut out = Vec::new();
    assert_eq!(l.network_early_update(&server, &mut out), vec![3, 1]);
    assert!(matches!(out[..], [ServerAction::TransportEarlyUpdate]));
    assert_eq!(l.network_late_update(), vec![7]);
}
