use unity_mirror_rs::network_behaviour::{NetworkBehaviour, SyncMode};
use unity_mirror_rs::network_identity::{AuthorityChange, NetworkIdentity, RemoteCallOutcome};
use unity_mirror_rs::network_writer::NetworkWriter;
use unity_mirror_rs::remote_calls::{RemoteCallType, RemoteProcedureCalls};
use unity_mirror_rs::stable_hash::fn_hash;

fn identity(behaviours: Vec<NetworkBehaviour>) -> NetworkIdentity {
    let n = behaviours.len();
    NetworkIdentity::new(1, "object".to_string(), 0, 0, behaviours, n)
}

#[test]
fn initial_state_sends_every_component() {
    let mut id = identity(vec![NetworkBehaviour::default(), NetworkBehaviour::default()]);
    assert_eq!(id.server_dirty_masks(true), (3, 3));
    let mut owner = NetworkWriter::new();
    let mut observers = NetworkWriter::new();
    id.serialize_server(true, &mut owner, &mut observers);
    assert_eq!(owner.to_vec(), vec![3, 0, 0]);
    assert_eq!(observers.to_vec(), vec![3, 0, 0]);
}

#[test]
fn clean_components_send_nothing() {
    let mut id = identity(vec![NetworkBehaviour::default()]);
    assert_eq!(id.server_dirty_masks(false), (0, 0));
    let mut owner = NetworkWriter::new();
    let mut observers = NetworkWriter::new();
    id.serialize_server(false, &mut owner, &mut observers);
    assert!(owner.to_vec().is_empty());
    assert!(observers.to_vec().is_empty());
}

#[test]
fn dirty_component_is_sent_then_cleared() {
    let mut dirty = NetworkBehaviour::default();
    dirty.sync_object_dirty_bits = 5;
    dirty.sync_interval_elapsed = true;
    let mut owner_only = NetworkBehaviour::default();
    owner_only.sync_mode = SyncMode::Owner;
    owner_only.sync_var_dirty_bits = 1;
    owner_only.sync_interval_elapsed = true;
    let mut id = identity(vec![NetworkBehaviour::default(), dirty, owner_only]);
    assert_eq!(id.server_dirty_masks(false), (6, 2));
    let mut owner = NetworkWriter::new();
    let mut observers = NetworkWriter::new();
    id.serialize_server(false, &mut owner, &mut observers);
    assert_eq!(
        owner.to_vec(),
        vec![6, 8, 5, 0, 0, 0, 0, 0, 0, 0, 8, 0, 0, 0, 0, 0, 0, 0, 0]
    );
    assert_eq!(observers.to_vec(), vec![2, 8, 5, 0, 0, 0, 0, 0, 0, 0]);
    assert!(!id.behaviours[1].is_dirty());
    assert!(!id.behaviours[2].is_dirty());
    assert_eq!(id.server_dirty_masks(false), (0, 0));
}

#[test]
fn serialization_is_cached_per_tick() {
    let mut dirty = NetworkBehaviour::default();
    dirty.sync_object_dirty_bits = 1;
    dirty.sync_interval_elapsed = true;
    let mut id = identity(vec![dirty]);
    let (owner, observers) = id.get_server_serialization_at_tick(7);
    assert_eq!(owner, vec![1, 8, 1, 0, 0, 0, 0, 0, 0, 0]);
    assert_eq!(observers, owner);
    let (again, _) = id.get_server_serialization_at_tick(7);
    assert_eq!(again, owner);
    let (later, _) = id.get_server_serialization_at_tick(8);
    assert!(later.is_empty());
}

#[test]
fn dirty_bits_of_a_mask() {
    assert!(NetworkIdentity::is_dirty(0b100, 2));
    assert!(!NetworkIdentity::is_dirty(0b100, 1));
}

#[test]
fn observers_are_added_once() {
    let mut id = identity(vec![]);
    assert!(id.add_observer(4));
    assert!(!id.add_observer(4));
    assert!(id.add_observer(5));
    id.remove_observer(4);
    assert_eq!(id.observers, vec![5]);
    assert_eq!(id.clear_observers(), vec![5]);
    assert!(id.observers.is_empty());
}

#[test]
fn authority_changes_are_noticed() {
    let mut id = identity(vec![]);
    id.is_owned = true;
    assert_eq!(id.notify_authority(), AuthorityChange::Started);
    assert_eq!(id.notify_authority(), AuthorityChange::Unchanged);
    id.set_client_owner(3);
    assert_eq!(id.connection(), Some(3));
    id.add_observer(9);
    let (change, observers) = id.reset_state();
    assert_eq!(change, AuthorityChange::Stopped);
    assert_eq!(observers, vec![9]);
    assert_eq!(id.net_id(), 0);
    assert_eq!(id.connection(), None);
}

#[test]
fn remote_calls_reach_their_delegate() {
    let mut calls = RemoteProcedureCalls::new();
    let hash = calls.register_command(10, "System.Void Player::CmdJump()", 77, true);
    assert_eq!(hash, fn_hash("System.Void Player::CmdJump()"));
    assert!(calls.command_requires_authority(hash));
    assert_eq!(calls.invoke(hash, RemoteCallType::Command), Some(77));
    assert_eq!(calls.invoke(hash, RemoteCallType::ClientRpc), None);
    let id = identity(vec![NetworkBehaviour::default()]);
    assert_eq!(id.handle_remote_call(&calls, 0, hash, RemoteCallType::Command), RemoteCallOutcome::Invoke(77));
    assert_eq!(id.handle_remote_call(&calls, 1, hash, RemoteCallType::Command), RemoteCallOutcome::ComponentOutOfBounds);
    assert_eq!(id.handle_remote_call(&calls, 0, hash.wrapping_add(1), RemoteCallType::Command), RemoteCallOutcome::NoReceiver);
    assert_eq!(calls.get_function_method_name(hash), Some("System.Void Player::CmdJump()".to_string()));
    calls.remove_delegate(hash);
    assert_eq!(calls.invoke(hash, RemoteCallType::Command), None);
}

#[test]
fn awake_numbers_components_and_spots_a_second_spawn() {
    let mut id = identity(vec![NetworkBehaviour::default(), NetworkBehaviour::default()]);
    assert!(!id.awake());
    assert_eq!(id.behaviours[1].component_index, 1);
    assert!(id.has_spawned);
    assert!(id.awake());
}
