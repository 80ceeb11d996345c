use unity_mirror_rs::message::{max_content_size, max_message_size, unpack_id, MessageDeserializer, NetworkMessage};
use unity_mirror_rs::message_types::{
    AddPlayerMessage, ChangeOwnerMessage, CommandMessage, EntityStateMessage, ObjectDestroyMessage, ReadyMessage,
    RpcMessage, SceneMessage, SceneOperation,
};
use unity_mirror_rs::network_reader::NetworkReader;
use unity_mirror_rs::network_server::pack;
use unity_mirror_rs::spawn_message::{AuthorityFlags, SpawnMessage};
use unity_mirror_rs::transport::TransportChannel;

#[test]
fn empty_message_is_its_id() {
    let mut m = ReadyMessage;
    let bytes = pack(&mut m);
    assert_eq!(bytes, 43708u16.to_le_bytes().to_vec());
    assert_eq!(ReadyMessage::message_id(), 43708);
    assert_eq!(AddPlayerMessage::message_id(), 49414);
}

#[test]
fn unpack_id_reads_the_header() {
    let mut r = NetworkReader::new(vec![0xBC, 0xAA, 9]);
    assert_eq!(unpack_id(&mut r), Some(0xAABC));
    assert_eq!(r.position(), 2);
    let mut zero = NetworkReader::new(vec![0, 0]);
    assert_eq!(unpack_id(&mut zero), None);
    let mut short = NetworkReader::new(vec![1]);
    assert_eq!(unpack_id(&mut short), None);
}

#[test]
fn destroy_message_round_trips() {
    let mut m = ObjectDestroyMessage::new(300);
    let bytes = pack(&mut m);
    assert_eq!(bytes.len(), 4);
    assert_eq!(&bytes[2..], &[241, 60]);
    let mut r = NetworkReader::new(bytes[2..].to_vec());
    assert_eq!(ObjectDestroyMessage::deserialize(&mut r), ObjectDestroyMessage::new(300));
}

#[test]
fn change_owner_message_round_trips() {
    let mut m = ChangeOwnerMessage::new(7, true, false);
    let bytes = pack(&mut m);
    assert_eq!(&bytes[2..], &[7, 1, 0]);
    let mut r = NetworkReader::new(bytes[2..].to_vec());
    assert_eq!(ChangeOwnerMessage::deserialize(&mut r), m);
}

#[test]
fn command_message_round_trips() {
    let mut m = CommandMessage::new(5, 2, 0x1234, vec![1, 2, 3, 4, 5, 6]);
    let bytes = pack(&mut m);
    assert_eq!(&bytes[2..], &[5, 2, 0x34, 0x12, 7, 1, 2, 3, 4, 5, 6]);
    let mut r = NetworkReader::new(bytes[2..].to_vec());
    let back = CommandMessage::deserialize(&mut r);
    assert_eq!(back, m);
    assert_eq!(back.get_payload_content(), vec![5, 6]);
}

#[test]
fn entity_state_message_round_trips() {
    let mut m = EntityStateMessage::new(1000, vec![9, 9]);
    let bytes = pack(&mut m);
    let mut r = NetworkReader::new(bytes[2..].to_vec());
    let back = EntityStateMessage::deserialize(&mut r);
    assert_eq!(back, m);
    assert_eq!(r.remaining(), 0);
}

#[test]
fn scene_message_round_trips() {
    let mut m = SceneMessage::new("Room".to_string(), SceneOperation::LoadAdditive, true);
    let bytes = pack(&mut m);
    assert_eq!(&bytes[2..], &[5, 0, b'R', b'o', b'o', b'm', 1, 1]);
    let mut r = NetworkReader::new(bytes[2..].to_vec());
    assert_eq!(SceneMessage::deserialize(&mut r), m);
}

#[test]
fn scene_operation_numbers() {
    assert_eq!(SceneOperation::from(2), SceneOperation::UnloadAdditive);
    assert_eq!(SceneOperation::from(9), SceneOperation::Normal);
    assert_eq!(SceneOperation::LoadAdditive.to_u8(), 1);
}

#[test]
fn spawn_message_flags() {
    let mut m = SpawnMessage::new(3, true, false, 0, 11, [0; 10], vec![]);
    assert!(m.is_local_player());
    assert!(!m.is_owner());
    m.set_is_owner(true);
    assert!(m.is_owner());
    assert!(m.has_flag(AuthorityFlags::IsLocalPlayer));
    m.set_is_local_player(false);
    assert!(!m.is_local_player());
    assert!(!m.has_flag(AuthorityFlags::NoFlag));
    assert_eq!(AuthorityFlags::IsLocalPlayer.bits(), 2);
}

#[test]
fn message_size_limits() {
    assert_eq!(max_content_size(TransportChannel::Reliable), 1500);
    assert_eq!(max_message_size(TransportChannel::Reliable), 1502);
    assert_eq!(max_message_size(TransportChannel::Unreliable), 1502);
}

#[test]
fn rpc_message_round_trips() {
    let mut m = RpcMessage::new(300, 1, 0xBEEF, vec![4, 4]);
    let bytes = pack(&mut m);
    assert_eq!(&bytes[..2], &RpcMessage::message_id().to_le_bytes());
    assert_eq!(&bytes[2..], &[241, 60, 1, 0xEF, 0xBE, 3, 4, 4]);
    let mut r = NetworkReader::new(bytes[2..].to_vec());
    let back = RpcMessage::deserialize(&mut r);
    assert_eq!(back, m);
    assert_eq!(r.remaining(), 0);
    assert_ne!(RpcMessage::message_id(), CommandMessage::message_id());
}

#[test]
fn spawn_message_bytes_carry_the_transform() {
    let transform = [1, 2, 3, 0, 0, 0, 0x3F80_0000, 0x3F80_0000, 0x3F80_0000, 0x3F80_0000];
    let mut m = SpawnMessage::new(300, false, true, 7, 9, transform, vec![5, 6]);
    let bytes = m.to_bytes();
    let mut expected = Vec::new();
    expected.extend_from_slice(&bytes[..2]);
    expected.extend_from_slice(&[241, 60, 1, 7, 9]);
    for t in transform {
        expected.extend_from_slice(&t.to_le_bytes());
    }
    expected.extend_from_slice(&[3, 5, 6]);
    assert_eq!(bytes, expected);
    assert_eq!(bytes.len(), 2 + 5 + 40 + 3);
    assert_eq!(m.transform, transform);
}
