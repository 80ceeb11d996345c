use unity_mirror_rs::network_behaviour::NetworkBehaviour;
use unity_mirror_rs::network_reader::NetworkReader;
use unity_mirror_rs::network_writer::NetworkWriter;
use unity_mirror_rs::sync_list::{Operation, SyncList};

fn values(list: &SyncList<u32>) -> Vec<u32> {
    let mut v = Vec::new();
    for i in 0..list.count() {
        v.push(list.get(i));
    }
    v
}

#[test]
fn operations_change_the_values_and_mark_the_owner_dirty() {
    let mut owner = NetworkBehaviour::default();
    let mut list: SyncList<u32> = SyncList::new();
    list.set_index(3);
    list.add(1, &mut owner);
    list.add(2, &mut owner);
    list.insert(1, 7, &mut owner);
    assert_eq!(values(&list), vec![1, 7, 2]);
    assert_eq!(owner.sync_object_dirty_bits, 1 << 3);
    assert_eq!(list.index_of(&7), Some(1));
    assert!(list.contains(&2));
    list.remove(&7, &mut owner);
    assert_eq!(values(&list), vec![1, 2]);
    list.remove_at(5, &mut owner);
    assert_eq!(values(&list), vec![1, 2]);
    list.clear(&mut owner);
    assert_eq!(list.count(), 0);
}

#[test]
fn events_report_old_and_new_values() {
    let mut owner = NetworkBehaviour::default();
    let mut list: SyncList<u32> = SyncList::new_with_value(vec![4, 5]);
    list.remove_at(0, &mut owner);
    list.add(6, &mut owner);
    let events = list.take_events();
    assert_eq!(events.len(), 2);
    assert_eq!(events[0].operation, Operation::OpRemoveAt);
    assert_eq!(*events[0].reported(), 4);
    assert_eq!(events[1].operation, Operation::OpAdd);
    assert_eq!(events[1].index, 1);
    assert_eq!(*events[1].reported(), 6);
    assert!(list.take_events().is_empty());
}

#[test]
fn ranges_add_and_insert_in_order() {
    let mut owner = NetworkBehaviour::default();
    let mut list: SyncList<u32> = SyncList::new_with_value(vec![1, 5]);
    list.add_range(vec![6, 7], &mut owner);
    list.insert_range(1, vec![2, 3, 4], &mut owner);
    assert_eq!(values(&list), vec![1, 2, 3, 4, 5, 6, 7]);
    let events = list.take_events();
    assert_eq!(events.len(), 5);
    assert_eq!(events[2].operation, Operation::OpInsert);
    assert_eq!(events[4].index, 3);
    let mut untouched = NetworkBehaviour::default();
    list.add_range(vec![], &mut untouched);
    assert_eq!(untouched.sync_object_dirty_bits, 0);
}

#[test]
fn delta_replays_the_changes_on_the_other_side() {
    let mut owner = NetworkBehaviour::default();
    let mut sender: SyncList<u32> = SyncList::new_with_value(vec![1, 2]);
    let mut receiver: SyncList<u32> = SyncList::new_with_value(vec![1, 2]);
    sender.add(3, &mut owner);
    sender.insert(0, 9, &mut owner);
    sender.remove_at(1, &mut owner);
    assert_eq!(values(&sender), vec![9, 2, 3]);
    let mut writer = NetworkWriter::new();
    sender.on_serialize_delta(&mut writer);
    let mut reader = NetworkReader::new(writer.to_vec());
    let mut receiving_owner = NetworkBehaviour::default();
    receiver.on_deserialize_delta(&mut reader, &mut receiving_owner);
    assert_eq!(values(&receiver), vec![9, 2, 3]);
    assert_eq!(reader.remaining(), 0);
    assert_eq!(receiving_owner.sync_object_dirty_bits, 1);
    sender.clear_changes();
    let mut empty = NetworkWriter::new();
    sender.on_serialize_delta(&mut empty);
    assert_eq!(empty.to_vec(), vec![0, 0, 0, 0]);
}

#[test]
fn clear_in_a_delta_empties_the_receiver() {
    let mut owner = NetworkBehaviour::default();
    let mut sender: SyncList<u32> = SyncList::new_with_value(vec![1, 2]);
    let mut receiver: SyncList<u32> = SyncList::new_with_value(vec![1, 2]);
    sender.clear(&mut owner);
    sender.add(8, &mut owner);
    let mut writer = NetworkWriter::new();
    sender.on_serialize_delta(&mut writer);
    let mut reader = NetworkReader::new(writer.to_vec());
    receiver.on_deserialize_delta(&mut reader, &mut owner);
    assert_eq!(values(&receiver), vec![8]);
}

#[test]
fn full_state_then_delta_skips_the_changes_already_held() {
    let mut owner = NetworkBehaviour::default();
    let mut sender: SyncList<u32> = SyncList::new();
    sender.add(10, &mut owner);
    sender.add(20, &mut owner);
    let mut all = NetworkWriter::new();
    sender.on_serialize_all(&mut all);
    assert_eq!(all.to_vec(), vec![2, 0, 0, 0, 10, 0, 0, 0, 20, 0, 0, 0, 2, 0, 0, 0]);
    let mut receiver: SyncList<u32> = SyncList::new();
    let mut reader = NetworkReader::new(all.to_vec());
    receiver.on_deserialize_all(&mut reader);
    assert_eq!(values(&receiver), vec![10, 20]);
    let mut delta = NetworkWriter::new();
    sender.on_serialize_delta(&mut delta);
    let mut reader = NetworkReader::new(delta.to_vec());
    let mut receiving_owner = NetworkBehaviour::default();
    receiver.on_deserialize_delta(&mut reader, &mut receiving_owner);
    assert_eq!(values(&receiver), vec![10, 20]);
    assert_eq!(receiving_owner.sync_object_dirty_bits, 0);
}

#[test]
fn reset_forgets_values_and_changes() {
    let mut owner = NetworkBehaviour::default();
    let mut list: SyncList<u32> = SyncList::new();
    list.add(1, &mut owner);
    list.reset();
    assert_eq!(list.count(), 0);
    let mut w = NetworkWriter::new();
    list.on_serialize_delta(&mut w);
    assert_eq!(w.to_vec(), vec![0, 0, 0, 0]);
}

#[test]
fn operation_numbers_round_trip() {
    for op in [Operation::OpAdd, Operation::OpSet, Operation::OpInsert, Operation::OpRemoveAt, Operation::OpClear] {
        assert_eq!(Operation::from_u8(op.to_u8()), Some(op));
    }
    assert_eq!(Operation::from_u8(5), None);
}

#[test]
fn delta_applies_checks_every_index_before_reading() {
    let mut owner = NetworkBehaviour::default();
    let mut sender: SyncList<u32> = SyncList::new_with_value(vec![1, 2]);
    sender.remove_at(1, &mut owner);
    sender.insert(0, 5, &mut owner);
    let mut writer = NetworkWriter::new();
    sender.on_serialize_delta(&mut writer);
    let bytes = writer.to_vec();
    let matching: SyncList<u32> = SyncList::new_with_value(vec![1, 2]);
    let reader = NetworkReader::new(bytes.clone());
    assert!(matching.delta_applies(&reader));
    assert_eq!(reader.remaining(), bytes.len());
    let shorter: SyncList<u32> = SyncList::new_with_value(vec![]);
    assert!(!shorter.delta_applies(&NetworkReader::new(bytes)));
    // one insertion at index 0, then a removal at index 3 of a list of one
    let bad = vec![2, 0, 0, 0, 2, 0, 0, 0, 0, 7, 0, 0, 0, 3, 3, 0, 0, 0];
    assert!(!shorter.delta_applies(&NetworkReader::new(bad.clone())));
    let three: SyncList<u32> = SyncList::new_with_value(vec![1, 2, 3]);
    assert!(three.delta_applies(&NetworkReader::new(bad)));
}
