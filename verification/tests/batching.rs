use unity_mirror_rs::batching::{batch, unbatch, Batcher, TIMESTAMP_SIZE};

#[test]
fn test_batch_bytes() {
    let b = batch(0x0102030405060708, &[7, 8, 9]);
    assert_eq!(b, vec![8, 7, 6, 5, 4, 3, 2, 1, 3, 7, 8, 9]);
}

#[test]
fn test_batch_then_unbatch() {
    let time = 12.5f64.to_bits();
    let message: Vec<u8> = (0..300u32).map(|i| (i % 251) as u8).collect();
    let b = batch(time, &message);
    assert_eq!(b.len(), TIMESTAMP_SIZE + 2 + 300);
    let (ok, t, messages) = unbatch(&b);
    assert!(ok);
    assert_eq!(t, time);
    assert_eq!(messages, vec![message]);
}

#[test]
fn test_unbatch_too_short() {
    let (ok, t, messages) = unbatch(&[1, 2, 3, 4, 5, 6, 7]);
    assert!(!ok);
    assert_eq!(t, 0);
    assert!(messages.is_empty());
}

#[test]
fn test_unbatch_several_and_truncated() {
    let data = vec![1, 0, 0, 0, 0, 0, 0, 0, 2, 10, 11, 0, 1, 12, 5, 1, 2];
    let (ok, t, messages) = unbatch(&data);
    assert!(ok);
    assert_eq!(t, 1);
    assert_eq!(messages, vec![vec![10, 11], vec![], vec![12]]);
}

#[test]
fn test_unbatch_timestamp_only() {
    let (ok, t, messages) = unbatch(&[0, 0, 0, 0, 0, 0, 0, 0x40]);
    assert!(ok);
    assert_eq!(t, 0x4000_0000_0000_0000);
    assert!(messages.is_empty());
}

#[test]
fn batcher_fills_batches_up_to_the_threshold() {
    let mut b = Batcher::new(14);
    assert_eq!(b.get_batch(), None);
    b.add_message(&[1, 2], 5);
    b.add_message(&[3], 6);
    assert_eq!(b.open_size(), 8 + 3 + 2);
    b.add_message(&[4, 5], 7);
    assert_eq!(b.get_batch(), Some(vec![5, 0, 0, 0, 0, 0, 0, 0, 2, 1, 2, 1, 3]));
    assert_eq!(b.get_batch(), Some(vec![7, 0, 0, 0, 0, 0, 0, 0, 2, 4, 5]));
    assert_eq!(b.get_batch(), None);
    assert_eq!(b.threshold(), 14);
}

#[test]
fn batches_unbatch_into_their_messages() {
    let mut b = Batcher::new(1200);
    let messages: Vec<Vec<u8>> = (0..5u8).map(|i| vec![i; 300]).collect();
    for m in &messages {
        b.add_message(m, 9);
    }
    let mut back = Vec::new();
    while let Some(batch) = b.get_batch() {
        assert!(batch.len() <= 1200);
        let (ok, t, ms) = unbatch(&batch);
        assert!(ok);
        assert_eq!(t, 9);
        back.extend(ms);
    }
    assert_eq!(back, messages);
}

#[test]
fn a_message_larger_than_the_threshold_gets_a_batch_of_its_own() {
    let mut b = Batcher::new(10);
    b.add_message(&[1; 20], 0);
    b.add_message(&[2], 0);
    assert_eq!(b.get_batch().unwrap().len(), 8 + 1 + 20);
    assert_eq!(b.get_batch().unwrap().len(), 8 + 1 + 1);
}
