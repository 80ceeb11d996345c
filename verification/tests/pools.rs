use unity_mirror_rs::network_reader_pool::NetworkReaderPool;
use unity_mirror_rs::network_writer::NetworkWriter;
use unity_mirror_rs::network_writer_pool::{NetworkWriterPool, POOL_CAPACITY};

#[test]
fn test_network_writer_pool() {}

#[test]
fn new_writer_is_empty() {
    let writer = NetworkWriter::new();
    assert_eq!(writer.position(), 0);
    assert!(writer.to_vec().is_empty());
}

#[test]
fn writer_pool_hands_out_empty_writers() {
    let mut pool = NetworkWriterPool::with_capacity(2);
    assert_eq!(pool.count(), 2);
    let mut w = pool.get();
    assert_eq!(pool.count(), 1);
    w.write_byte(5);
    pool.return_(w);
    assert_eq!(pool.count(), 2);
    let again = pool.get();
    assert_eq!(again.position(), 0);
    assert!(again.to_vec().is_empty());
}

#[test]
fn empty_writer_pool_makes_new_writers() {
    let mut pool = NetworkWriterPool::with_capacity(0);
    let w = pool.get();
    assert!(w.to_vec().is_empty());
    assert_eq!(pool.count(), 0);
    pool.get_by_closure(|w: &mut NetworkWriter| w.write_byte(1));
    assert_eq!(pool.count(), 1);
}

#[test]
fn default_pools_start_full() {
    assert_eq!(NetworkWriterPool::new().count(), POOL_CAPACITY);
    assert_eq!(NetworkReaderPool::new().count(), POOL_CAPACITY);
}

#[test]
fn reader_pool_reads_a_copy_of_the_segment() {
    let mut pool = NetworkReaderPool::with_capacity(1);
    let mut r = pool.get_with_slice(&[1, 2, 3]);
    assert_eq!(pool.count(), 0);
    assert_eq!(r.read_byte(), 1);
    pool.return_(r);
    let back = pool.get();
    assert_eq!(back.position(), 0);
    let mut seen = Vec::new();
    pool.get_with_slice_return(&[7, 8], |r| seen.push(r.read_byte()));
    assert_eq!(seen, vec![7]);
    pool.get_return(|r| assert_eq!(r.position(), 0));
    assert_eq!(pool.count(), 1);
}
