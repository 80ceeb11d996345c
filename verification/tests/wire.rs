use unity_mirror_rs::quaternion_bits::{pack_quaternion, unpack_quaternion};
use unity_mirror_rs::compress::{ReadCompress, WriteCompress};
use unity_mirror_rs::le_bytes::{decode_le, encode_le};
use unity_mirror_rs::network_reader::NetworkReader;
use unity_mirror_rs::network_writer::NetworkWriter;
use unity_mirror_rs::stable_hash::{fn_hash, hash16, stable_hash};

fn compressed_u64(v: u64) -> Vec<u8> {
    let mut w = NetworkWriter::new();
    v.compress(&mut w);
    w.to_vec()
}

fn decompressed_u64(bytes: Vec<u8>) -> (u64, usize) {
    let mut r = NetworkReader::new(bytes);
    let v = u64::decompress(&mut r);
    (v, r.position())
}

#[test]
fn little_endian_encoding() {
    assert_eq!(encode_le(0x0102_0304, 4), vec![4, 3, 2, 1]);
    assert_eq!(encode_le(258, 2), vec![2, 1]);
    assert_eq!(decode_le(&[4, 3, 2, 1]), 0x0102_0304);
    assert_eq!(decode_le(&[]), 0);
}

#[test]
fn blittable_values_round_trip() {
    let mut w = NetworkWriter::new();
    w.write_blittable::<u32>(0xDEAD_BEEF);
    w.write_blittable::<u16>(513);
    w.write_blittable::<u8>(7);
    w.write_blittable::<bool>(true);
    w.write_blittable::<i32>(-2);
    assert_eq!(w.position(), 12);
    assert_eq!(&w.to_vec()[0..4], &[0xEF, 0xBE, 0xAD, 0xDE]);
    assert_eq!(&w.to_vec()[4..6], &[1, 2]);
    let mut r = NetworkReader::new(w.to_vec());
    assert_eq!(r.read_blittable::<u32>(), 0xDEAD_BEEF);
    assert_eq!(r.read_blittable::<u16>(), 513);
    assert_eq!(r.read_blittable::<u8>(), 7);
    assert!(r.read_blittable::<bool>());
    assert_eq!(r.read_blittable::<i32>(), -2);
    assert_eq!(r.remaining(), 0);
}

#[test]
fn reading_past_the_end_gives_zero() {
    let mut r = NetworkReader::new(vec![1, 2]);
    assert_eq!(r.read_blittable::<u32>(), 0);
}

#[test]
fn compressed_u64_boundaries() {
    assert_eq!(compressed_u64(0), vec![0]);
    assert_eq!(compressed_u64(240), vec![240]);
    assert_eq!(compressed_u64(241), vec![241, 1]);
    assert_eq!(compressed_u64(2287), vec![248, 255]);
    assert_eq!(compressed_u64(2288), vec![249, 0, 0]);
    assert_eq!(compressed_u64(67823), vec![249, 255, 255]);
    assert_eq!(compressed_u64(67824), vec![250, 0xF0, 0x08, 0x01]);
    assert_eq!(compressed_u64(0xFF_FFFF), vec![250, 255, 255, 255]);
    assert_eq!(compressed_u64(0x100_0000), vec![251, 0, 0, 0, 1]);
    assert_eq!(compressed_u64(u64::MAX), vec![255, 255, 255, 255, 255, 255, 255, 255, 255]);
}

#[test]
fn compressed_u64_round_trips() {
    for v in [0u64, 1, 240, 241, 2287, 2288, 67823, 67824, 1 << 24, 1 << 32, 1 << 40, 1 << 48, 1 << 56, u64::MAX] {
        let bytes = compressed_u64(v);
        let n = bytes.len();
        assert_eq!(decompressed_u64(bytes), (v, n));
    }
}

#[test]
fn compressed_signed_values_zigzag() {
    let mut w = NetworkWriter::new();
    (-1i32).compress(&mut w);
    (1i32).compress(&mut w);
    (-(1i64 << 62)).compress(&mut w);
    (i64::MIN).compress(&mut w);
    let bytes = w.to_vec();
    assert_eq!(bytes[0], 1);
    assert_eq!(bytes[1], 2);
    let mut r = NetworkReader::new(bytes);
    assert_eq!(i32::decompress(&mut r), -1);
    assert_eq!(i32::decompress(&mut r), 1);
    assert_eq!(i64::decompress(&mut r), -(1i64 << 62));
    // Decoding shifts the signed value, so the widest values do not come back.
    assert_eq!(i64::decompress(&mut r), 0);
    assert_eq!(r.remaining(), 0);
}

#[test]
fn compressed_u32_round_trips() {
    let mut w = NetworkWriter::new();
    w.write_blittable_compress(300u32);
    w.write_blittable_compress(u32::MAX);
    let mut r = NetworkReader::new(w.to_vec());
    assert_eq!(r.read_blittable_compress::<u32>(), 300);
    assert_eq!(r.read_blittable_compress::<u32>(), u32::MAX);
}

#[test]
fn strings_round_trip() {
    let mut w = NetworkWriter::new();
    w.write_str("héllo");
    w.write_str("");
    let bytes = w.to_vec();
    assert_eq!(&bytes[0..2], &[7, 0]);
    assert_eq!(&bytes[8..10], &[0, 0]);
    let mut r = NetworkReader::new(bytes);
    assert_eq!(r.read_string(), "héllo");
    assert_eq!(r.read_string(), "");
    assert_eq!(r.remaining(), 0);
}

#[test]
fn slices_with_size_round_trip() {
    let mut w = NetworkWriter::new();
    w.write_slice_and_size(&[9, 8, 7]);
    w.write_slice_and_size(&[]);
    assert_eq!(w.to_vec(), vec![4, 9, 8, 7, 0]);
    let mut r = NetworkReader::new(w.to_vec());
    assert_eq!(r.read_slice_and_size().to_vec(), vec![9, 8, 7]);
    assert!(r.read_slice_and_size().is_empty());
}

#[test]
fn writer_reset_empties_it() {
    let mut w = NetworkWriter::new();
    w.write_byte(1);
    w.write_slice(&[1, 2, 3, 4], 1, 2);
    assert_eq!(w.to_vec(), vec![1, 2, 3]);
    w.reset();
    assert_eq!(w.position(), 0);
    assert!(w.to_vec().is_empty());
}

#[test]
fn reader_slices_and_reset() {
    let mut r = NetworkReader::new(vec![1, 2, 3, 4, 5]);
    assert_eq!(r.read_byte(), 1);
    assert_eq!(r.read_slice(2).to_vec(), vec![2, 3]);
    assert_eq!(r.remaining(), 2);
    assert_eq!(r.capacity(), 5);
    r.reset();
    assert_eq!(r.position(), 0);
    r.set_slice(&[6]);
    assert_eq!(r.to_vec(), vec![6]);
}

#[test]
fn stable_hash_is_fnv1a() {
    assert_eq!(stable_hash(""), 0x811c_9dc5);
    assert_eq!(stable_hash("a"), 0xe40c_292c);
    assert_eq!(stable_hash("foo"), 0xa9f3_7ed7);
}

#[test]
fn message_ids_fold_the_hash() {
    assert_eq!(hash16("Mirror.ReadyMessage"), 43708);
    assert_eq!(hash16("Mirror.AddPlayerMessage"), 49414);
    assert_eq!(fn_hash("a"), 10540);
}

#[test]
fn rotation_bits_pack_and_unpack() {
    let packed = pack_quaternion(3, 1023, 0, 512);
    assert_eq!(packed, (3 << 30) | (1023 << 20) | 512);
    assert_eq!(unpack_quaternion(packed), (3, 1023, 0, 512));
    assert_eq!(unpack_quaternion(u32::MAX), (3, 1023, 1023, 1023));
}
