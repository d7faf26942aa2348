use hydrogen::util::buffer::{packed_at, packed_ends_at, string_at, Buffer};
use hydrogen::util::hazel::HazelMessage;
use hydrogen::util::util::{convert, convert_only_two, sid_greater_than, to_string};
use hydrogen::util::vector::PackedVector2;

fn empty() -> Buffer {
    Buffer { position: 0, array: Vec::new() }
}

#[test]
fn u16_big_endian_roundtrip() {
    let mut b = empty();
    b.write_u16(0x1234);
    assert_eq!(b.array, vec![0x12, 0x34]);
    b.position = 0;
    assert_eq!(b.read_u16(), 0x1234);
    assert_eq!(b.position, 2);
}

#[test]
fn u16_little_endian_roundtrip() {
    let mut b = empty();
    b.write_u16_le(0x1234);
    assert_eq!(b.array, vec![0x34, 0x12]);
    b.position = 0;
    assert_eq!(b.read_u16_le(), 0x1234);
}

#[test]
fn i32_little_endian_roundtrip() {
    let mut b = empty();
    b.write_i32_le(-2);
    assert_eq!(b.array, vec![0xFE, 0xFF, 0xFF, 0xFF]);
    b.position = 0;
    assert_eq!(b.read_i32(), -2);
}

#[test]
fn i32_big_endian_write_reads_back_little_endian() {
    let mut b = empty();
    b.write_i32(1);
    assert_eq!(b.array, vec![0, 0, 0, 1]);
    b.position = 0;
    assert_eq!(b.read_i32(), 16777216);
}

#[test]
fn writes_insert_at_the_cursor() {
    let mut b = Buffer { position: 1, array: vec![1, 4] };
    b.write_u8(2);
    b.write_u8(3);
    assert_eq!(b.array, vec![1, 2, 3, 4]);
    assert_eq!(b.position, 3);
}

#[test]
fn packed_small_number_roundtrip() {
    let mut b = empty();
    b.write_packed_u32(5);
    assert_eq!(b.array, vec![5]);
    b.position = 0;
    assert_eq!(b.read_packed_uint_32(), 5);
    assert_eq!(b.position, 1);
}

#[test]
fn packed_large_number_bytes_and_read() {
    let mut b = empty();
    b.write_packed_u32(300);
    assert_eq!(b.array, vec![172, 44]);
    b.position = 0;
    assert_eq!(b.read_packed_uint_32(), 44);
    assert_eq!(b.position, 2);
}

#[test]
fn packed_signed_reads_as_written_below_128() {
    let mut b = empty();
    b.write_packed_i32(100);
    b.position = 0;
    assert_eq!(b.read_packed_int_32(), 100);
}

#[test]
fn string_roundtrip() {
    let mut b = empty();
    b.write_string("hello".to_string());
    assert_eq!(b.array, vec![5, 104, 101, 108, 108, 111]);
    b.position = 0;
    assert_eq!(b.read_string(), "hello");
    assert_eq!(b.position, 6);
}

#[test]
fn bool_and_bytes() {
    let mut b = Buffer { position: 0, array: vec![0, 2, 0x80] };
    assert!(!b.read_bool());
    assert!(b.read_bool());
    assert_eq!(b.read_i8(), -128);
}

#[test]
fn clone_keeps_bytes_and_cursor() {
    let b = Buffer { position: 2, array: vec![1, 2, 3] };
    let c = b.clone();
    assert_eq!(c.array, vec![1, 2, 3]);
    assert_eq!(c.position, 2);
}

#[test]
fn vector_roundtrip() {
    let mut b = empty();
    let v = PackedVector2 { x: 0x1234, y: 7 };
    v.write_vector2(&mut b);
    assert_eq!(b.array, vec![0x34, 0x12, 7, 0]);
    b.position = 0;
    assert_eq!(PackedVector2::read_vector2(&mut b), v);
}

#[test]
fn message_frame_roundtrip() {
    let mut m = HazelMessage::start_message(5);
    m.buffer.write_u8(7);
    m.buffer.write_u8(8);
    m.end_message();
    assert_eq!(m.buffer.array, vec![2, 0, 5, 7, 8]);
    assert_eq!(m.buffer.position, 3);
    let mut outer = Buffer { position: 0, array: vec![0xAA] };
    outer.position = 1;
    m.copy_to(&mut outer);
    outer.write_u8(9);
    outer.position = 1;
    let read = HazelMessage::read_message(&mut outer).unwrap();
    assert_eq!(read.length, 2);
    assert_eq!(read.tag, 5);
    assert_eq!(read.buffer.position, 4);
    assert_eq!(outer.position, 6);
}

#[test]
fn message_without_payload_is_not_read() {
    let mut b = Buffer { position: 0, array: vec![0, 0, 5] };
    assert!(HazelMessage::read_message(&mut b).is_none());
    assert_eq!(b.position, 3);
    let mut c = Buffer { position: 0, array: vec![] };
    assert!(HazelMessage::read_message(&mut c).is_none());
    assert_eq!(c.position, 0);
}

#[test]
fn hex_conversion() {
    let hex = convert(&[0x0a, 0xff, 0x00]);
    assert_eq!(hex, vec!["0A".to_string(), "FF".to_string(), "00".to_string()]);
    assert_eq!(convert_only_two(&[0x1b]), vec!["1B".to_string()]);
    assert_eq!(to_string(hex), " 0A FF 00");
}

#[test]
fn sequence_ids() {
    assert!(sid_greater_than(5, 3));
    assert!(!sid_greater_than(3, 5));
    assert!(!sid_greater_than(3, 3));
    assert!(sid_greater_than(32769, 2));
    assert!(!sid_greater_than(32770, 2));
}

#[test]
fn strings_and_packed_numbers_are_located() {
    let a = vec![3, 97, 98, 99, 0x85, 0x01, 2, 0xFF, 0xFE];
    assert_eq!(string_at(&a, 0), Some(4));
    assert!(packed_ends_at(&a, 4));
    assert_eq!(packed_at(&a, 4), (6, 133));
    assert_eq!(string_at(&a, 6), None);
    assert_eq!(string_at(&a, 9), None);
    assert!(!packed_ends_at(&a, 9));
}
