use hydrogen::connection::user::User as LayerUser;
use hydrogen::inner::protocol::core_packets::{AcknowledgePacket, DisconnectPacket, ReliablePacket};
use hydrogen::inner::protocol::root_packets::JoinGame;
use hydrogen::inner::protocol::Packet;
use hydrogen::manager::user::PeerAddr;
use hydrogen::networking::buffer::Buffer;
use hydrogen::networking::hazel_message::HazelMessage;

#[test]
fn big_endian_reads() {
    let mut b = Buffer::new(vec![0x12, 0x34, 0, 0, 1, 0]);
    assert_eq!(b.read_uint_16(), 0x1234);
    assert_eq!(b.read_int_32(), 256);
    assert_eq!(b.position(), 6);
}

#[test]
fn little_endian_unsigned_read() {
    let mut b = Buffer::new(vec![1, 0, 0, 0]);
    assert_eq!(b.read_uint_32(), 1);
}

#[test]
fn string_takes_its_length_byte_as_text() {
    let mut b = Buffer::new(vec![2, 65, 66]);
    assert_eq!(b.read_string(), "\u{2}AB");
    assert_eq!(b.position(), 3);
}

#[test]
fn write_uint_16_moves_the_cursor_by_four() {
    let mut b = Buffer::new(vec![9]);
    b.write_uint_16(0x0102);
    assert_eq!(b.array(), vec![1, 2, 9]);
    assert_eq!(b.position(), 4);
}

#[test]
fn layer_message_roundtrip() {
    let mut m = HazelMessage::start_message(7);
    m.payload().write_byte(1);
    m.payload().write_byte(2);
    m.end_message();
    let bytes = m.payload().array();
    assert_eq!(bytes, vec![0, 2, 7, 1, 2]);
    let mut b = Buffer::new(bytes);
    let mut read = HazelMessage::read(&mut b).unwrap();
    assert_eq!(read.length(), 2);
    assert_eq!(read.tag(), 7);
    assert_eq!(read.payload().array(), vec![1, 2]);
    assert_eq!(b.position(), 3);
}

#[test]
fn layer_reliable_packet() {
    let mut packet = ReliablePacket { nonce: 1, hazel_msg: None };
    assert_eq!(packet.get_packet_id(), 1);
    let mut b = Buffer::new(vec![0, 1, 5, 9]);
    packet.deserialize(&mut b);
    assert_eq!(packet.hazel_msg.as_ref().unwrap().tag(), 5);
    assert_eq!(packet.hazel_msg.as_ref().unwrap().length(), 1);
    let mut short = ReliablePacket { nonce: 1, hazel_msg: None };
    let mut c = Buffer::new(vec![0, 1, 5]);
    short.deserialize(&mut c);
    assert!(short.hazel_msg.is_none());
}

#[test]
fn layer_packet_ids() {
    assert_eq!(AcknowledgePacket { nonce: 0 }.get_packet_id(), 0x0a);
    assert_eq!(DisconnectPacket.get_packet_id(), 0x09);
}

#[test]
fn layer_join_reads_four_bytes() {
    let mut join = JoinGame { code: None };
    let mut b = Buffer::new(vec![1, 2, 3, 4, 5]);
    join.deserialize(&mut b);
    assert_eq!(join.code, None);
    assert_eq!(b.position(), 4);
}

#[test]
fn layer_acknowledgement_bytes() {
    let user = LayerUser { addr: PeerAddr { ip: 1, port: 2 } };
    assert_eq!(user.ack_bytes(0x0102), vec![0x0a, 1, 2, 0, 0, 0xff]);
    assert_eq!(LayerUser::from(&user).get_address(), PeerAddr { ip: 1, port: 2 });
}

#[test]
fn layer_serialize_copies_the_buffer() {
    let packet = ReliablePacket { nonce: 1, hazel_msg: None };
    let mut b = Buffer::new(vec![4, 5]);
    b.set_position(1);
    let copy = packet.serialize(&mut b);
    assert_eq!(copy.array(), vec![4, 5]);
    assert_eq!(copy.position(), 1);
}
