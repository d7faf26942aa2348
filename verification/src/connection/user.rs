use vstd::prelude::*;
use crate::inner::protocol::core_packets::AcknowledgePacket;
use crate::manager::user::PeerAddr;
use crate::networking::buffer::Buffer;
use crate::util::bytes::u16_be;

verus! {

/// A client of the first protocol layer, known by its address.
#[derive(Clone, Copy)]
pub struct User {
    pub addr: PeerAddr,
}

impl User {
    /// The bytes of the acknowledgement of `packet_nonce`, as this layer
    /// writes them into a zeroed 2048-byte buffer: the id 0x0a, the nonce
    /// big-endian, then, since writing the nonce moves the cursor by four,
    /// two zero bytes before 0xff.
    pub fn ack_bytes(&self, packet_nonce: u16) -> (r: Vec<u8>)
        ensures
            r@ == seq![0x0au8] + u16_be(packet_nonce) + seq![0u8, 0u8, 0xffu8],
    {
        let mut buffer = Buffer::new(vec![0u8; 2048]);
        let packet = AcknowledgePacket { nonce: packet_nonce };
        buffer.write_byte(packet.get_packet_id());
        buffer.write_uint_16(packet_nonce);
        buffer.write_byte(0xff);
        let array = buffer.array();
        let position = buffer.position();
        let r = crate::util::buffer::copy_range(&array, 0, position);
        proof {
            assert(r@ =~= seq![0x0au8] + u16_be(packet_nonce) + seq![0u8, 0u8, 0xffu8]);
        }
        r
    }

    /// The user's address.
    pub fn get_address(&self) -> (r: PeerAddr)
        ensures
            r == self.addr,
    {
        self.addr
    }

    /// A copy of `user`.
    pub fn from(user: &User) -> (r: Self)
        ensures
            r == *user,
    {
        User { addr: user.addr }
    }
}

} // verus!
