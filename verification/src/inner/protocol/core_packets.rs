use vstd::prelude::*;
use vstd::utf8::*;
use crate::inner::protocol::Packet;
use crate::networking::buffer::Buffer;
use crate::networking::hazel_message::HazelMessage;
use crate::util::bytes::{
    be_u16,
    lemma_packed_end_bounds, packed_end, packed_terminates, packed_u32_value, u8_as_i8,
};

verus! {

/// A client's greeting; of what it carries, only the mod handshake is kept.
pub struct HelloPacket {
    pub nonce: u16,
    pub modded_hello: Option<ModdedHelloPacket>,
    pub client_version: Option<i32>,
    pub username: Option<String>,
    pub auth: Option<i32>,
    pub language: Option<i32>,
    pub chat_mode: Option<i8>,
    pub platform_id: Option<u8>,
    pub platform_name: Option<String>,
    pub protocol_version: Option<i8>,
    pub mod_count: Option<u32>,
}

/// The mod handshake at the end of a greeting.
pub struct ModdedHelloPacket {
    pub protocol_version: i8,
    pub mod_count: u32,
}

/// An acknowledgement of the packet with nonce `nonce`.
pub struct AcknowledgePacket {
    pub nonce: u16,
}

/// A disconnection.
pub struct DisconnectPacket;

/// A mod packet.
pub struct ReactorPacket;

/// A packet that must be acknowledged, with its message.
pub struct ReliablePacket {
    pub nonce: u16,
    pub hazel_msg: Option<HazelMessage>,
}

/// Where the string of this layer at `p` ends: its packed length counts the
/// bytes that follow it.
pub open spec fn net_string_end(a: Seq<u8>, p: int) -> int {
    packed_end(a, p) + packed_u32_value(a, p)
}

/// A string of this layer can be read at `p`: its length ends, is at most
/// 127 and fits, and the bytes it takes (length included) are UTF-8.
pub open spec fn net_string_readable(a: Seq<u8>, p: int) -> bool {
    &&& packed_terminates(a, p)
    &&& packed_u32_value(a, p) <= 127
    &&& net_string_end(a, p) <= a.len()
    &&& valid_utf8(a.subrange(p, net_string_end(a, p)))
}

/// The layout of a greeting at `p`: a byte, a four-byte version, the name,
/// four-byte authentication and language, a chat mode byte, the platform
/// message (three header bytes, then its name), a string and four bytes;
/// then, when bytes remain, a protocol version byte and a packed mod count.
pub open spec fn net_hello_after_name(a: Seq<u8>, p: int) -> int {
    net_string_end(a, p + 5)
}

/// Where the platform message's payload starts.
pub open spec fn net_hello_payload(a: Seq<u8>, p: int) -> int {
    net_hello_after_name(a, p) + 12
}

/// Where the string after the platform's name starts: the payload's own
/// cursor is added to the outer one.
pub open spec fn net_hello_after_platform(a: Seq<u8>, p: int) -> int {
    let q = net_hello_payload(a, p);
    q + net_string_end(a.skip(q), 0)
}

/// Where the optional mod handshake starts.
pub open spec fn net_hello_tail(a: Seq<u8>, p: int) -> int {
    net_string_end(a, net_hello_after_platform(a, p)) + 4
}

/// The greeting at `p` can be read.
pub open spec fn net_hello_readable(a: Seq<u8>, p: int) -> bool {
    let q = net_hello_payload(a, p);
    let t = net_hello_tail(a, p);
    &&& 0 <= p
    &&& p + 5 <= a.len()
    &&& net_string_readable(a, p + 5)
    &&& q < a.len()
    &&& net_string_readable(a.skip(q), 0)
    &&& net_string_readable(a, net_hello_after_platform(a, p))
    &&& t <= a.len()
    &&& t < a.len() ==> packed_terminates(a, t + 1) && packed_u32_value(a, t + 1) <= 127
}

impl Packet for HelloPacket {
    open spec fn deserialize_requires(&self, buffer: Buffer) -> bool {
        net_hello_readable(buffer.bytes(), buffer.cursor() as int)
    }

    fn get_packet_id(&self) -> (r: u8)
        ensures
            r == 8,
    {
        8
    }

    /// Reads the greeting; when bytes remain after it, they are a mod
    /// handshake (a protocol version and a mod count), which is kept.
    fn deserialize(&mut self, buffer: &mut Buffer)
        ensures
            ({
                let a = old(buffer).bytes();
                let p = old(buffer).cursor() as int;
                let t = net_hello_tail(a, p);
                &&& final(buffer).bytes() == a
                &&& if t < a.len() {
                    &&& final(self).modded_hello matches Some(m)
                    &&& final(self).modded_hello.unwrap().protocol_version == u8_as_i8(a[t])
                    &&& final(self).modded_hello.unwrap().mod_count == packed_u32_value(a, t + 1)
                    &&& final(buffer).cursor() == packed_end(a, t + 1)
                } else {
                    &&& final(self).modded_hello == old(self).modded_hello
                    &&& final(buffer).cursor() == t
                }
                &&& final(self).nonce == old(self).nonce
                &&& final(self).client_version == old(self).client_version
                &&& final(self).username == old(self).username
                &&& final(self).auth == old(self).auth
                &&& final(self).language == old(self).language
                &&& final(self).chat_mode == old(self).chat_mode
                &&& final(self).platform_id == old(self).platform_id
                &&& final(self).platform_name == old(self).platform_name
                &&& final(self).protocol_version == old(self).protocol_version
                &&& final(self).mod_count == old(self).mod_count
            }),
    {
        let ghost a = buffer.bytes();
        let ghost p = buffer.cursor() as int;
        proof {
            buffer.lemma_size_bound();
            lemma_packed_end_bounds(a, p + 5);
        }
        let _hazel_version = buffer.read_byte();
        let _client_version = buffer.read_int_32();
        let _username = buffer.read_string();
        let _auth = buffer.read_int_32();
        let _language = buffer.read_uint_32();
        let _chat_mode = buffer.read_byte();
        let hazel_msg = HazelMessage::read(buffer);
        let mut hazel_msg = hazel_msg.unwrap();
        proof {
            let q = net_hello_payload(a, p);
            lemma_packed_end_bounds(a.skip(q), 0);
        }
        let _platform_name = hazel_msg.payload().read_string();
        let platform_end = hazel_msg.payload().position();
        let position = buffer.position();
        buffer.set_position(platform_end + position);
        proof {
            lemma_packed_end_bounds(a, net_hello_after_platform(a, p));
        }
        let _rest = buffer.read_string();
        let _rest_number = buffer.read_uint_32();
        if buffer.position() < buffer.size() {
            let protocol_version = buffer.read_byte();
            let mod_count = buffer.read_packed_uint_32();
            self.modded_hello = Some(ModdedHelloPacket { protocol_version, mod_count: mod_count as u32 });
        }
    }
}

impl Packet for ReliablePacket {
    open spec fn deserialize_requires(&self, buffer: Buffer) -> bool {
        buffer.cursor() + 2 <= usize::MAX
    }

    fn get_packet_id(&self) -> (r: u8)
        ensures
            r == 1,
    {
        1
    }

    /// Reads the message at the cursor, if there is one, and keeps it.
    fn deserialize(&mut self, buffer: &mut Buffer)
        ensures
            ({
                let a = old(buffer).bytes();
                let p = old(buffer).cursor() as int;
                &&& final(buffer).bytes() == a
                &&& final(self).nonce == old(self).nonce
                &&& if p + 3 < a.len() {
                    &&& final(self).hazel_msg matches Some(m)
                    &&& final(self).hazel_msg.unwrap().msg_length() == be_u16(a.subrange(p, p + 2))
                    &&& final(self).hazel_msg.unwrap().msg_tag() == a[p + 2]
                    &&& final(self).hazel_msg.unwrap().msg_payload().bytes() == a.skip(p + 3)
                    &&& final(self).hazel_msg.unwrap().msg_payload().cursor() == 0
                    &&& final(buffer).cursor() == p + 3
                } else {
                    final(self).hazel_msg is None
                }
            }),
    {
        self.set_hazel_msg(HazelMessage::read(buffer));
    }
}

impl ReliablePacket {
    fn set_hazel_msg(&mut self, msg: Option<HazelMessage>)
        ensures
            final(self).hazel_msg == msg,
            final(self).nonce == old(self).nonce,
    {
        self.hazel_msg = msg;
    }
}

impl AcknowledgePacket {
    /// The byte that starts an acknowledgement.
    pub fn get_packet_id(&self) -> (r: u8)
        ensures
            r == 0x0a,
    {
        0x0a
    }
}

impl DisconnectPacket {
    /// The byte that starts a disconnection.
    pub fn get_packet_id(&self) -> (r: u8)
        ensures
            r == 0x09,
    {
        0x09
    }
}

impl HelloPacket {
    /// A greeting writes nothing of its own: the result is a copy of
    /// `buffer`.
    pub fn serialize(&self, buffer: &mut Buffer) -> (r: Buffer)
        ensures
            r.bytes() == old(buffer).bytes(),
            r.cursor() == old(buffer).cursor(),
            *final(buffer) == *old(buffer),
    {
        buffer.clone()
    }
}

impl ReliablePacket {
    /// A reliable packet writes nothing of its own: the result is a copy of
    /// `buffer`.
    pub fn serialize(&self, buffer: &mut Buffer) -> (r: Buffer)
        ensures
            r.bytes() == old(buffer).bytes(),
            r.cursor() == old(buffer).cursor(),
            *final(buffer) == *old(buffer),
    {
        buffer.clone()
    }
}

impl AcknowledgePacket {
    /// An acknowledgement writes nothing of its own: the result is a copy of
    /// `buffer`.
    pub fn serialize(&self, buffer: &mut Buffer) -> (r: Buffer)
        ensures
            r.bytes() == old(buffer).bytes(),
            r.cursor() == old(buffer).cursor(),
            *final(buffer) == *old(buffer),
    {
        buffer.clone()
    }
}

} // verus!
