#![allow(non_snake_case)]
use vstd::prelude::*;
use crate::inner::rooms::GameRoom;
use crate::manager::user::User;
use crate::util::buffer::{lemma_splice_twice, packed_ends_at, string_at, Buffer};
use crate::util::bytes::{
    i8_bits, le_u32, lemma_packed_end_bounds, packed_end, packed_terminates, string_chars_at,
    string_end_at, string_frame, string_readable_at, u16_be, u32_as_i32, u8_as_i8,
};
use crate::util::hazel::{end_message_bytes, hazel_read_result, hazel_readable, HazelMessage};
use crate::util::structs::structs::PlatformSpecificData;

verus! {

/// A packet that the server writes.
pub trait Packet: Sized {
    /// The packet can be written at the cursor of `buffer`.
    spec fn serializable(&self, buffer: Buffer) -> bool;

    /// `bytes` are the packet's bytes (for a packet that walks a map, in some
    /// order of it).
    spec fn serialized_as(&self, bytes: Seq<u8>) -> bool;

    fn serialize(self, buffer: &mut Buffer)
        requires
            self.serializable(*old(buffer)),
        ensures
            exists|bytes: Seq<u8>| #[trigger]
                self.serialized_as(bytes) && final(buffer).wrote(*old(buffer), bytes),
    ;
}

/// The acknowledgement of the packet with nonce `nonce`.
#[derive(Debug)]
pub struct AcknowledgementPacket {
    pub nonce: u16,
}

/// A client's greeting: its version, name, language, chat mode and platform,
/// and whether it runs mods.
#[derive(Debug)]
pub struct HelloPacket {
    pub nonce: u16,
    pub version: Option<i32>,
    pub username: Option<String>,
    pub lastNonce: Option<u32>,
    pub lastLanguage: Option<u32>,
    pub chatMode: Option<i8>,
    pub platformData: Option<PlatformSpecificData>,
    pub modded: bool,
}

/// A packet that must be acknowledged: its nonce, the tag of its message
/// and the message.
#[derive(Debug)]
pub struct ReliablePacket {
    pub nonce: u16,
    pub reliable_packet_id: Option<u8>,
    pub hazel_message: Option<HazelMessage>,
    pub buffer: Buffer,
}

/// A keep-alive.
#[derive(Debug)]
pub struct PingPacket {
    pub nonce: u16,
}

/// A disconnection, with its kind and reason when there are both.
#[derive(Debug)]
pub struct DisconnectPacket {
    pub disconnect_type: Option<i8>,
    pub reason: Option<String>,
}

impl Packet for AcknowledgementPacket {
    open spec fn serializable(&self, buffer: Buffer) -> bool {
        buffer.can_write(3)
    }

    /// The nonce, big-endian, then 0xff.
    open spec fn serialized_as(&self, bytes: Seq<u8>) -> bool {
        bytes == u16_be(self.nonce) + seq![0xffu8]
    }

    fn serialize(self, buffer: &mut Buffer) {
        let ghost a0 = buffer.array@;
        let ghost p0 = buffer.position as int;
        buffer.write_u16(self.nonce);
        buffer.write_u8(0xff);
        proof {
            lemma_splice_twice(a0, p0, u16_be(self.nonce), seq![0xffu8]);
            assert(self.serialized_as(u16_be(self.nonce) + seq![0xffu8]));
        }
    }
}

/// The body of a disconnect message: the kind and the reason when there
/// are both, else nothing.
pub open spec fn disconnect_body(disconnect_type: Option<i8>, reason: Option<Seq<char>>) -> Seq<u8> {
    if disconnect_type is Some && reason is Some {
        seq![i8_bits(disconnect_type.unwrap())] + string_frame(reason.unwrap())
    } else {
        Seq::empty()
    }
}

impl DisconnectPacket {
    /// The reason's characters, if there is a reason.
    pub open spec fn reason_chars(&self) -> Option<Seq<char>> {
        match self.reason {
            Some(r) => Some(r@),
            None => None,
        }
    }
}

impl Packet for DisconnectPacket {
    open spec fn serializable(&self, buffer: Buffer) -> bool {
        let body = disconnect_body(self.disconnect_type, self.reason_chars());
        (1 + body.len()) % 0x1_0000 != 0 && buffer.can_write(body.len() + 3)
    }

    /// A message tagged 0 that holds the kind and the reason, when there
    /// are both.
    open spec fn serialized_as(&self, bytes: Seq<u8>) -> bool {
        bytes == end_message_bytes(seq![0u8] + disconnect_body(self.disconnect_type, self.reason_chars()))
    }

    fn serialize(self, buffer: &mut Buffer) {
        let ghost me = self;
        let ghost body = disconnect_body(self.disconnect_type, self.reason_chars());
        let mut hazel_message = HazelMessage::start_message(0x00);
        match (self.disconnect_type, self.reason) {
            (Some(t), Some(r)) => {
                let ghost chars = r@;
                hazel_message.buffer.write_i8(t);
                hazel_message.buffer.write_string(r);
                proof {
                    assert(hazel_message.buffer.array@ =~= seq![0u8] + body);
                }
            },
            _ => {
                assert(hazel_message.buffer.array@ =~= seq![0u8] + body);
            },
        }
        hazel_message.end_message();
        hazel_message.copy_to(buffer);
        assert(me.serialized_as(end_message_bytes(seq![0u8] + body)));
    }
}

// ---------------------------------------------------------------------
// The layout of a hello packet after its nonce.
// ---------------------------------------------------------------------
/// A hello at `p`: a byte that is skipped, a four-byte version, the name,
/// a four-byte nonce and language, a chat mode byte, the platform message,
/// a string and four bytes that are skipped, then, when bytes remain, two
/// bytes and a packed mod count.
pub open spec fn hello_name_pos(p: int) -> int {
    p + 5
}

/// Where the four-byte nonce after the name starts.
pub open spec fn hello_after_name(a: Seq<u8>, p: int) -> int {
    string_end_at(a, hello_name_pos(p))
}

/// Where the platform message starts.
pub open spec fn hello_platform_pos(a: Seq<u8>, p: int) -> int {
    hello_after_name(a, p) + 9
}

/// Where the string after the platform message starts.
pub open spec fn hello_after_platform(a: Seq<u8>, p: int) -> int {
    hazel_read_result(a, hello_platform_pos(a, p)).unwrap().2
}

/// Where the optional mod part starts.
pub open spec fn hello_tail(a: Seq<u8>, p: int) -> int {
    string_end_at(a, hello_after_platform(a, p)) + 4
}

/// The hello at `p` can be read.
pub open spec fn hello_readable(a: Seq<u8>, p: int) -> bool {
    let e1 = hello_after_name(a, p);
    let m = hello_platform_pos(a, p);
    let t = hello_tail(a, p);
    &&& 0 <= p
    &&& a.len() + 0x1_0000 <= usize::MAX
    &&& p + 5 <= a.len()
    &&& string_readable_at(a, hello_name_pos(p))
    &&& e1 + 9 <= a.len()
    &&& hazel_readable(a, m)
    &&& hazel_read_result(a, m) is Some
    &&& string_readable_at(a, m + 3)
    &&& string_readable_at(a, hello_after_platform(a, p))
    &&& t <= a.len()
    &&& t < a.len() ==> t + 2 <= a.len() && packed_terminates(a, t + 2)
}

impl HelloPacket {
    /// Reads the greeting behind the nonce: a byte that is skipped, the
    /// version, the name, the last nonce, the language, the chat mode and the
    /// platform message (its tag and the name it holds); then a string and
    /// four bytes that are skipped. When bytes remain, they are a mod
    /// handshake: two bytes and a packed mod count, and the client runs mods.
    pub fn deserialize(&mut self, buffer: &mut Buffer)
        requires
            hello_readable(old(buffer).array@, old(buffer).position as int),
        ensures
            ({
                let a = old(buffer).array@;
                let p = old(buffer).position as int;
                let e1 = hello_after_name(a, p);
                let m = hello_platform_pos(a, p);
                let t = hello_tail(a, p);
                &&& final(self).nonce == old(self).nonce
                &&& final(self).version == Some(u32_as_i32(le_u32(a.subrange(p + 1, p + 5))))
                &&& final(self).username is Some
                &&& final(self).username.unwrap()@ == string_chars_at(a, hello_name_pos(p))
                &&& final(self).lastNonce == Some(le_u32(a.subrange(e1, e1 + 4)))
                &&& final(self).lastLanguage == Some(le_u32(a.subrange(e1 + 4, e1 + 8)))
                &&& final(self).chatMode == Some(u8_as_i8(a[e1 + 8]))
                &&& final(self).platformData is Some
                &&& final(self).platformData.unwrap().platform == hazel_read_result(a, m).unwrap().1
                &&& final(self).platformData.unwrap().platformName@ == string_chars_at(a, m + 3)
                &&& final(self).modded == (old(self).modded || t < a.len())
                &&& final(buffer).array@ == a
                &&& final(buffer).position == if t < a.len() {
                    packed_end(a, t + 2)
                } else {
                    t
                }
            }),
    {
        let ghost a = buffer.array@;
        let ghost p = buffer.position as int;
        proof {
            assert(buffer.array.len() == a.len());
            lemma_packed_end_bounds(a, hello_name_pos(p));
        }
        buffer.read_i8();
        self.version = Some(buffer.read_i32());
        self.username = Some(buffer.read_string());
        self.lastNonce = Some(buffer.read_u32());
        self.lastLanguage = Some(buffer.read_u32());
        self.chatMode = Some(buffer.read_i8());
        let platform_message = HazelMessage::read_message(buffer);
        let mut platform_message = platform_message.unwrap();
        proof {
            lemma_packed_end_bounds(a, hello_platform_pos(a, p) + 3);
        }
        let platform = platform_message.tag;
        let platformName = platform_message.buffer.read_string();
        self.platformData = Some(PlatformSpecificData { platform, platformName });
        proof {
            lemma_packed_end_bounds(a, hello_after_platform(a, p));
        }
        buffer.read_string();
        buffer.read_u32();
        if buffer.position < buffer.array.len() {
            buffer.read_i8();
            buffer.read_i8();
            buffer.read_packed_uint_32();
            self.modded = true;
        }
    }
}

impl ReliablePacket {
    /// Reads the message at the cursor and keeps it with its tag.
    pub fn deserialize(&mut self, buffer: &mut Buffer)
        requires
            hazel_readable(old(buffer).array@, old(buffer).position as int),
            hazel_read_result(old(buffer).array@, old(buffer).position as int) is Some,
            old(buffer).array.len() + 0x1_0000 <= usize::MAX,
        ensures
            ({
                let a = old(buffer).array@;
                let p = old(buffer).position as int;
                let (length, tag, next) = hazel_read_result(a, p).unwrap();
                &&& final(self).nonce == old(self).nonce
                &&& final(self).buffer == old(self).buffer
                &&& final(self).reliable_packet_id == Some(tag)
                &&& final(self).hazel_message is Some
                &&& final(self).hazel_message.unwrap().length == length
                &&& final(self).hazel_message.unwrap().tag == tag
                &&& final(self).hazel_message.unwrap().buffer.array@ == a
                &&& final(self).hazel_message.unwrap().buffer.position == p + 3
                &&& final(buffer).array@ == a
                &&& final(buffer).position == next
            }),
    {
        let reliable_hazel = HazelMessage::read_message(buffer).unwrap();
        self.reliable_packet_id = Some(reliable_hazel.tag);
        self.hazel_message = Some(reliable_hazel);
    }
}

/// What a datagram is, by its first byte.
#[derive(Clone, Copy, Debug, PartialEq, Eq, Structural)]
pub enum PacketKind {
    Reliable,
    Hello,
    Disconnect,
    Ping,
    Other,
}

/// The kind of a datagram whose first byte is `packet_type`: 1 reliable,
/// 8 hello, 9 disconnect, 12 ping.
pub open spec fn kind_of(packet_type: u8) -> PacketKind {
    if packet_type == 8 {
        PacketKind::Hello
    } else if packet_type == 1 {
        PacketKind::Reliable
    } else if packet_type == 12 {
        PacketKind::Ping
    } else if packet_type == 9 {
        PacketKind::Disconnect
    } else {
        PacketKind::Other
    }
}

/// The kind of a datagram whose first byte is `packet_type`.
pub fn packet_kind(packet_type: u8) -> (r: PacketKind)
    ensures
        r == kind_of(packet_type),
{
    if packet_type == 8 {
        PacketKind::Hello
    } else if packet_type == 1 {
        PacketKind::Reliable
    } else if packet_type == 12 {
        PacketKind::Ping
    } else if packet_type == 9 {
        PacketKind::Disconnect
    } else {
        PacketKind::Other
    }
}

/// What a reliable message asks, by its tag.
#[derive(Clone, Copy, Debug, PartialEq, Eq, Structural)]
pub enum ReliableKind {
    HostGame,
    JoinGame,
    GameData,
    Other,
}

/// The request of a reliable message with tag `id`: 0 hosts a game, 1 joins
/// one, 5 carries game data.
pub open spec fn reliable_kind_of(id: u8) -> ReliableKind {
    if id == 0 {
        ReliableKind::HostGame
    } else if id == 1 {
        ReliableKind::JoinGame
    } else if id == 5 {
        ReliableKind::GameData
    } else {
        ReliableKind::Other
    }
}

/// Reliable dispatch by tag: tag 0 and no other is a request to host a game,
/// tag 1 and no other a request to join one, tag 5 and no other game data;
/// every other tag asks nothing of the server.
pub proof fn lemma_reliable_dispatch(tag: u8)
    ensures
        (reliable_kind_of(tag) == ReliableKind::HostGame) == (tag == 0u8),
        (reliable_kind_of(tag) == ReliableKind::JoinGame) == (tag == 1u8),
        (reliable_kind_of(tag) == ReliableKind::GameData) == (tag == 5u8),
        (reliable_kind_of(tag) == ReliableKind::Other) == (tag != 0u8 && tag != 1u8 && tag
            != 5u8),
{
}

/// Datagram dispatch by first byte: 1 and no other is reliable, 8 and no
/// other a hello, 9 and no other a disconnection, 12 and no other a ping;
/// every other byte is none of these.
pub proof fn lemma_datagram_dispatch(first: u8)
    ensures
        (kind_of(first) == PacketKind::Reliable) == (first == 1u8),
        (kind_of(first) == PacketKind::Hello) == (first == 8u8),
        (kind_of(first) == PacketKind::Disconnect) == (first == 9u8),
        (kind_of(first) == PacketKind::Ping) == (first == 12u8),
        (kind_of(first) == PacketKind::Other) == (first != 1u8 && first != 8u8 && first != 9u8
            && first != 12u8),
{
}

impl ReliablePacket {
    /// What the packet's message asks.
    pub fn kind(&self) -> (r: ReliableKind)
        requires
            self.reliable_packet_id is Some,
        ensures
            r == reliable_kind_of(self.reliable_packet_id.unwrap()),
    {
        let id = self.reliable_packet_id.unwrap();
        if id == 0 {
            ReliableKind::HostGame
        } else if id == 1 {
            ReliableKind::JoinGame
        } else if id == 5 {
            ReliableKind::GameData
        } else {
            ReliableKind::Other
        }
    }
}

impl DisconnectPacket {
    /// The decision on the disconnection of `user`, whose seat is in `room`:
    /// the seat is taken out; when it was the host's, another player becomes
    /// host, and when no one is left the result is `true`: the room is to be
    /// destroyed.
    pub fn process(&self, user: &User, room: &mut GameRoom) -> (destroy: bool)
        requires
            user.player is Some,
        ensures
            ({
                let id = user.player.unwrap().id;
                &&& final(room).players@ == old(room).players@.remove(id)
                &&& destroy == (old(room).host == id && final(room).players@.len() == 0)
                &&& old(room).players@.contains_key(id) ==> (destroy == (old(room).host == id
                    && old(room).players@.len() == 1))
                &&& !destroy && old(room).players@.contains_key(old(room).host)
                    ==> final(room).players@.contains_key(final(room).host)
                &&& old(room).host != id ==> final(room).host == old(room).host
            }),
            final(room).state == old(room).state,
            final(room).code == old(room).code,
            final(room).game_data == old(room).game_data,
            final(room).vote_ban_system == old(room).vote_ban_system,
            final(room).lobby_behavior == old(room).lobby_behavior,
            final(room).waiting_for_host == old(room).waiting_for_host,
    {
        let id = user.player.as_ref().unwrap().id;
        let ghost m = room.players@;
        let destroy = room.remove_player(id);
        proof {
            if m.contains_key(id) {
                assert(m.remove(id).dom() =~= m.dom().remove(id));
                assert(m.remove(id).len() == m.len() - 1);
            }
        }
        destroy
    }
}

/// Whether the hello at the cursor of `buffer` can be read.
pub fn hello_check(buffer: &Buffer) -> (r: bool)
    ensures
        r == hello_readable(buffer.array@, buffer.position as int),
{
    let a = &buffer.array;
    let p = buffer.position;
    if a.len() > usize::MAX - 0x1_0000 {
        return false;
    }
    if p > a.len() || a.len() - p < 5 {
        return false;
    }
    let e1 = match string_at(a, p + 5) {
        Some(e) => e,
        None => return false,
    };
    if a.len() - e1 < 9 {
        return false;
    }
    let m = e1 + 9;
    if m + 3 >= a.len() {
        return false;
    }
    let length = a[m] as usize + a[m + 1] as usize * 256;
    let next = m + 3 + length;
    proof {
        assert(a@.subrange(m as int, m + 2) =~= seq![a@[m as int], a@[m + 1]]);
        assert(hello_after_platform(a@, p as int) == next);
    }
    if string_at(a, m + 3).is_none() {
        return false;
    }
    let e2 = match string_at(a, next) {
        Some(e) => e,
        None => return false,
    };
    if a.len() - e2 < 4 {
        return false;
    }
    let t = e2 + 4;
    if t < a.len() {
        if a.len() - t < 2 {
            return false;
        }
        packed_ends_at(a, t + 2)
    } else {
        true
    }
}

} // verus!
