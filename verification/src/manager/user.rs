#![allow(non_snake_case)]
use vstd::prelude::*;
use crate::manager::states::UserState;
use crate::util::inner::GameCode;
use crate::protocol::packet::{AcknowledgementPacket, DisconnectPacket, Packet};
use crate::util::buffer::{splice, Buffer};
use crate::util::bytes::u16_be;
use crate::util::structs::structs::PlatformSpecificData;

verus! {

/// A peer's socket address: the IP address (IPv4 addresses mapped into
/// IPv6) and the port.
#[derive(Clone, Copy, Debug, PartialEq, Eq, Hash, Structural)]
pub struct PeerAddr {
    pub ip: u128,
    pub port: u16,
}

/// A connected client.
#[derive(Clone, Eq, Hash, PartialEq, Debug)]
pub struct User {
    pub state: UserState,
    pub socketAddr: PeerAddr,
    pub serverNonce: u16,
    pub username: Option<String>,
    pub player: Option<Player>,
    pub platformData: Option<PlatformSpecificData>,
}

/// A user's seat in a game: its player id and the game's code.
#[derive(Clone, Eq, Hash, PartialEq, Debug)]
pub struct Player {
    pub id: i32,
    pub game_code: GameCode,
}

impl PlatformSpecificData {
    /// An equal copy.
    pub fn duplicate(&self) -> (r: PlatformSpecificData)
        ensures
            r == *self,
    {
        PlatformSpecificData { platform: self.platform, platformName: self.platformName.clone() }
    }
}

impl Player {
    /// An equal copy.
    pub fn duplicate(&self) -> (r: Player)
        ensures
            r == *self,
    {
        Player { id: self.id, game_code: self.game_code.duplicate() }
    }
}

impl User {
    /// A user who has just connected from `addr`: nonce 0, no name, no
    /// player, no platform.
    pub fn new(state: UserState, addr: PeerAddr) -> (r: Self)
        ensures
            r.state == state,
            r.socketAddr == addr,
            r.serverNonce == 0,
            r.username is None,
            r.player is None,
            r.platformData is None,
    {
        User {
            state,
            socketAddr: addr,
            serverNonce: 0,
            username: None,
            player: None,
            platformData: None,
        }
    }

    /// An equal copy.
    pub fn duplicate(&self) -> (r: User)
        ensures
            r == *self,
    {
        User {
            state: self.state,
            socketAddr: self.socketAddr,
            serverNonce: self.serverNonce,
            username: match &self.username {
                Some(s) => Some(s.clone()),
                None => None,
            },
            player: match &self.player {
                Some(p) => Some(p.duplicate()),
                None => None,
            },
            platformData: match &self.platformData {
                Some(d) => Some(d.duplicate()),
                None => None,
            },
        }
    }

    /// Seats the user as `player` and returns a copy of the user as it now
    /// stands.
    pub fn assign_player(&mut self, player: Player) -> (r: Option<User>)
        ensures
            *final(self) == (User { player: Some(player), ..*old(self) }),
            r == Some(*final(self)),
    {
        self.player = Some(player);
        Some(self.duplicate())
    }
}

/// The first three bytes of a reliable packet: 1, then the nonce,
/// big-endian.
pub open spec fn reliable_header(nonce: u16) -> Seq<u8> {
    seq![0x01u8] + u16_be(nonce)
}

impl User {
    /// The bytes that acknowledge the packet with nonce `nonce`: 0x0a, the
    /// nonce big-endian, 0xff.
    pub fn ack_buffer(nonce: u16) -> (r: Buffer)
        ensures
            r.array@ == seq![0x0au8] + u16_be(nonce) + seq![0xffu8],
    {
        let mut buffer = Buffer { array: Vec::new(), position: 0 };
        buffer.write_u8(0x0a);
        proof {
            assert(splice(Seq::<u8>::empty(), 0, seq![0x0au8]) =~= seq![0x0au8]);
        }
        let acknowledgement_packet = AcknowledgementPacket { nonce };
        acknowledgement_packet.serialize(&mut buffer);
        assert(buffer.array@ =~= seq![0x0au8] + u16_be(nonce) + seq![0xffu8]);
        buffer
    }
    /// The bytes of `packet` sent reliably to the user: 1, the user's next
    /// nonce big-endian, then the packet's bytes.
    pub fn reliable_buffer<P: Packet>(&self, packet: P) -> (r: Buffer)
        requires
            self.serverNonce < 0xFFFF,
            forall|b: Buffer|
                b.array@ == reliable_header((self.serverNonce + 1) as u16) && b.position == 3
                    ==> #[trigger] packet.serializable(b),
        ensures
            exists|bytes: Seq<u8>| #[trigger]
                packet.serialized_as(bytes) && r.array@ == reliable_header((self.serverNonce + 1) as u16)
                    + bytes,
    {
        let mut buffer = Buffer { array: Vec::new(), position: 0 };
        buffer.write_u8(0x01);
        let nonce = self.serverNonce + 1;
        buffer.write_u16(nonce);
        proof {
            assert(splice(Seq::<u8>::empty(), 0, seq![0x01u8]) =~= seq![0x01u8]);
            assert(splice(seq![0x01u8], 1, u16_be(nonce)) =~= reliable_header(nonce));
            assert(packet.serializable(buffer));
        }
        let ghost a0 = buffer.array@;
        packet.serialize(&mut buffer);
        proof {
            assert forall|bytes: Seq<u8>| splice(a0, 3, bytes) == a0 + bytes by {
                assert(splice(a0, 3, bytes) =~= a0 + bytes);
            }
        }
        buffer
    }

    /// The bytes of a disconnection: 9, 1, then the packet's bytes.
    pub fn disconnect_buffer(disconnect_packet: DisconnectPacket) -> (r: Buffer)
        requires
            forall|b: Buffer|
                b.array@ == seq![0x09u8, 0x01u8] && b.position == 2
                    ==> #[trigger] disconnect_packet.serializable(b),
        ensures
            exists|bytes: Seq<u8>| #[trigger]
                disconnect_packet.serialized_as(bytes) && r.array@ == seq![0x09u8, 0x01u8] + bytes,
    {
        let mut buffer = Buffer { array: Vec::new(), position: 0 };
        buffer.write_i8(0x09);
        buffer.write_i8(1);
        proof {
            assert(splice(Seq::<u8>::empty(), 0, seq![0x09u8]) =~= seq![0x09u8]);
            assert(splice(seq![0x09u8], 1, seq![0x01u8]) =~= seq![0x09u8, 0x01u8]);
            assert(disconnect_packet.serializable(buffer));
        }
        let ghost a0 = buffer.array@;
        disconnect_packet.serialize(&mut buffer);
        proof {
            assert forall|bytes: Seq<u8>| splice(a0, 2, bytes) == a0 + bytes by {
                assert(splice(a0, 2, bytes) =~= a0 + bytes);
            }
        }
        buffer
    }
}

} // verus!
