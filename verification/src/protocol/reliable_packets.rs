#![allow(non_snake_case)]
use vstd::prelude::*;
use crate::inner::inner::{code_printable, code_text};
use crate::inner::rooms::{code_is_free, GameRoom};
use crate::manager::user::{PeerAddr, User};
use crate::protocol::game_data::game_data::{
    data_processable_at, data_processed_at, spawn_count_at, spawn_first_pos, spawn_id_at,
    spawn_owner_at, spawn_processable, spawn_processed, spawn_read, spawn_readable, DataData,
    GameData, SpawnData,
};
use crate::protocol::packet::Packet;
use crate::util::buffer::{lemma_splice_twice, splice, Buffer};
use crate::util::bytes::{
    i32_bits, i8_bits, le_u32, packed_end, packed_terminates,
    packed_u32_bytes, packed_u32_value, string_frame, u32_as_i32, u32_le,
};
use crate::util::hazel::{end_message_bytes, hazel_read_end, hazel_read_result, hazel_readable, HazelMessage};
use crate::util::inner::GameCode;
use crate::util::structs::structs::{options_end, options_readable, platform_bytes, GameOptionsData};

verus! {

/// A request to host a game; the code is the game's once it is chosen.
pub struct HostGamePacket {
    pub code: Option<GameCode>,
}

/// A request to join the game with code `code`; when it is sent on to the
/// others, the joining user, the host and the room.
pub struct JoinGamePacket {
    pub code: Option<GameCode>,
    pub joining: Option<User>,
    pub host: Option<i32>,
    pub room: Option<GameRoom>,
}

/// The answer to a user who joined `room`.
pub struct JoinedGamePacket {
    pub room: GameRoom,
    pub user: User,
}

/// Game data for everyone in the game with code `code`; `buffer` holds the
/// packet as it came.
pub struct GameDataPacket {
    pub code: Option<GameCode>,
    pub buffer: Buffer,
    pub reliable: bool,
}

/// Game data for one player, `target`, of the game with code `code`.
pub struct GameDataToPacket {
    pub code: Option<GameCode>,
    pub target: i32,
    pub buffer: Buffer,
}

/// The start of the game with code `code`.
pub struct StartGamePacket {
    pub code: Option<GameCode>,
    pub buffer: Buffer,
}

/// The server's answer to a client that runs mods.
pub struct ReactorHandshakePacket;

/// The four little-endian bytes of `v`.
pub open spec fn i32_le(v: i32) -> Seq<u8> {
    u32_le(i32_bits(v))
}

/// The bytes of a message with tag `tag` and body `body`, as `end_message`
/// leaves them.
pub open spec fn message_bytes(tag: u8, body: Seq<u8>) -> Seq<u8> {
    end_message_bytes(seq![tag] + body)
}

/// A message with body `body` can be ended and copied into `buffer`.
pub open spec fn message_fits(body: Seq<u8>, buffer: Buffer) -> bool {
    &&& (1 + body.len()) % 0x1_0000 != 0
    &&& buffer.can_write(body.len() + 3)
}

/// The code as it travels: four little-endian bytes.
pub open spec fn le_i32_code(a: Seq<u8>, p: int) -> i32 {
    u32_as_i32(le_u32(a.subrange(p, p + 4)))
}

// ---------------------------------------------------------------------
// Small packets.
// ---------------------------------------------------------------------
/// The body of the mod handshake: a zero byte, the server's name and
/// version, and no mods.
pub open spec fn reactor_body() -> Seq<u8> {
    seq![0u8] + string_frame("Hydrogen"@) + string_frame("0.0.1"@) + packed_u32_bytes(0)
}

impl Packet for ReactorHandshakePacket {
    open spec fn serializable(&self, buffer: Buffer) -> bool {
        message_fits(reactor_body(), buffer)
    }

    /// A message tagged 255 with the server's name and version and no mods.
    open spec fn serialized_as(&self, bytes: Seq<u8>) -> bool {
        bytes == message_bytes(255, reactor_body())
    }

    fn serialize(self, buffer: &mut Buffer) {
        let mut hazel_message = HazelMessage::start_message(255);
        hazel_message.buffer.write_i8(0);
        hazel_message.buffer.write_string("Hydrogen".to_owned());
        hazel_message.buffer.write_string("0.0.1".to_owned());
        hazel_message.buffer.write_packed_u32(0);
        proof {
            assert(i8_bits(0) == 0);
            assert(hazel_message.buffer.array@ =~= seq![255u8] + reactor_body());
        }
        hazel_message.end_message();
        hazel_message.copy_to(buffer);
        assert(self.serialized_as(message_bytes(255, reactor_body())));
    }
}

impl HostGamePacket {
    /// Reads the game settings and the cross-play flags behind them, neither
    /// of which is kept, and takes `code` as the new game's code: a code
    /// that no room in `codes` has (it is drawn at random, apart).
    pub fn deserialize(&mut self, buffer: &mut Buffer, codes: &[GameCode], code: GameCode)
        requires
            options_readable(old(buffer).array@, old(buffer).position as int),
            options_end(old(buffer).array@, old(buffer).position as int) + 4 <= old(buffer).array@.len(),
            code_is_free(codes@, code.code_string@),
        ensures
            final(self).code == Some(code),
            code_is_free(codes@, final(self).code.unwrap().code_string@),
            final(buffer).array@ == old(buffer).array@,
            final(buffer).position == options_end(old(buffer).array@, old(buffer).position as int) + 4,
    {
        let _settings = GameOptionsData::deserialize(buffer);
        let _crossplay_flags = buffer.read_i32_le();
        self.code = Some(code);
    }
}

impl Packet for HostGamePacket {
    open spec fn serializable(&self, buffer: Buffer) -> bool {
        self.code is Some && message_fits(i32_le(self.code.unwrap().code_int), buffer)
    }

    /// A message tagged 0 that holds the game's code.
    open spec fn serialized_as(&self, bytes: Seq<u8>) -> bool {
        bytes == message_bytes(0, i32_le(self.code.unwrap().code_int))
    }

    fn serialize(self, buffer: &mut Buffer) {
        let ghost me = self;
        let mut hazel_message = HazelMessage::start_message(0x00);
        hazel_message.buffer.write_i32_le(self.code.unwrap().code_int);
        assert(hazel_message.buffer.array@ =~= seq![0u8] + i32_le(me.code.unwrap().code_int));
        hazel_message.end_message();
        hazel_message.copy_to(buffer);
        assert(me.serialized_as(message_bytes(0, i32_le(me.code.unwrap().code_int))));
    }
}

impl JoinGamePacket {
    /// Reads the code of the game to join.
    pub fn deserialize(&mut self, buffer: &mut Buffer)
        requires
            old(buffer).can_read(4),
            code_printable(le_i32_code(old(buffer).array@, old(buffer).position as int)),
        ensures
            ({
                let c = le_i32_code(old(buffer).array@, old(buffer).position as int);
                &&& final(self).code is Some
                &&& final(self).code.unwrap().code_int == c
                &&& final(self).code.unwrap().code_string@ == code_text(c)
            }),
            final(self).joining == old(self).joining,
            final(self).host == old(self).host,
            final(self).room == old(self).room,
            final(buffer).consumed(*old(buffer), 4),
    {
        let code_int = buffer.read_i32_le();
        self.code = Some(GameCode::new_code_int(code_int));
    }
}

impl StartGamePacket {
    /// Reads the code of the game.
    pub fn deserialize(&mut self, buffer: &mut Buffer)
        requires
            old(buffer).can_read(4),
            code_printable(le_i32_code(old(buffer).array@, old(buffer).position as int)),
        ensures
            ({
                let c = le_i32_code(old(buffer).array@, old(buffer).position as int);
                &&& final(self).code is Some
                &&& final(self).code.unwrap().code_int == c
                &&& final(self).code.unwrap().code_string@ == code_text(c)
            }),
            final(self).buffer == old(self).buffer,
            final(buffer).consumed(*old(buffer), 4),
    {
        let code_int = buffer.read_i32();
        self.code = Some(GameCode::new_code_int(code_int));
    }
}

/// The bytes that a game-data packet passes on: all but its first three.
pub open spec fn passed_on(buffer: Buffer) -> Seq<u8> {
    buffer.array@.skip(3)
}

/// Writes the bytes of `packet_buffer` from index 3 on.
fn write_passed_on(packet_buffer: Buffer, buffer: &mut Buffer)
    requires
        packet_buffer.array@.len() >= 3,
        old(buffer).can_write((packet_buffer.array@.len() - 3) as nat),
    ensures
        final(buffer).wrote(*old(buffer), passed_on(packet_buffer)),
{
    let mut arr = packet_buffer;
    arr.position = 3;
    let n = arr.array.len();
    let rest = crate::util::buffer::copy_range(&arr.array, 3, n);
    assert(rest@ =~= passed_on(packet_buffer));
    buffer.write_u8_arr(rest.as_slice());
}

impl Packet for StartGamePacket {
    open spec fn serializable(&self, buffer: Buffer) -> bool {
        self.buffer.array@.len() >= 3 && buffer.can_write((self.buffer.array@.len() - 3) as nat)
    }

    /// The packet's bytes from index 3 on.
    open spec fn serialized_as(&self, bytes: Seq<u8>) -> bool {
        bytes == passed_on(self.buffer)
    }

    fn serialize(self, buffer: &mut Buffer) {
        let ghost me = self;
        write_passed_on(self.buffer, buffer);
        assert(me.serialized_as(passed_on(me.buffer)));
    }
}

impl Packet for GameDataPacket {
    open spec fn serializable(&self, buffer: Buffer) -> bool {
        self.buffer.array@.len() >= 3 && buffer.can_write((self.buffer.array@.len() - 3) as nat)
    }

    /// The packet's bytes from index 3 on.
    open spec fn serialized_as(&self, bytes: Seq<u8>) -> bool {
        bytes == passed_on(self.buffer)
    }

    fn serialize(self, buffer: &mut Buffer) {
        let ghost me = self;
        write_passed_on(self.buffer, buffer);
        assert(me.serialized_as(passed_on(me.buffer)));
    }
}

impl Packet for GameDataToPacket {
    open spec fn serializable(&self, buffer: Buffer) -> bool {
        self.buffer.array@.len() >= 3 && buffer.can_write((self.buffer.array@.len() - 3) as nat)
    }

    /// The packet's bytes from index 3 on.
    open spec fn serialized_as(&self, bytes: Seq<u8>) -> bool {
        bytes == passed_on(self.buffer)
    }

    fn serialize(self, buffer: &mut Buffer) {
        let ghost me = self;
        write_passed_on(self.buffer, buffer);
        assert(me.serialized_as(passed_on(me.buffer)));
    }
}

// ---------------------------------------------------------------------
// The messages of a game-data packet.
// ---------------------------------------------------------------------
/// The spawn data that a spawn message starts from.
pub open spec fn empty_spawn() -> SpawnData {
    SpawnData { game_data: None, vote_ban_system: None, player_control: None, lobby_behavior: None }
}

/// The message at the cursor `pos` is read: the payload of the message
/// before it (at first, the cursor) starts at `hp`, inside the bytes, and a
/// message is there.
pub open spec fn gd_continues(a: Seq<u8>, pos: int, hp: int) -> bool {
    hp < a.len() && hazel_read_result(a, pos) is Some
}

/// `room1` follows `room0` once the message at `pos` applies: a spawn
/// message (tag 4) is read into fresh spawn data whose objects go into the
/// room, a data message (tag 1) goes to the object its net id names, and any
/// other message is passed over.
pub open spec fn gd_message_step(a: Seq<u8>, pos: int, room0: GameRoom, room1: GameRoom) -> bool {
    let (len, tag, next) = hazel_read_result(a, pos).unwrap();
    let q = pos + 3;
    if tag == 4 {
        exists|sd: SpawnData|
            #[trigger] spawn_read(
                empty_spawn(),
                sd,
                a,
                spawn_first_pos(a, q),
                spawn_id_at(a, q),
                spawn_owner_at(a, q),
                spawn_count_at(a, q),
            ) && spawn_processed(sd, room0, room1)
    } else if tag == 1 {
        data_processed_at(packed_u32_value(a, q), a, packed_end(a, q), len as int, room0, room1)
    } else {
        room1 == room0
    }
}

/// The message at `pos` can apply to `room`.
pub open spec fn gd_message_ok(a: Seq<u8>, pos: int, room: GameRoom) -> bool {
    let (len, tag, next) = hazel_read_result(a, pos).unwrap();
    let q = pos + 3;
    &&& tag == 4 ==> {
        &&& spawn_readable(empty_spawn(), a, q)
        &&& forall|sd: SpawnData|
            #[trigger] spawn_read(
                empty_spawn(),
                sd,
                a,
                spawn_first_pos(a, q),
                spawn_id_at(a, q),
                spawn_owner_at(a, q),
                spawn_count_at(a, q),
            ) ==> spawn_processable(sd, room)
    }
    &&& tag == 1 ==> {
        &&& packed_terminates(a, q)
        &&& data_processable_at(packed_u32_value(a, q), a, packed_end(a, q), len as int, room)
    }
}

/// From cursor `pos`, last payload `hp` and room `room` to `pos1`, `hp1`
/// and `room1`: one message is read and applied.
pub open spec fn gd_link(a: Seq<u8>, pos: int, hp: int, room: GameRoom, pos1: int, hp1: int, room1: GameRoom) -> bool {
    &&& gd_continues(a, pos, hp)
    &&& pos1 == hazel_read_result(a, pos).unwrap().2
    &&& hp1 == pos + 3
    &&& gd_message_step(a, pos, room, room1)
}

/// The cursors, payload starts and rooms that follow each other as the
/// messages are read and applied.
pub open spec fn gd_chain(a: Seq<u8>, poss: Seq<int>, hps: Seq<int>, rooms: Seq<GameRoom>) -> bool {
    &&& poss.len() >= 1
    &&& hps.len() == poss.len()
    &&& rooms.len() == poss.len()
    &&& forall|i: int|
        0 <= i < poss.len() - 1 ==> #[trigger] gd_link(
            a,
            poss[i],
            hps[i],
            rooms[i],
            poss[i + 1],
            hps[i + 1],
            rooms[i + 1],
        )
}

/// Every message from cursor `p` on can be read and can apply to the room
/// that the messages before it leave.
pub open spec fn gd_messages_ok(a: Seq<u8>, p: int, room: GameRoom) -> bool {
    forall|poss: Seq<int>, hps: Seq<int>, rooms: Seq<GameRoom>|
        #[trigger] gd_chain(a, poss, hps, rooms) && poss[0] == p && hps[0] == p && rooms[0] == room
            && hps.last() < a.len() ==> {
            &&& hazel_readable(a, poss.last())
            &&& hazel_read_result(a, poss.last()) is Some ==> gd_message_ok(a, poss.last(), rooms.last())
        }
}

/// After the messages from cursor `p` apply to `room`, the cursor is at
/// `pos1` and the room is `room1`: reading goes on while the payload of the
/// last message starts inside the bytes and another message is there.
pub open spec fn gd_messages_applied(a: Seq<u8>, p: int, room: GameRoom, pos1: int, room1: GameRoom) -> bool {
    exists|poss: Seq<int>, hps: Seq<int>, rooms: Seq<GameRoom>|
        #[trigger] gd_chain(a, poss, hps, rooms) && poss[0] == p && hps[0] == p && rooms[0] == room
            && !gd_continues(a, poss.last(), hps.last()) && rooms.last() == room1 && pos1 == if hps.last()
            < a.len() {
            hazel_read_end(a, poss.last())
        } else {
            poss.last()
        }
}

/// Reads the messages at the cursor of `buffer` and applies them to `room`
/// in turn, while the payload of the message read last starts inside the
/// bytes.
fn apply_game_messages(buffer: &mut Buffer, room: &mut GameRoom)
    requires
        old(buffer).array.len() + 0x1_0000 <= usize::MAX,
        gd_messages_ok(old(buffer).array@, old(buffer).position as int, *old(room)),
    ensures
        final(buffer).array@ == old(buffer).array@,
        gd_messages_applied(
            old(buffer).array@,
            old(buffer).position as int,
            *old(room),
            final(buffer).position as int,
            *final(room),
        ),
{
    let ghost a = buffer.array@;
    let ghost p = buffer.position as int;
    let ghost room0 = *room;
    let ghost mut poss: Seq<int> = seq![p];
    let ghost mut hps: Seq<int> = seq![p];
    let ghost mut rooms: Seq<GameRoom> = seq![room0];
    let mut hazel_buffer = buffer.clone();
    let mut done = false;
    while !done && hazel_buffer.position < hazel_buffer.array.len()
        invariant
            buffer.array@ == a,
            a.len() + 0x1_0000 <= usize::MAX,
            hazel_buffer.array@ == a,
            gd_messages_ok(a, p, room0),
            gd_chain(a, poss, hps, rooms),
            poss[0] == p,
            hps[0] == p,
            rooms[0] == room0,
            rooms.last() == *room,
            hps.last() == hazel_buffer.position as int,
            hps.last() <= poss.last(),
            !done ==> poss.last() == buffer.position as int,
            done ==> !gd_continues(a, poss.last(), hps.last()) && hps.last() < a.len()
                && buffer.position as int == hazel_read_end(a, poss.last()),
        decreases a.len() - hazel_buffer.position + if done {
            0int
        } else {
            1int
        },
    {
        let ghost pos = buffer.position as int;
        proof {
            assert(buffer.array.len() == a.len());
            assert(hazel_buffer.array.len() == a.len());
        }
        let hazel_msg_option = HazelMessage::read_message(buffer);
        match hazel_msg_option {
            None => {
                done = true;
            },
            Some(mut msg) => {
                hazel_buffer = msg.buffer.clone();
                let ghost room_before = *room;
                proof {
                    assert(gd_message_ok(a, pos, room_before));
                }
                if msg.tag == 4 {
                    let mut spawn_data = SpawnData {
                        game_data: None,
                        vote_ban_system: None,
                        player_control: None,
                        lobby_behavior: None,
                    };
                    spawn_data.deserialize(&mut msg);
                    spawn_data.process(room);
                } else if msg.tag == 1 {
                    let mut data_data = DataData {
                        net_id: 0,
                        hazel_msg: HazelMessage {
                            length: 0,
                            tag: 0,
                            buffer: Buffer { position: 0, array: Vec::new() },
                        },
                    };
                    data_data.deserialize(&mut msg);
                    data_data.process(room);
                }
                proof {
                    assert(gd_message_step(a, pos, room_before, *room));
                    let poss1 = poss.push(buffer.position as int);
                    let hps1 = hps.push(pos + 3);
                    let rooms1 = rooms.push(*room);
                    assert forall|i: int| 0 <= i < poss1.len() - 1 implies #[trigger] gd_link(
                        a,
                        poss1[i],
                        hps1[i],
                        rooms1[i],
                        poss1[i + 1],
                        hps1[i + 1],
                        rooms1[i + 1],
                    ) by {
                        if i < poss.len() - 1 {
                            assert(gd_link(a, poss[i], hps[i], rooms[i], poss[i + 1], hps[i + 1], rooms[i + 1]));
                        }
                    }
                    poss = poss1;
                    hps = hps1;
                    rooms = rooms1;
                }
            },
        }
    }
    proof {
        if !done {
            assert(!gd_continues(a, poss.last(), hps.last()));
        }
    }
}

impl GameDataPacket {
    /// Reads the game's code, then the messages behind it, which apply to
    /// `room`, the game's room.
    pub fn deserialize(&mut self, buffer: &mut Buffer, room: &mut GameRoom)
        requires
            old(buffer).can_read(4),
            old(buffer).array.len() + 0x1_0000 <= usize::MAX,
            code_printable(le_i32_code(old(buffer).array@, old(buffer).position as int)),
            gd_messages_ok(old(buffer).array@, old(buffer).position + 4, *old(room)),
        ensures
            ({
                let a = old(buffer).array@;
                let c = le_i32_code(a, old(buffer).position as int);
                &&& final(self).code is Some
                &&& final(self).code.unwrap().code_int == c
                &&& final(self).code.unwrap().code_string@ == code_text(c)
                &&& final(buffer).array@ == a
                &&& gd_messages_applied(
                    a,
                    old(buffer).position + 4,
                    *old(room),
                    final(buffer).position as int,
                    *final(room),
                )
            }),
            final(self).buffer == old(self).buffer,
            final(self).reliable == old(self).reliable,
    {
        let code_int = buffer.read_i32();
        self.code = Some(GameCode::new_code_int(code_int));
        apply_game_messages(buffer, room);
    }
}

impl GameDataToPacket {
    /// Reads the game's code and the target player, then the messages
    /// behind them, which apply to `room`, the game's room.
    pub fn deserialize(&mut self, buffer: &mut Buffer, room: &mut GameRoom)
        requires
            old(buffer).can_read(4),
            old(buffer).array.len() + 0x1_0000 <= usize::MAX,
            code_printable(le_i32_code(old(buffer).array@, old(buffer).position as int)),
            packed_terminates(old(buffer).array@, old(buffer).position + 4),
            gd_messages_ok(
                old(buffer).array@,
                packed_end(old(buffer).array@, old(buffer).position + 4),
                *old(room),
            ),
        ensures
            ({
                let a = old(buffer).array@;
                let p = old(buffer).position as int;
                let c = le_i32_code(a, p);
                &&& final(self).code is Some
                &&& final(self).code.unwrap().code_int == c
                &&& final(self).code.unwrap().code_string@ == code_text(c)
                &&& final(self).target == packed_u32_value(a, p + 4)
                &&& final(buffer).array@ == a
                &&& gd_messages_applied(
                    a,
                    packed_end(a, p + 4),
                    *old(room),
                    final(buffer).position as int,
                    *final(room),
                )
            }),
            final(self).buffer == old(self).buffer,
    {
        let code_int = buffer.read_i32();
        self.code = Some(GameCode::new_code_int(code_int));
        self.target = buffer.read_packed_int_32();
        apply_game_messages(buffer, room);
    }
}

impl GameDataPacket {
    /// The bytes sent on when the packet is not reliable: a zero byte, then
    /// the packet's bytes from index 1 on.
    pub fn forward_buffer(&self) -> (r: Buffer)
        requires
            self.buffer.array@.len() >= 1,
        ensures
            r.array@ == seq![0u8] + self.buffer.array@.skip(1),
            r.position == self.buffer.array@.len(),
    {
        let mut buffer = Buffer { position: 0, array: Vec::new() };
        buffer.write_u8(0);
        let n = self.buffer.array.len();
        let rest = crate::util::buffer::copy_range(&self.buffer.array, 1, n);
        proof {
            assert(splice(Seq::<u8>::empty(), 0, seq![0u8]) =~= seq![0u8]);
            assert(rest@ =~= self.buffer.array@.skip(1));
        }
        buffer.write_u8_arr(rest.as_slice());
        proof {
            assert(splice(seq![0u8], 1, rest@) =~= seq![0u8] + rest@);
        }
        buffer
    }
}

// ---------------------------------------------------------------------
// Joining.
// ---------------------------------------------------------------------
/// The platform of `u` as `serialize` writes it.
pub open spec fn user_platform_bytes(u: User) -> Seq<u8> {
    platform_bytes(u.platformData.unwrap().platform, u.platformData.unwrap().platformName@)
}

/// The platform of `u` can be written.
pub open spec fn user_platform_ok(u: User) -> bool {
    &&& u.platformData is Some
    &&& (1 + string_frame(u.platformData.unwrap().platformName@).len()) % 0x1_0000 != 0
    &&& string_frame(u.platformData.unwrap().platformName@).len() + 4 <= usize::MAX
}

/// What follows the ids in a join message: the name, the platform, a zero
/// and two empty strings.
pub open spec fn user_tail(u: User) -> Seq<u8> {
    string_frame(u.username.unwrap()@) + user_platform_bytes(u) + packed_u32_bytes(0) + string_frame(
        Seq::empty(),
    ) + string_frame(Seq::empty())
}

/// The body of a join message: the game's code, the joining player's id,
/// the host, then the joining user's name, platform, a zero and two empty
/// strings.
pub open spec fn join_body(p: JoinGamePacket) -> Seq<u8> {
    let room = p.room.unwrap();
    let u = p.joining.unwrap();
    i32_le(room.code.code_int) + i32_le(u.player.unwrap().id) + i32_le(room.host) + user_tail(u)
}

/// Writes the name, platform, a zero and two empty strings of `u`.
fn write_user_tail(u: &User, buffer: &mut Buffer)
    requires
        u.username is Some,
        user_platform_ok(*u),
        old(buffer).can_write(user_tail(*u).len()),
    ensures
        final(buffer).wrote(*old(buffer), user_tail(*u)),
{
    let ghost a0 = buffer.array@;
    let ghost p0 = buffer.position as int;
    let ghost s1 = string_frame(u.username.unwrap()@);
    let ghost s2 = user_platform_bytes(*u);
    let ghost s3 = packed_u32_bytes(0);
    let ghost s4 = string_frame(Seq::<char>::empty());
    let name = u.username.as_ref().unwrap();
    buffer.write_string(name.clone());
    let platform = u.platformData.as_ref().unwrap();
    platform.serialize(buffer);
    proof {
        lemma_splice_twice(a0, p0, s1, s2);
    }
    buffer.write_packed_u32(0);
    proof {
        lemma_splice_twice(a0, p0, s1 + s2, s3);
    }
    buffer.write_string(String::new());
    proof {
        lemma_splice_twice(a0, p0, s1 + s2 + s3, s4);
    }
    buffer.write_string(String::new());
    proof {
        lemma_splice_twice(a0, p0, s1 + s2 + s3 + s4, s4);
        assert(s1 + s2 + s3 + s4 + s4 =~= user_tail(*u));
    }
}

/// Appends `bytes` to a buffer whose cursor is at its end.
proof fn lemma_append(a: Seq<u8>, bytes: Seq<u8>)
    ensures
        splice(a, a.len() as int, bytes) == a + bytes,
{
    assert(splice(a, a.len() as int, bytes) =~= a + bytes);
}

impl Packet for JoinGamePacket {
    open spec fn serializable(&self, buffer: Buffer) -> bool {
        &&& self.room is Some
        &&& self.joining is Some
        &&& self.joining.unwrap().player is Some
        &&& self.joining.unwrap().username is Some
        &&& user_platform_ok(self.joining.unwrap())
        &&& message_fits(join_body(*self), buffer)
    }

    /// A message tagged 1 that tells the others who joined.
    open spec fn serialized_as(&self, bytes: Seq<u8>) -> bool {
        bytes == message_bytes(1, join_body(*self))
    }

    fn serialize(self, buffer: &mut Buffer) {
        let ghost me = self;
        let room = self.room.unwrap();
        let user = self.joining.unwrap();
        let mut hazel_message = HazelMessage::start_message(0x01);
        let ghost m0 = hazel_message.buffer.array@;
        hazel_message.buffer.write_i32_le(room.code.code_int);
        proof {
            lemma_append(m0, i32_le(room.code.code_int));
        }
        let ghost m1 = hazel_message.buffer.array@;
        hazel_message.buffer.write_i32_le(user.player.as_ref().unwrap().id);
        proof {
            lemma_append(m1, i32_le(user.player.unwrap().id));
        }
        let ghost m2 = hazel_message.buffer.array@;
        hazel_message.buffer.write_i32_le(room.host);
        proof {
            lemma_append(m2, i32_le(room.host));
        }
        let ghost m3 = hazel_message.buffer.array@;
        write_user_tail(&user, &mut hazel_message.buffer);
        proof {
            lemma_append(m3, user_tail(user));
            assert(hazel_message.buffer.array@ =~= seq![1u8] + join_body(me));
        }
        hazel_message.end_message();
        hazel_message.copy_to(buffer);
        assert(me.serialized_as(message_bytes(1, join_body(me))));
    }
}

/// The entry of player `id`, user `u`, in a joined-game message: the id,
/// then the user's name, platform, a zero and two empty strings.
pub open spec fn joined_entry(id: i32, u: User) -> Seq<u8> {
    packed_u32_bytes(i32_bits(id)) + user_tail(u)
}

/// The entries of the players `ks` of `players`, in this order, leaving out
/// the user at `me`.
pub open spec fn joined_entries(players: Map<i32, Option<User>>, me: PeerAddr, ks: Seq<i32>) -> Seq<u8>
    decreases ks.len(),
{
    if ks.len() == 0 {
        Seq::empty()
    } else {
        let k = ks.last();
        let u = players[k].unwrap();
        joined_entries(players, me, ks.drop_last()) + if u.socketAddr == me {
            Seq::empty()
        } else {
            joined_entry(k, u)
        }
    }
}

/// `ks` lists the player ids of `players`, each once.
pub open spec fn id_order(players: Map<i32, Option<User>>, ks: Seq<i32>) -> bool {
    ks.no_duplicates() && ks.to_set() == players.dom()
}

/// The body of a joined-game message with the others in the order `ks`:
/// the game's code, the user's player id, the host, and the count of the
/// others, then, when there are others, an entry for each.
pub open spec fn joined_body(p: JoinedGamePacket, ks: Seq<i32>) -> Seq<u8> {
    let n = p.room.players@.len();
    i32_le(p.room.code.code_int) + i32_le(p.user.player.unwrap().id) + i32_le(p.room.host) + if n - 1
        <= 0 {
        packed_u32_bytes(0)
    } else {
        packed_u32_bytes(i32_bits((n - 1) as i32)) + joined_entries(
            p.room.players@,
            p.user.socketAddr,
            ks,
        )
    }
}

impl Packet for JoinedGamePacket {
    /// The user has a seat; every seat of the room holds a user, and every
    /// other user has a name and a platform; the message fits, whatever the
    /// order of the others.
    open spec fn serializable(&self, buffer: Buffer) -> bool {
        &&& self.user.player is Some
        &&& self.room.players@.len() >= 1
        &&& forall|k: i32| #[trigger]
            self.room.players@.contains_key(k) ==> {
                let u = self.room.players@[k];
                &&& u is Some
                &&& u.unwrap().socketAddr != self.user.socketAddr ==> u.unwrap().username is Some
                    && user_platform_ok(u.unwrap())
            }
        &&& forall|ks: Seq<i32>| #[trigger]
            id_order(self.room.players@, ks) ==> message_fits(joined_body(*self, ks), buffer)
    }

    /// A message tagged 7 that tells the user its seat, the host and the
    /// others, in some order of the room's seats.
    open spec fn serialized_as(&self, bytes: Seq<u8>) -> bool {
        exists|ks: Seq<i32>| #[trigger]
            id_order(self.room.players@, ks) && bytes == message_bytes(7, joined_body(*self, ks))
    }

    fn serialize(self, buffer: &mut Buffer) {
        let ghost me = self;
        let ghost players = self.room.players@;
        let ghost addr = self.user.socketAddr;
        let room = self.room;
        let user = self.user;
        let keys = crate::util::keys::keys_of(&room.players);
        proof {
            assert(id_order(players, keys@));
        }
        let ghost body = joined_body(me, keys@);
        let mut hazel_message = HazelMessage::start_message(0x07);
        let ghost m0 = hazel_message.buffer.array@;
        hazel_message.buffer.write_i32_le(room.code.code_int);
        proof {
            lemma_append(m0, i32_le(room.code.code_int));
        }
        let ghost m1 = hazel_message.buffer.array@;
        hazel_message.buffer.write_i32_le(user.player.as_ref().unwrap().id);
        proof {
            lemma_append(m1, i32_le(user.player.unwrap().id));
        }
        let ghost m2 = hazel_message.buffer.array@;
        hazel_message.buffer.write_i32_le(room.host);
        proof {
            lemma_append(m2, i32_le(room.host));
        }
        let ghost head = hazel_message.buffer.array@;
        let count = room.players.len();
        if count - 1 <= 0 {
            hazel_message.buffer.write_packed_i32(0);
            proof {
                lemma_append(head, packed_u32_bytes(0));
                assert(i32_bits(0) == 0);
                assert(hazel_message.buffer.array@ =~= seq![7u8] + body);
            }
        } else {
            hazel_message.buffer.write_packed_i32((count - 1) as i32);
            proof {
                lemma_append(head, packed_u32_bytes(i32_bits((count - 1) as i32)));
                assert(keys@.take(0) =~= Seq::<i32>::empty());
            }
            let ghost start = hazel_message.buffer.array@;
            proof {
                assert(start + joined_entries(players, addr, keys@) =~= seq![7u8] + body);
            }
            write_joined_entries(&room.players, &keys, user.socketAddr, &mut hazel_message.buffer);
            proof {
                lemma_append(start, joined_entries(players, addr, keys@));
            }
        }
        hazel_message.end_message();
        hazel_message.copy_to(buffer);
        assert(me.serialized_as(message_bytes(7, joined_body(me, keys@))));
    }
}

/// Writes, at the end of `buffer`, the entry of every player of `keys` but
/// the user at `addr`, in the order of `keys`.
fn write_joined_entries(players_map: &std::collections::HashMap<i32, Option<User>>, keys: &Vec<i32>, addr: PeerAddr, buffer: &mut Buffer)
    requires
        id_order(players_map@, keys@),
        forall|k: i32| #[trigger]
            players_map@.contains_key(k) ==> {
                let u = players_map@[k];
                &&& u is Some
                &&& u.unwrap().socketAddr != addr ==> u.unwrap().username is Some
                    && user_platform_ok(u.unwrap())
            },
        old(buffer).position == old(buffer).array@.len(),
        old(buffer).array@.len() + joined_entries(players_map@, addr, keys@).len() <= usize::MAX,
    ensures
        final(buffer).array@ == old(buffer).array@ + joined_entries(players_map@, addr, keys@),
        final(buffer).position == final(buffer).array@.len(),
{
    let ghost players = players_map@;
    let ghost start = buffer.array@;
    let mut j: usize = 0;
    assert(keys@.take(0) =~= Seq::<i32>::empty());
    assert(start + Seq::<u8>::empty() =~= start);
    while j < keys.len()
        invariant
            players == players_map@,
            id_order(players, keys@),
            0 <= j <= keys@.len(),
            forall|k: i32| #[trigger]
                players.contains_key(k) ==> {
                    let u = players[k];
                    &&& u is Some
                    &&& u.unwrap().socketAddr != addr ==> u.unwrap().username is Some
                        && user_platform_ok(u.unwrap())
                },
            start.len() + joined_entries(players, addr, keys@).len() <= usize::MAX,
            buffer.array@ == start + joined_entries(players, addr, keys@.take(j as int)),
            buffer.position == buffer.array@.len(),
        decreases keys@.len() - j,
    {
        let x = keys[j];
        let ghost s1 = keys@.take(j + 1);
        proof {
            assert(keys@.to_set().contains(x));
            assert(s1.drop_last() =~= keys@.take(j as int));
            assert(s1.last() == x);
            lemma_entries_prefix(players, addr, keys@, j as int + 1);
        }
        let v = players_map.get(&x).unwrap();
        let u = v.as_ref().unwrap();
        if u.socketAddr == addr {
            assert(joined_entries(players, addr, s1) =~= joined_entries(players, addr, keys@.take(j as int)));
        } else {
            let ghost before = buffer.array@;
            let ghost t = user_tail(*u);
            assert(joined_entries(players, addr, s1) == joined_entries(players, addr, keys@.take(j as int)) + joined_entry(x, *u));
            buffer.write_packed_i32(x);
            proof {
                lemma_append(before, packed_u32_bytes(i32_bits(x)));
            }
            let ghost mid = buffer.array@;
            write_user_tail(u, buffer);
            proof {
                lemma_append(mid, t);
                assert(buffer.array@ =~= start + joined_entries(players, addr, s1));
            }
        }
        j = j + 1;
    }
    assert(keys@.take(keys@.len() as int) =~= keys@);
}

/// The entries of a prefix of `ks` are a prefix of its entries.
proof fn lemma_entries_prefix(players: Map<i32, Option<User>>, me: PeerAddr, ks: Seq<i32>, j: int)
    requires
        0 <= j <= ks.len(),
    ensures
        joined_entries(players, me, ks.take(j)).len() <= joined_entries(players, me, ks).len(),
        joined_entries(players, me, ks) == joined_entries(players, me, ks.take(j)) + joined_entries(
            players,
            me,
            ks,
        ).skip(joined_entries(players, me, ks.take(j)).len() as int),
    decreases ks.len() - j,
{
    if j < ks.len() {
        lemma_entries_prefix(players, me, ks, j + 1);
        assert(ks.take(j + 1).drop_last() =~= ks.take(j));
        let e = joined_entries(players, me, ks);
        let a = joined_entries(players, me, ks.take(j));
        let b = joined_entries(players, me, ks.take(j + 1));
        assert(e == b + e.skip(b.len() as int));
        assert(e =~= a + e.skip(a.len() as int));
    } else {
        assert(ks.take(j) =~= ks);
        let e = joined_entries(players, me, ks);
        assert(e =~= e + e.skip(e.len() as int));
    }
}

/// What to do with a game-data packet from a player of a room.
pub enum GameDataAction {
    /// The sender has no seat: nothing is sent.
    Ignore,
    /// The packet goes reliably to these players.
    ReliableToAll(Vec<i32>),
    /// These bytes go as they are to these players.
    ForwardToAll(Buffer, Vec<i32>),
}

/// The decision on a game-data packet from `sender` in `room`: a sender
/// without a seat is passed over; a reliable packet goes reliably to every
/// player of the room; any other is passed on, behind a zero byte, to every
/// player.
pub fn game_data_action(packet: &GameDataPacket, room: &GameRoom, sender: &User) -> (r: GameDataAction)
    requires
        room.all_seated(),
        packet.buffer.array@.len() >= 1,
    ensures
        sender.player is None ==> r is Ignore,
        sender.player is Some && packet.reliable ==> (r matches GameDataAction::ReliableToAll(ids)
            && ids@.to_set() == room.players@.dom() && ids@.no_duplicates()),
        sender.player is Some && !packet.reliable ==> (r matches GameDataAction::ForwardToAll(b, ids)
            && b.array@ == seq![0u8] + packet.buffer.array@.skip(1) && ids@.to_set() == room.players@.dom()
            && ids@.no_duplicates()),
{
    if sender.player.is_none() {
        return GameDataAction::Ignore;
    }
    let ids = room.recipients_all();
    if packet.reliable {
        GameDataAction::ReliableToAll(ids)
    } else {
        GameDataAction::ForwardToAll(packet.forward_buffer(), ids)
    }
}

} // verus!
