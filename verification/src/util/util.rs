use vstd::prelude::*;
use crate::inner::objects::inner_net_objects::{InnerNetObject, LobbyBehavior};
use crate::inner::rooms::GameRoom;
use crate::manager::user::User;
use crate::util::buffer::{splice, Buffer};
use crate::util::bytes::{i32_bits, i8_bits, lemma_packed_len, packed_u32_bytes, u16_be, u32_le};
use crate::util::hazel::{end_message_bytes, HazelMessage};
use crate::util::text::string_push;

verus! {

/// The upper-case hexadecimal digit for `n` (below 16).
pub open spec fn hex_digit(n: int) -> char {
    if n < 10 {
        (48 + n) as char
    } else {
        (55 + n) as char
    }
}

/// A byte as two upper-case hexadecimal digits.
pub open spec fn hex_byte(b: u8) -> Seq<char> {
    seq![hex_digit((b / 16) as int), hex_digit((b % 16) as int)]
}

/// Every string of `xs` behind a space, all joined.
pub open spec fn spaced(xs: Seq<Seq<char>>) -> Seq<char>
    decreases xs.len(),
{
    if xs.len() == 0 {
        Seq::empty()
    } else {
        spaced(xs.drop_last()) + seq![' '] + xs.last()
    }
}

fn hex_char(n: u8) -> (r: char)
    requires
        n < 16,
    ensures
        r == hex_digit(n as int),
{
    if n < 10 {
        (48 + n) as char
    } else {
        (55 + n) as char
    }
}

fn hex_string(b: u8) -> (r: String)
    ensures
        r@ == hex_byte(b),
{
    let mut s = String::new();
    string_push(&mut s, hex_char(b / 16));
    string_push(&mut s, hex_char(b % 16));
    proof {
        assert(s@ =~= hex_byte(b));
    }
    s
}

/// Each byte as two upper-case hexadecimal digits.
pub fn convert(array: &[u8]) -> (r: Vec<String>)
    ensures
        r@.len() == array@.len(),
        forall|i: int| 0 <= i < array@.len() ==> #[trigger] r@[i]@ == hex_byte(array@[i]),
{
    let mut arr: Vec<String> = Vec::new();
    for k in 0..array.len()
        invariant
            arr@.len() == k,
            forall|i: int| 0 <= i < k ==> #[trigger] arr@[i]@ == hex_byte(array@[i]),
    {
        arr.push(hex_string(array[k]));
    }
    arr
}

/// Every string of `array` behind a space, all joined.
pub fn to_string(array: Vec<String>) -> (r: String)
    ensures
        r@ == spaced(array@.map_values(|x: String| x@)),
{
    let ghost views = array@.map_values(|x: String| x@);
    let mut s = String::new();
    let sep = " ";
    proof {
        reveal_strlit(" ");
        assert(views.take(0) =~= Seq::<Seq<char>>::empty());
    }
    for k in 0..array.len()
        invariant
            views == array@.map_values(|x: String| x@),
            s@ == spaced(views.take(k as int)),
            sep@ == seq![' '],
    {
        s.append(sep);
        s.append(array[k].as_str());
        proof {
            assert(views.take(k + 1).drop_last() =~= views.take(k as int));
        }
    }
    proof {
        assert(views.take(array@.len() as int) =~= views);
    }
    s
}

/// Each byte as two upper-case hexadecimal digits.
pub fn convert_only_two(array: &[u8]) -> (r: Vec<String>)
    ensures
        r@.len() == array@.len(),
        forall|i: int| 0 <= i < array@.len() ==> #[trigger] r@[i]@ == hex_byte(array@[i]),
{
    convert(array)
}

/// Whether sequence id `new_sid` comes after `prev_sid`: it lies in the
/// half-window of 32767 ids that follows `prev_sid`.
pub fn sid_greater_than(new_sid: u16, prev_sid: u16) -> (r: bool)
    requires
        prev_sid <= 32768,
    ensures
        r == (prev_sid < new_sid <= prev_sid + 32767),
{
    let num = prev_sid + 32767;
    if prev_sid < num {
        if new_sid > prev_sid {
            return new_sid <= num;
        }
        return false;
    }
    if new_sid <= prev_sid {
        return new_sid <= num;
    }
    true
}

// ---------------------------------------------------------------------
// The spawn message sent to a room's host.
// ---------------------------------------------------------------------
/// The body of the spawn message for the lobby `l`: spawn id 2, the owner,
/// no flags, one component with the lobby's net id and an empty message.
pub open spec fn lobby_spawn_body(l: LobbyBehavior) -> Seq<u8> {
    packed_u32_bytes(2) + packed_u32_bytes(i32_bits(l.owner_id)) + seq![0u8] + packed_u32_bytes(
        i32_bits(1),
    ) + packed_u32_bytes(l.net_id) + end_message_bytes(seq![1u8])
}

/// The body of the game-data-to message for `room`, whose host user is
/// `host`: the game's code, the host's player id and, when the room has a
/// lobby, its spawn message.
pub open spec fn spawn_to_body(room: GameRoom, host: User) -> Seq<u8> {
    u32_le(i32_bits(room.code.code_int)) + packed_u32_bytes(i32_bits(host.player.unwrap().id)) + match room.lobby_behavior {
        Some(l) => end_message_bytes(seq![4u8] + lobby_spawn_body(l)),
        None => Seq::empty(),
    }
}

/// The host of `room` is seated there, with a player and a nonce that can
/// grow.
pub open spec fn host_seated(room: GameRoom) -> bool {
    &&& room.players@.contains_key(room.host)
    &&& room.players@[room.host] is Some
    &&& room.players@[room.host].unwrap().player is Some
    &&& room.players@[room.host].unwrap().serverNonce < 0xFFFF
}

proof fn lemma_spawn_body_short(room: GameRoom, host: User)
    requires
        host.player is Some,
    ensures
        spawn_to_body(room, host).len() <= 38,
{
    lemma_packed_len(2, 2);
    lemma_packed_len(i32_bits(1), i32_bits(1));
    lemma_packed_len(i32_bits(host.player.unwrap().id), i32_bits(host.player.unwrap().id));
    if room.lobby_behavior is Some {
        let l = room.lobby_behavior.unwrap();
        lemma_packed_len(i32_bits(l.owner_id), i32_bits(l.owner_id));
        lemma_packed_len(l.net_id, l.net_id);
    }
}

/// The bytes of the spawn message for `room`'s host: a reliable packet with
/// the host's next nonce that holds a game-data-to message (tag 6) for the
/// host, carrying the lobby's spawn message when there is a lobby.
pub fn spawn_message_buffer(room: &GameRoom) -> (r: Buffer)
    requires
        host_seated(*room),
    ensures
        ({
            let host = room.players@[room.host].unwrap();
            r.array@ == seq![0x01u8] + u16_be((host.serverNonce + 1) as u16) + end_message_bytes(
                seq![6u8] + spawn_to_body(*room, host),
            )
        }),
{
    let ghost host_user = room.players@[room.host].unwrap();
    let mut buffer = Buffer { array: Vec::new(), position: 0 };
    buffer.write_u8(0x01);
    let user = room.players.get(&room.host).unwrap().as_ref().unwrap();
    let nonce = user.serverNonce + 1;
    buffer.write_u16(nonce);
    proof {
        assert(splice(Seq::<u8>::empty(), 0, seq![0x01u8]) =~= seq![0x01u8]);
        assert(splice(seq![0x01u8], 1, u16_be(nonce)) =~= seq![0x01u8] + u16_be(nonce));
        lemma_spawn_body_short(*room, host_user);
    }
    let mut game_data_to = HazelMessage::start_message(0x06);
    let ghost m0 = game_data_to.buffer.array@;
    game_data_to.buffer.write_i32_le(room.code.code_int);
    proof {
        assert(splice(m0, 1, u32_le(i32_bits(room.code.code_int))) =~= m0 + u32_le(i32_bits(room.code.code_int)));
    }
    let ghost m1 = game_data_to.buffer.array@;
    game_data_to.buffer.write_packed_i32(user.player.as_ref().unwrap().id);
    proof {
        let b = packed_u32_bytes(i32_bits(host_user.player.unwrap().id));
        assert(splice(m1, m1.len() as int, b) =~= m1 + b);
    }
    let ghost m2 = game_data_to.buffer.array@;
    match &room.lobby_behavior {
        Some(lobby_behavior) => {
            let mut spawn_msg = HazelMessage::start_message(0x04);
            let ghost s0 = spawn_msg.buffer.array@;
            spawn_msg.buffer.write_packed_u32(0x02);
            let ghost s1 = spawn_msg.buffer.array@;
            spawn_msg.buffer.write_packed_i32(lobby_behavior.owner_id);
            let ghost s2 = spawn_msg.buffer.array@;
            spawn_msg.buffer.write_i8(0);
            let ghost s3 = spawn_msg.buffer.array@;
            spawn_msg.buffer.write_packed_i32(1);
            let ghost s4 = spawn_msg.buffer.array@;
            spawn_msg.buffer.write_packed_u32(lobby_behavior.net_id);
            let ghost s5 = spawn_msg.buffer.array@;
            let mut lobby_behavior_msg = HazelMessage::start_message(0x01);
            lobby_behavior.serialize(&mut lobby_behavior_msg.buffer);
            lobby_behavior_msg.end_message();
            lobby_behavior_msg.copy_to(&mut spawn_msg.buffer);
            proof {
                assert(splice(s0, s0.len() as int, packed_u32_bytes(2)) =~= s0 + packed_u32_bytes(2));
                assert(splice(s1, s1.len() as int, packed_u32_bytes(i32_bits(lobby_behavior.owner_id))) =~= s1
                    + packed_u32_bytes(i32_bits(lobby_behavior.owner_id)));
                assert(i8_bits(0) == 0);
                assert(splice(s2, s2.len() as int, seq![0u8]) =~= s2 + seq![0u8]);
                assert(splice(s3, s3.len() as int, packed_u32_bytes(i32_bits(1))) =~= s3 + packed_u32_bytes(
                    i32_bits(1),
                ));
                assert(splice(s4, s4.len() as int, packed_u32_bytes(lobby_behavior.net_id)) =~= s4
                    + packed_u32_bytes(lobby_behavior.net_id));
                let e = end_message_bytes(seq![1u8]);
                assert(splice(s5, s5.len() as int, e) =~= s5 + e);
                assert(spawn_msg.buffer.array@ =~= seq![4u8] + lobby_spawn_body(*lobby_behavior));
            }
            spawn_msg.end_message();
            spawn_msg.copy_to(&mut game_data_to.buffer);
            proof {
                let e = end_message_bytes(seq![4u8] + lobby_spawn_body(*lobby_behavior));
                assert(splice(m2, m2.len() as int, e) =~= m2 + e);
            }
        },
        None => {},
    }
    proof {
        assert(game_data_to.buffer.array@ =~= seq![6u8] + spawn_to_body(*room, host_user));
    }
    game_data_to.end_message();
    let ghost b0 = buffer.array@;
    game_data_to.copy_to(&mut buffer);
    proof {
        let e = end_message_bytes(seq![6u8] + spawn_to_body(*room, host_user));
        assert(splice(b0, 3, e) =~= b0 + e);
    }
    buffer
}

} // verus!
