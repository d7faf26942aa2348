use std::collections::HashMap;
use vstd::prelude::*;
use crate::inner::objects::inner_net_objects;
use crate::inner::objects::inner_net_objects::{
    control_processed, game_data_processed, lobby_processed, physics_processable,
    physics_processed, transform_processable, transform_processed, vote_ban_processed,
    same_but_game_data, control_read, control_read_end, transform_read_end, transform_takes, players_read, player_messages, player_messages_readable, transform_read,
    vec_views, vote_count, CustomNetworkTransform, InnerNetObject, LobbyBehavior, PlayerControl,
    PlayerPhysics, VoteBanSystem,
};
use crate::inner::rooms::GameRoom;
use crate::inner::structs::player::PlayerInfo;
use crate::util::buffer::Buffer;
use crate::util::util::lobby_spawn_body;
use crate::util::bytes::{
    i32_bits, lemma_packed_len, lemma_packed_end_bounds, packed_end, packed_terminates, packed_u32_value,
};
use crate::util::hazel::{hazel_read_end, hazel_read_result, hazel_readable, HazelMessage};
use crate::util::vector::PackedVector2;

verus! {

broadcast use vstd::std_specs::hash::group_hash_axioms;

/// The objects that a spawn message brings.
#[derive(Debug, Clone)]
pub struct SpawnData {
    pub game_data: Option<inner_net_objects::GameData>,
    pub vote_ban_system: Option<VoteBanSystem>,
    pub player_control: Option<PlayerControl>,
    pub lobby_behavior: Option<LobbyBehavior>,
}

/// A data message for the object with net id `net_id`.
#[derive(Debug)]
pub struct DataData {
    pub net_id: u32,
    pub hazel_msg: HazelMessage,
}

// ---------------------------------------------------------------------
// The layout of a spawn message.
// ---------------------------------------------------------------------
/// A spawn message at `p`: a packed spawn id, a packed owner id, a flags
/// byte, a packed count of components, then the components.
pub open spec fn spawn_owner_pos(a: Seq<u8>, p: int) -> int {
    packed_end(a, p)
}

pub open spec fn spawn_flags_pos(a: Seq<u8>, p: int) -> int {
    packed_end(a, spawn_owner_pos(a, p))
}

pub open spec fn spawn_count_pos(a: Seq<u8>, p: int) -> int {
    spawn_flags_pos(a, p) + 1
}

/// Where the first component starts.
pub open spec fn spawn_first_pos(a: Seq<u8>, p: int) -> int {
    packed_end(a, spawn_count_pos(a, p))
}

pub open spec fn spawn_id_at(a: Seq<u8>, p: int) -> u32 {
    packed_u32_value(a, p)
}

pub open spec fn spawn_owner_at(a: Seq<u8>, p: int) -> i32 {
    packed_u32_value(a, spawn_owner_pos(a, p)) as i32
}

/// How many components the spawn message at `p` announces.
pub open spec fn spawn_count_at(a: Seq<u8>, p: int) -> int {
    packed_u32_value(a, spawn_count_pos(a, p)) as int
}

/// Where component `i` starts, the first one at `s`: a packed net id, then
/// a message.
pub open spec fn comp_pos(a: Seq<u8>, s: int, i: nat) -> int
    decreases i,
{
    if i == 0 {
        s
    } else {
        hazel_read_end(a, packed_end(a, comp_pos(a, s, (i - 1) as nat)))
    }
}

/// Where the message of component `i` starts.
pub open spec fn comp_msg_pos(a: Seq<u8>, s: int, i: nat) -> int {
    packed_end(a, comp_pos(a, s, i))
}

pub open spec fn comp_net_id(a: Seq<u8>, s: int, i: nat) -> u32 {
    packed_u32_value(a, comp_pos(a, s, i))
}

/// The message of component `i`, if there is one.
pub open spec fn comp_msg(a: Seq<u8>, s: int, i: nat) -> Option<(u16, u8, int)> {
    hazel_read_result(a, comp_msg_pos(a, s, i))
}

/// The length that the message of component `i` announces.
pub open spec fn comp_len(a: Seq<u8>, s: int, i: nat) -> int {
    comp_msg(a, s, i).unwrap().0 as int
}

/// Where the payload of the message of component `i` starts.
pub open spec fn comp_payload(a: Seq<u8>, s: int, i: nat) -> int {
    comp_msg_pos(a, s, i) + 3
}

/// The last of the components `lo` to `k - 1` that holds a message, or -1.
pub open spec fn last_message(a: Seq<u8>, s: int, lo: int, k: int) -> int
    decreases k - lo,
{
    if k <= lo {
        -1
    } else if comp_msg(a, s, (k - 1) as nat) is Some {
        k - 1
    } else {
        last_message(a, s, lo, k - 1)
    }
}

/// The origin, as a position travels.
pub open spec fn origin() -> PackedVector2 {
    PackedVector2 { x: 32767, y: 32767 }
}

/// The control that component 0 spawns, read from its payload when there
/// is one.
pub open spec fn control_spawned(a: Seq<u8>, s: int, owner_id: i32) -> PlayerControl {
    let pc = PlayerControl {
        net_id: comp_net_id(a, s, 0),
        owner_id,
        initial_spawn: true,
        is_new: false,
        player_id: 0,
        player_physics: None,
        custom_network_transform: None,
    };
    if comp_len(a, s, 0) > 0 {
        control_read(pc, a, comp_payload(a, s, 0))
    } else {
        pc
    }
}

/// The movement object that component `i` spawns, read from its payload when
/// there is one.
pub open spec fn transform_spawned(a: Seq<u8>, s: int, i: nat) -> CustomNetworkTransform {
    let c = CustomNetworkTransform {
        net_id: comp_net_id(a, s, i),
        initial_spawn: true,
        last_sequence_id: 0,
        position: origin(),
        velocity: origin(),
    };
    if comp_len(a, s, i) > 0 {
        transform_read(c, a, comp_payload(a, s, i))
    } else {
        c
    }
}

/// The player control after the first `k` components of a player spawn:
/// component 0 brings the control, 1 its physics and 2 its movement object.
pub open spec fn control_after(pc0: Option<PlayerControl>, a: Seq<u8>, s: int, owner_id: i32, k: int) -> Option<PlayerControl> {
    let base = if k >= 1 && comp_msg(a, s, 0) is Some {
        Some(control_spawned(a, s, owner_id))
    } else {
        pc0
    };
    let with_physics = if k >= 2 && comp_msg(a, s, 1) is Some {
        Some(PlayerControl {
            player_physics: Some(PlayerPhysics { net_id: comp_net_id(a, s, 1), initial_spawn: true }),
            ..base.unwrap()
        })
    } else {
        base
    };
    if k >= 3 && comp_msg(a, s, 2) is Some {
        Some(PlayerControl {
            custom_network_transform: Some(transform_spawned(a, s, 2)),
            ..with_physics.unwrap()
        })
    } else {
        with_physics
    }
}

/// `g` is the game data that component 0 spawns.
pub open spec fn game_data_spawned(g: inner_net_objects::GameData, a: Seq<u8>, s: int, owner_id: i32) -> bool {
    &&& g.net_id == comp_net_id(a, s, 0)
    &&& g.owner_id == owner_id
    &&& g.initial_spawn
    &&& if comp_len(a, s, 0) > 0 {
        players_read(
            Map::empty(),
            g.all_players@,
            a,
            player_messages(a, comp_payload(a, s, 0), comp_len(a, s, 0)),
        )
    } else {
        g.all_players@ == Map::<u8, PlayerInfo>::empty()
    }
}

/// `v` is the vote-ban system that component `i` spawns: it knows no votes.
pub open spec fn vote_ban_spawned(v: VoteBanSystem, a: Seq<u8>, s: int, owner_id: i32, i: int) -> bool {
    &&& v.net_id == comp_net_id(a, s, i as nat)
    &&& v.owner_id == owner_id
    &&& v.initial_spawn
    &&& v.votes@ == Map::<i32, Vec<i32>>::empty()
}

/// `new` is `old` after the first `k` components of a spawn of kind
/// `spawn_id` whose components start at `s`: kind 3 brings the game data
/// (component 0) and a vote-ban system (the last later one with a message),
/// kind 4 a player control, kind 2 the lobby (the last one with a message);
/// any other kind brings nothing.
pub open spec fn spawn_read(old: SpawnData, new: SpawnData, a: Seq<u8>, s: int, spawn_id: u32, owner_id: i32, k: int) -> bool {
    if spawn_id == 3 {
        &&& if k >= 1 && comp_msg(a, s, 0) is Some {
            new.game_data matches Some(g) && game_data_spawned(g, a, s, owner_id)
        } else {
            new.game_data == old.game_data
        }
        &&& if last_message(a, s, 1, k) >= 1 {
            new.vote_ban_system matches Some(v) && vote_ban_spawned(v, a, s, owner_id, last_message(a, s, 1, k))
        } else {
            new.vote_ban_system == old.vote_ban_system
        }
        &&& new.player_control == old.player_control
        &&& new.lobby_behavior == old.lobby_behavior
    } else if spawn_id == 4 {
        &&& new.player_control == control_after(old.player_control, a, s, owner_id, k)
        &&& new.game_data == old.game_data
        &&& new.vote_ban_system == old.vote_ban_system
        &&& new.lobby_behavior == old.lobby_behavior
    } else if spawn_id == 2 {
        &&& if last_message(a, s, 0, k) >= 0 {
            new.lobby_behavior == Some(LobbyBehavior {
                net_id: comp_net_id(a, s, last_message(a, s, 0, k) as nat),
                owner_id,
                initial_spawn: true,
            })
        } else {
            new.lobby_behavior == old.lobby_behavior
        }
        &&& new.game_data == old.game_data
        &&& new.vote_ban_system == old.vote_ban_system
        &&& new.player_control == old.player_control
    } else {
        new == old
    }
}

/// Component `i` can be read: its net id ends, and its message does not stop
/// halfway in its length.
pub open spec fn comp_readable(a: Seq<u8>, s: int, i: nat) -> bool {
    &&& packed_terminates(a, comp_pos(a, s, i))
    &&& hazel_readable(a, comp_msg_pos(a, s, i))
}

/// The object of component `i` can read its payload, and a player's physics
/// or movement object finds the control it belongs to.
pub open spec fn comp_object_readable(sd: SpawnData, a: Seq<u8>, s: int, spawn_id: u32, i: nat) -> bool {
    let m = comp_payload(a, s, i);
    let len = comp_len(a, s, i);
    comp_msg(a, s, i) is Some ==> {
        &&& (spawn_id == 3 && i == 0 && len > 0) ==> player_messages_readable(a, m, len)
        &&& (spawn_id == 3 && i >= 1 && len > 0) ==> m + 1 <= a.len() && vote_count(a, m) == 0
        &&& (spawn_id == 4 && i == 0 && len > 0) ==> m + 2 <= a.len()
        &&& (spawn_id == 4 && i == 2 && len > 0) ==> m + 10 <= a.len()
        &&& (spawn_id == 4 && (i == 1 || i == 2)) ==> sd.player_control is Some || comp_msg(a, s, 0) is Some
    }
}

/// The spawn message at `p` can be read into `sd`.
pub open spec fn spawn_readable(sd: SpawnData, a: Seq<u8>, p: int) -> bool {
    let s = spawn_first_pos(a, p);
    &&& a.len() + 0x1_0000 <= usize::MAX
    &&& packed_terminates(a, p)
    &&& packed_terminates(a, spawn_owner_pos(a, p))
    &&& spawn_flags_pos(a, p) < a.len()
    &&& packed_terminates(a, spawn_count_pos(a, p))
    &&& forall|i: nat| i < spawn_count_at(a, p) ==> #[trigger] comp_readable(a, s, i)
    &&& forall|i: nat| i < spawn_count_at(a, p) ==> #[trigger] comp_object_readable(sd, a, s, spawn_id_at(a, p), i)
}

// ---------------------------------------------------------------------
// Putting the objects of a spawn into a room.
// ---------------------------------------------------------------------
/// `new` is `old` after the spawned game data `o`, if any, is put into it.
pub open spec fn game_data_step(old: GameRoom, new: GameRoom, o: Option<inner_net_objects::GameData>) -> bool {
    match o {
        Some(g) => game_data_processed(old, new, g),
        None => new == old,
    }
}

/// `new` is `old` after the spawned vote-ban system `o`, if any, is put into
/// it.
pub open spec fn vote_ban_step(old: GameRoom, new: GameRoom, o: Option<VoteBanSystem>) -> bool {
    match o {
        Some(v) => vote_ban_processed(old, new, v),
        None => new == old,
    }
}

/// `new` is `old` after the spawned lobby `o`, if any, is put into it.
pub open spec fn lobby_step(old: GameRoom, new: GameRoom, o: Option<LobbyBehavior>) -> bool {
    match o {
        Some(l) => lobby_processed(old, new, l),
        None => new == old,
    }
}

/// `new` is `old` after the spawned control `o`, if any, is put into it.
pub open spec fn control_step(old: GameRoom, new: GameRoom, o: Option<PlayerControl>) -> bool {
    match o {
        Some(pc) => control_processed(old, new, pc),
        None => new == old,
    }
}

/// `new` is `old` after the physics of the spawned control `o`, if any, are
/// put into it.
pub open spec fn physics_step(old: GameRoom, new: GameRoom, o: Option<PlayerControl>) -> bool {
    match o {
        Some(pc) => match pc.player_physics {
            Some(pp) => physics_processed(old, new, PlayerPhysics { initial_spawn: false, ..pp }),
            None => new == old,
        },
        None => new == old,
    }
}

/// `new` is `old` after the movement object of the spawned control `o`, if
/// any, is put into it.
pub open spec fn transform_step(old: GameRoom, new: GameRoom, o: Option<PlayerControl>) -> bool {
    match o {
        Some(pc) => match pc.custom_network_transform {
            Some(t) => transform_processed(old, new, CustomNetworkTransform { initial_spawn: false, ..t }),
            None => new == old,
        },
        None => new == old,
    }
}

/// The physics of the spawned control `o`, if any, can be put into `room`.
pub open spec fn physics_step_ready(room: GameRoom, o: Option<PlayerControl>) -> bool {
    o matches Some(pc) && pc.player_physics matches Some(pp) ==> physics_processable(room, pp.net_id)
}

/// The movement object of the spawned control `o`, if any, can be put into
/// `room`.
pub open spec fn transform_step_ready(room: GameRoom, o: Option<PlayerControl>) -> bool {
    o matches Some(pc) && pc.custom_network_transform matches Some(t) ==> transform_processable(
        room,
        t.net_id,
    )
}

/// The rooms after the game data, the vote-ban system and the lobby of `sd`.
pub open spec fn shared_steps(sd: SpawnData, r0: GameRoom, r1: GameRoom, r2: GameRoom, r3: GameRoom) -> bool {
    &&& game_data_step(r0, r1, sd.game_data)
    &&& vote_ban_step(r1, r2, sd.vote_ban_system)
    &&& lobby_step(r2, r3, sd.lobby_behavior)
}

/// Every object of `sd` can be put into the room that the objects before it
/// leave: a control needs game data; its physics and movement object need
/// every player to have a control that names a player of the room.
pub open spec fn spawn_processable(sd: SpawnData, room: GameRoom) -> bool {
    forall|r1: GameRoom, r2: GameRoom, r3: GameRoom| #[trigger]
        shared_steps(sd, room, r1, r2, r3) ==> {
            &&& sd.player_control is Some ==> r3.game_data is Some
            &&& forall|r4: GameRoom| #[trigger]
                control_step(r3, r4, sd.player_control) ==> {
                    &&& physics_step_ready(r4, sd.player_control)
                    &&& forall|r5: GameRoom| #[trigger]
                        physics_step(r4, r5, sd.player_control) ==> transform_step_ready(
                            r5,
                            sd.player_control,
                        )
                }
        }
}

/// `new` is `old` after the objects of `sd` are put into it in turn: the game
/// data, the vote-ban system, the lobby, the control, its physics and its
/// movement object.
pub open spec fn spawn_processed(sd: SpawnData, old: GameRoom, new: GameRoom) -> bool {
    exists|r1: GameRoom, r2: GameRoom, r3: GameRoom, r4: GameRoom, r5: GameRoom|
        #![trigger shared_steps(sd, old, r1, r2, r3), control_step(r3, r4, sd.player_control), physics_step(r4, r5, sd.player_control)]
        {
            &&& shared_steps(sd, old, r1, r2, r3)
            &&& control_step(r3, r4, sd.player_control)
            &&& physics_step(r4, r5, sd.player_control)
            &&& transform_step(r5, new, sd.player_control)
        }
}

// ---------------------------------------------------------------------
// A data message for one object of a room.
// ---------------------------------------------------------------------
/// Whether the control `pc0` reads the data message: it has the net id and
/// the message a payload.
pub open spec fn control_takes_data(pc0: PlayerControl, net_id: u32, len: int) -> bool {
    pc0.net_id == net_id && len > 0
}

/// The control after the data message at `pos`, and where the cursor goes.
pub open spec fn data_control(pc0: PlayerControl, net_id: u32, a: Seq<u8>, len: int, pos: int) -> PlayerControl {
    if control_takes_data(pc0, net_id, len) {
        control_read(pc0, a, pos)
    } else {
        pc0
    }
}

pub open spec fn data_control_end(pc0: PlayerControl, net_id: u32, len: int, pos: int) -> int {
    if control_takes_data(pc0, net_id, len) {
        control_read_end(pc0, pos)
    } else {
        pos
    }
}

/// The movement object `t` after the data message at `pos`, and where the
/// cursor goes.
pub open spec fn data_transform(t: CustomNetworkTransform, a: Seq<u8>, len: int, pos: int) -> CustomNetworkTransform {
    if len > 0 {
        transform_read(t, a, pos)
    } else {
        t
    }
}

pub open spec fn data_transform_end(t: CustomNetworkTransform, a: Seq<u8>, len: int, pos: int) -> int {
    if len > 0 {
        transform_read_end(t, a, pos)
    } else {
        pos
    }
}

/// `ra` follows `room` once the control `pc0` of a player takes the data
/// message: a control with the net id goes into the room.
pub open spec fn data_control_part(pc0: PlayerControl, net_id: u32, a: Seq<u8>, len: int, pos: int, room: GameRoom, ra: GameRoom) -> bool {
    if pc0.net_id == net_id {
        control_processed(room, ra, data_control(pc0, net_id, a, len, pos))
    } else {
        ra == room
    }
}

/// `rb` follows `ra` once the physics of control `pc`, if they have the net
/// id, go into the room.
pub open spec fn data_physics_part(pc: PlayerControl, net_id: u32, ra: GameRoom, rb: GameRoom) -> bool {
    match pc.player_physics {
        Some(pp) => if pp.net_id == net_id {
            physics_processed(ra, rb, PlayerPhysics { initial_spawn: false, ..pp })
        } else {
            rb == ra
        },
        None => rb == ra,
    }
}

/// `(pos1, room1)` follow `(p1, rb)` once the movement object of control
/// `pc`, if it has the net id, reads the data message and goes into the room.
pub open spec fn data_transform_part(pc: PlayerControl, net_id: u32, a: Seq<u8>, len: int, p1: int, rb: GameRoom, pos1: int, room1: GameRoom) -> bool {
    match pc.custom_network_transform {
        Some(t) => if t.net_id == net_id {
            &&& pos1 == data_transform_end(t, a, len, p1)
            &&& transform_processed(
                rb,
                room1,
                CustomNetworkTransform { initial_spawn: false, ..data_transform(t, a, len, p1) },
            )
        } else {
            pos1 == p1 && room1 == rb
        },
        None => pos1 == p1 && room1 == rb,
    }
}

/// `(pos1, room1)` follow `(pos0, room0)` once the objects of player `v`
/// that have the net id take the data message at the cursor `pos0`: its
/// control, then the physics and the movement object of the control, with
/// `ra` and `rb` the rooms in between.
pub open spec fn data_step(v: PlayerInfo, net_id: u32, a: Seq<u8>, len: int, pos0: int, room0: GameRoom, ra: GameRoom, rb: GameRoom, pos1: int, room1: GameRoom) -> bool {
    match v.player_control {
        None => pos1 == pos0 && room1 == room0,
        Some(pc0) => {
            let pc = data_control(pc0, net_id, a, len, pos0);
            let p1 = data_control_end(pc0, net_id, len, pos0);
            &&& data_control_part(pc0, net_id, a, len, pos0, room0, ra)
            &&& data_physics_part(pc, net_id, ra, rb)
            &&& data_transform_part(pc, net_id, a, len, p1, rb, pos1, room1)
        },
    }
}

/// The movement object of control `pc`, if it has the net id, can read the
/// data message at `p1` and go into `rb`.
pub open spec fn data_transform_ok(pc: PlayerControl, net_id: u32, a: Seq<u8>, len: int, p1: int, rb: GameRoom) -> bool {
    match pc.custom_network_transform {
        Some(t) => t.net_id == net_id ==> {
            &&& len > 0 ==> p1 + 2 <= a.len() && (t.initial_spawn || t.last_sequence_id <= 32768)
                && (transform_takes(t, a, p1) ==> p1 + 10 <= a.len())
            &&& transform_processable(rb, net_id)
        },
        None => true,
    }
}

/// The objects of player `v` can take the data message at `pos` in `room`.
pub open spec fn data_step_ok(v: PlayerInfo, net_id: u32, a: Seq<u8>, len: int, pos: int, room: GameRoom) -> bool {
    match v.player_control {
        None => true,
        Some(pc0) => {
            let pc = data_control(pc0, net_id, a, len, pos);
            let p1 = data_control_end(pc0, net_id, len, pos);
            &&& room.game_data is Some
            &&& control_takes_data(pc0, net_id, len) ==> control_read_end(pc0, pos) <= a.len()
            &&& forall|ra: GameRoom| #[trigger]
                data_control_part(pc0, net_id, a, len, pos, room, ra) ==> {
                    &&& (pc.player_physics matches Some(pp) && pp.net_id == net_id) ==> physics_processable(ra, net_id)
                    &&& forall|rb: GameRoom| #[trigger]
                        data_physics_part(pc, net_id, ra, rb) ==> data_transform_ok(pc, net_id, a, len, p1, rb)
                }
        },
    }
}

/// The cursors `poss` and rooms `rooms` (with `ras` and `rbs` in between)
/// follow each other as the players `ks` of `players`, in this order, take
/// the data message.
pub open spec fn data_chain(
    players: Map<u8, PlayerInfo>,
    ks: Seq<u8>,
    net_id: u32,
    a: Seq<u8>,
    len: int,
    poss: Seq<int>,
    rooms: Seq<GameRoom>,
    ras: Seq<GameRoom>,
    rbs: Seq<GameRoom>,
) -> bool {
    &&& poss.len() == ks.len() + 1
    &&& rooms.len() == ks.len() + 1
    &&& ras.len() == ks.len()
    &&& rbs.len() == ks.len()
    &&& forall|i: int|
        0 <= i < ks.len() ==> #[trigger] data_step(
            players[ks[i]],
            net_id,
            a,
            len,
            poss[i],
            rooms[i],
            ras[i],
            rbs[i],
            poss[i + 1],
            rooms[i + 1],
        )
}

/// `(pos1, room1)` follow `(pos0, room0)` once the players `ks` of
/// `players`, in this order, take the data message.
pub open spec fn data_walk(players: Map<u8, PlayerInfo>, ks: Seq<u8>, net_id: u32, a: Seq<u8>, len: int, pos0: int, room0: GameRoom, pos1: int, room1: GameRoom) -> bool {
    exists|poss: Seq<int>, rooms: Seq<GameRoom>, ras: Seq<GameRoom>, rbs: Seq<GameRoom>|
        #[trigger] data_chain(players, ks, net_id, a, len, poss, rooms, ras, rbs) && poss[0] == pos0
            && rooms[0] == room0 && poss.last() == pos1 && rooms.last() == room1
}

/// Every player of `ks`, in this order, can take the data message wherever
/// the players before it leave the cursor and the room.
pub open spec fn data_walk_ok(players: Map<u8, PlayerInfo>, ks: Seq<u8>, net_id: u32, a: Seq<u8>, len: int, pos0: int, room0: GameRoom) -> bool {
    forall|j: int, poss: Seq<int>, rooms: Seq<GameRoom>, ras: Seq<GameRoom>, rbs: Seq<GameRoom>|
        0 <= j < ks.len() && #[trigger] data_chain(players, ks.take(j), net_id, a, len, poss, rooms, ras, rbs)
            && poss[0] == pos0 && rooms[0] == room0 ==> data_step_ok(
            players[ks[j]],
            net_id,
            a,
            len,
            poss.last(),
            rooms.last(),
        )
}

/// `ks` lists the keys of `m`, each once.
pub open spec fn key_order(m: Map<u8, PlayerInfo>, ks: Seq<u8>) -> bool {
    ks.no_duplicates() && ks.to_set() == m.dom()
}

/// A data message for net id `net_id`, of length `len`, whose cursor is at
/// `pos` in `a`, can be applied to `room`: the room has game data; the game
/// data reads the message when it has the net id, and otherwise the players,
/// in any order, can take it.
pub open spec fn data_processable_at(net_id: u32, a: Seq<u8>, pos: int, len: int, room: GameRoom) -> bool {
    &&& room.game_data is Some
    &&& if net_id == room.game_data.unwrap().net_id {
        len > 0 ==> a.len() + 0x1_0000 <= usize::MAX && player_messages_readable(a, pos, len)
    } else {
        forall|ks: Seq<u8>| #[trigger]
            key_order(room.game_data.unwrap().all_players@, ks) ==> data_walk_ok(
                room.game_data.unwrap().all_players@,
                ks,
                net_id,
                a,
                len,
                pos,
                room,
            )
    }
}

/// `new` is `old` after that data message: when the net id is the game
/// data's, the game data reads the message and goes back into the room, no
/// longer at its first spawn; otherwise the players take it in some order
/// of the game data's keys.
pub open spec fn data_processed_at(net_id: u32, a: Seq<u8>, pos: int, len: int, old: GameRoom, new: GameRoom) -> bool {
    let g = old.game_data.unwrap();
    if net_id == g.net_id {
        &&& new.game_data matches Some(h)
        &&& new.game_data.unwrap().net_id == g.net_id
        &&& new.game_data.unwrap().owner_id == g.owner_id
        &&& !new.game_data.unwrap().initial_spawn
        &&& if len > 0 {
            players_read(g.all_players@, new.game_data.unwrap().all_players@, a, player_messages(a, pos, len))
        } else {
            new.game_data.unwrap().all_players@ == g.all_players@
        }
        &&& same_but_game_data(old, new)
    } else {
        exists|ks: Seq<u8>, pos1: int| #[trigger]
            key_order(g.all_players@, ks) && #[trigger] data_walk(g.all_players@, ks, net_id, a, len, pos, old, pos1, new)
    }
}

/// The data message of `d` can be applied to `room`.
pub open spec fn data_processable(d: DataData, room: GameRoom) -> bool {
    data_processable_at(
        d.net_id,
        d.hazel_msg.buffer.array@,
        d.hazel_msg.buffer.position as int,
        d.hazel_msg.length as int,
        room,
    )
}

/// `new` is `old` after the data message of `d`.
pub open spec fn data_processed(d: DataData, old: GameRoom, new: GameRoom) -> bool {
    data_processed_at(
        d.net_id,
        d.hazel_msg.buffer.array@,
        d.hazel_msg.buffer.position as int,
        d.hazel_msg.length as int,
        old,
        new,
    )
}

/// No object of player `v` has net id `net_id`: neither its control nor the
/// control's physics or movement object.
pub open spec fn no_object_with(v: PlayerInfo, net_id: u32) -> bool {
    match v.player_control {
        None => true,
        Some(pc) => {
            &&& pc.net_id != net_id
            &&& (pc.player_physics matches Some(pp) ==> pp.net_id != net_id)
            &&& (pc.custom_network_transform matches Some(t) ==> t.net_id != net_id)
        },
    }
}

proof fn lemma_chain_still(
    players: Map<u8, PlayerInfo>,
    ks: Seq<u8>,
    net_id: u32,
    a: Seq<u8>,
    len: int,
    poss: Seq<int>,
    rooms: Seq<GameRoom>,
    ras: Seq<GameRoom>,
    rbs: Seq<GameRoom>,
    i: int,
)
    requires
        data_chain(players, ks, net_id, a, len, poss, rooms, ras, rbs),
        forall|j: int| 0 <= j < ks.len() ==> no_object_with(#[trigger] players[ks[j]], net_id),
        0 <= i <= ks.len(),
    ensures
        poss[i] == poss[0],
        rooms[i] == rooms[0],
    decreases i,
{
    if i > 0 {
        lemma_chain_still(players, ks, net_id, a, len, poss, rooms, ras, rbs, i - 1);
        let j = i - 1;
        assert(data_step(
            players[ks[j]],
            net_id,
            a,
            len,
            poss[j],
            rooms[j],
            ras[j],
            rbs[j],
            poss[j + 1],
            rooms[j + 1],
        ));
        assert(no_object_with(players[ks[i - 1]], net_id));
    }
}

/// A data message for a net id that neither the game data nor any player's
/// control, physics or movement object has leaves the room as it was.
pub proof fn lemma_unknown_net_id(net_id: u32, a: Seq<u8>, pos: int, len: int, old: GameRoom, new: GameRoom)
    requires
        old.game_data is Some,
        net_id != old.game_data.unwrap().net_id,
        forall|k: u8| #[trigger]
            old.game_data.unwrap().all_players@.contains_key(k) ==> no_object_with(
                old.game_data.unwrap().all_players@[k],
                net_id,
            ),
        data_processed_at(net_id, a, pos, len, old, new),
    ensures
        new == old,
{
    let players = old.game_data.unwrap().all_players@;
    let (ks, pos1) = choose|ks: Seq<u8>, pos1: int|
        key_order(players, ks) && data_walk(players, ks, net_id, a, len, pos, old, pos1, new);
    let (poss, rooms, ras, rbs) = choose|
        poss: Seq<int>,
        rooms: Seq<GameRoom>,
        ras: Seq<GameRoom>,
        rbs: Seq<GameRoom>,
    |
        data_chain(players, ks, net_id, a, len, poss, rooms, ras, rbs) && poss[0] == pos && rooms[0]
            == old && poss.last() == pos1 && rooms.last() == new;
    assert forall|j: int| 0 <= j < ks.len() implies no_object_with(#[trigger] players[ks[j]], net_id) by {
        assert(ks.to_set().contains(ks[j]));
    }
    lemma_chain_still(players, ks, net_id, a, len, poss, rooms, ras, rbs, ks.len() as int);
}

/// The spawn message that the server writes for a lobby, read back as a
/// spawn message, brings that lobby, at its first spawn, when the owner and
/// the net id are below 128 (the numbers the packed form carries faithfully)
/// and a byte follows the message.
pub proof fn lemma_lobby_spawn_roundtrip(l: LobbyBehavior, pre: Seq<u8>, rest: Seq<u8>)
    requires
        0 <= l.owner_id < 128,
        l.net_id < 128,
        rest.len() >= 1,
        pre.len() + lobby_spawn_body(l).len() + rest.len() + 0x1_0000 <= usize::MAX,
    ensures
        ({
            let a = pre + lobby_spawn_body(l) + rest;
            let p = pre.len() as int;
            &&& spawn_readable(SpawnData { game_data: None, vote_ban_system: None, player_control: None, lobby_behavior: None }, a, p)
            &&& forall|sd: SpawnData|
                #[trigger] spawn_read(
                    SpawnData { game_data: None, vote_ban_system: None, player_control: None, lobby_behavior: None },
                    sd,
                    a,
                    spawn_first_pos(a, p),
                    spawn_id_at(a, p),
                    spawn_owner_at(a, p),
                    spawn_count_at(a, p),
                ) ==> sd.lobby_behavior == Some(LobbyBehavior { initial_spawn: true, ..l })
        }),
{
    let o = i32_bits(l.owner_id);
    assert(o == l.owner_id);
    assert(i32_bits(1) == 1);
    lemma_packed_len(2, 2);
    lemma_packed_len(o, o);
    lemma_packed_len(1, 1);
    lemma_packed_len(l.net_id, l.net_id);
    let o8 = (o % 256) as u8;
    let n8 = (l.net_id % 256) as u8;
    let body = lobby_spawn_body(l);
    assert(body =~= seq![2u8, o8, 0u8, 1u8, n8, 0u8, 0u8, 1u8]);
    let a = pre + body + rest;
    let p = pre.len() as int;
    let s = p + 4;
    assert(a[p] == 2u8);
    assert(a[p + 1] == o8);
    assert(a[p + 2] == 0u8);
    assert(a[p + 3] == 1u8);
    assert(a[p + 4] == n8);
    assert(a[p + 5] == 0u8);
    assert(a[p + 6] == 0u8);
    assert(a[p + 7] == 1u8);
    assert(packed_end(a, p) == p + 1);
    assert(packed_end(a, p + 1) == p + 2);
    assert(packed_end(a, p + 3) == p + 4);
    assert(spawn_first_pos(a, p) == s);
    assert(spawn_count_at(a, p) == 1);
    assert(comp_pos(a, s, 0) == s);
    assert(packed_end(a, s) == p + 5);
    assert(a.subrange(p + 5, p + 7) =~= seq![0u8, 0u8]);
    assert(comp_msg(a, s, 0) is Some);
    assert(comp_net_id(a, s, 0) == l.net_id);
    assert(last_message(a, s, 0, 1) == 0);
    assert forall|i: nat| i < spawn_count_at(a, p) implies #[trigger] comp_readable(a, s, i) by {
        assert(i == 0);
    }
}

/// What the game objects of a message do: read themselves from a message
/// and put themselves into a room.
pub trait GameData: Sized {
    /// The object can read itself from `hazel_msg`.
    spec fn deserialize_requires(&self, hazel_msg: HazelMessage) -> bool;

    /// The object can be put into `room`.
    spec fn process_requires(&self, room: GameRoom) -> bool;

    fn deserialize(&mut self, hazel_msg: &mut HazelMessage)
        requires
            old(self).deserialize_requires(*old(hazel_msg)),
    ;

    fn process(&mut self, room: &mut GameRoom)
        requires
            old(self).process_requires(*old(room)),
    ;

    fn serialize(&self, buffer: &mut Buffer);
}

proof fn lemma_spawn_skip(sd0: SpawnData, sd: SpawnData, a: Seq<u8>, s: int, spawn_id: u32, owner_id: i32, i: int)
    requires
        0 <= i,
        spawn_read(sd0, sd, a, s, spawn_id, owner_id, i),
        comp_msg(a, s, i as nat) is None,
    ensures
        spawn_read(sd0, sd, a, s, spawn_id, owner_id, i + 1),
{
}

impl SpawnData {
    /// Puts the object that component `i`, with net id `net_id` and message
    /// `inner`, describes into its slot.
    fn take_component(
        &mut self,
        spawn_id: u32,
        owner_id: i32,
        i: i32,
        net_id: u32,
        inner: HazelMessage,
        Ghost(a): Ghost<Seq<u8>>,
        Ghost(s): Ghost<int>,
        Ghost(sd0): Ghost<SpawnData>,
    )
        requires
            0 <= i,
            spawn_read(sd0, *old(self), a, s, spawn_id, owner_id, i as int),
            comp_msg(a, s, i as nat) is Some,
            inner.length == comp_msg(a, s, i as nat).unwrap().0,
            inner.buffer.array@ == a,
            inner.buffer.position == comp_payload(a, s, i as nat),
            net_id == comp_net_id(a, s, i as nat),
            a.len() + 0x1_0000 <= usize::MAX,
            comp_object_readable(sd0, a, s, spawn_id, i as nat),
        ensures
            spawn_read(sd0, *final(self), a, s, spawn_id, owner_id, i + 1),
    {
        proof {
            assert(inner.buffer.array.len() == a.len());
        }
        if spawn_id == 3 {
            if i == 0 {
                let mut game_data = inner_net_objects::GameData {
                    net_id,
                    owner_id,
                    initial_spawn: true,
                    all_players: HashMap::new(),
                };
                if inner.length > 0 {
                    let mut msg = inner;
                    game_data.deserialize(&mut msg);
                }
                self.game_data = Some(game_data);
            } else {
                let mut vote_ban_system = VoteBanSystem {
                    net_id,
                    owner_id,
                    initial_spawn: true,
                    votes: HashMap::new(),
                };
                if inner.length > 0 {
                    let mut msg = inner;
                    proof {
                        assert(vec_views(vote_ban_system.votes@) =~= Map::empty());
                    }
                    vote_ban_system.deserialize(&mut msg);
                    proof {
                        assert forall|k: i32| !vote_ban_system.votes@.contains_key(k) by {
                            if vote_ban_system.votes@.contains_key(k) {
                                assert(vec_views(vote_ban_system.votes@).contains_key(k));
                            }
                        }
                        assert(vote_ban_system.votes@ =~= Map::<i32, Vec<i32>>::empty());
                    }
                }
                self.vote_ban_system = Some(vote_ban_system);
            }
        } else if spawn_id == 4 {
            if i == 0 {
                let mut player_control = PlayerControl {
                    net_id,
                    owner_id,
                    initial_spawn: true,
                    is_new: false,
                    player_id: 0,
                    player_physics: None,
                    custom_network_transform: None,
                };
                if inner.length > 0 {
                    let mut msg = inner;
                    player_control.deserialize(&mut msg);
                }
                self.player_control = Some(player_control);
            } else if i == 1 {
                let mut player_physics = PlayerPhysics { net_id, initial_spawn: true };
                if inner.length > 0 {
                    let mut msg = inner;
                    player_physics.deserialize(&mut msg);
                }
                let mut player_control = self.player_control.unwrap();
                player_control.player_physics = Some(player_physics);
                self.player_control = Some(player_control);
            } else if i == 2 {
                let mut custom_network_transform = CustomNetworkTransform {
                    net_id,
                    initial_spawn: true,
                    last_sequence_id: 0,
                    position: PackedVector2 { x: 32767, y: 32767 },
                    velocity: PackedVector2 { x: 32767, y: 32767 },
                };
                if inner.length > 0 {
                    let mut msg = inner;
                    custom_network_transform.deserialize(&mut msg);
                }
                let mut player_control = self.player_control.unwrap();
                player_control.custom_network_transform = Some(custom_network_transform);
                self.player_control = Some(player_control);
            }
        } else if spawn_id == 2 {
            let mut lobby_behavior = LobbyBehavior { net_id, owner_id, initial_spawn: true };
            if inner.length > 0 {
                let mut msg = inner;
                lobby_behavior.deserialize(&mut msg);
            }
            self.lobby_behavior = Some(lobby_behavior);
        }
    }
}

impl GameData for SpawnData {
    open spec fn deserialize_requires(&self, hazel_msg: HazelMessage) -> bool {
        spawn_readable(*self, hazel_msg.buffer.array@, hazel_msg.buffer.position as int)
    }

    open spec fn process_requires(&self, room: GameRoom) -> bool {
        spawn_processable(*self, room)
    }

    /// Reads the spawn id, the owner id, a flags byte and the count of
    /// components; each component is a net id and a message, whose object
    /// goes into the slot that the spawn id and the component's index name.
    fn deserialize(&mut self, hazel_msg: &mut HazelMessage)
        ensures
            ({
                let a = old(hazel_msg).buffer.array@;
                let p = old(hazel_msg).buffer.position as int;
                let s = spawn_first_pos(a, p);
                &&& spawn_read(*old(self), *final(self), a, s, spawn_id_at(a, p), spawn_owner_at(a, p), spawn_count_at(a, p))
                &&& final(hazel_msg).buffer.array@ == a
                &&& final(hazel_msg).buffer.position == comp_pos(a, s, spawn_count_at(a, p) as nat)
                &&& final(hazel_msg).length == old(hazel_msg).length
                &&& final(hazel_msg).tag == old(hazel_msg).tag
            }),
    {
        let ghost a = hazel_msg.buffer.array@;
        let ghost p = hazel_msg.buffer.position as int;
        let ghost s = spawn_first_pos(a, p);
        let ghost sd0 = *self;
        proof {
            lemma_packed_end_bounds(a, p);
            lemma_packed_end_bounds(a, spawn_owner_pos(a, p));
            lemma_packed_end_bounds(a, spawn_count_pos(a, p));
        }
        let spawn_id = hazel_msg.buffer.read_packed_uint_32();
        let owner_id = hazel_msg.buffer.read_packed_int_32();
        let _flags = hazel_msg.buffer.read_i8_le();
        let components = hazel_msg.buffer.read_packed_int_32();
        let mut i: i32 = 0;
        assert forall|j: nat| j < spawn_count_at(a, p) implies #[trigger] comp_object_readable(sd0, a, s, spawn_id, j) by {
            assert(comp_object_readable(sd0, a, spawn_first_pos(a, p), spawn_id_at(a, p), j));
        }
        while i < components
            invariant
                hazel_msg.buffer.array@ == a,
                a.len() + 0x1_0000 <= usize::MAX,
                hazel_msg.length == old(hazel_msg).length,
                hazel_msg.tag == old(hazel_msg).tag,
                spawn_id == spawn_id_at(a, p),
                owner_id == spawn_owner_at(a, p),
                components == spawn_count_at(a, p),
                0 <= i <= components,
                s == spawn_first_pos(a, p),
                sd0 == *old(self),
                forall|j: nat| j < spawn_count_at(a, p) ==> #[trigger] comp_readable(a, s, j),
                forall|j: nat| j < spawn_count_at(a, p) ==> #[trigger] comp_object_readable(sd0, a, s, spawn_id, j),
                hazel_msg.buffer.position == comp_pos(a, s, i as nat),
                spawn_read(sd0, *self, a, s, spawn_id, owner_id, i as int),
            decreases components - i,
        {
            proof {
                assert(comp_readable(a, s, i as nat));
                assert(comp_object_readable(sd0, a, s, spawn_id, i as nat));
                assert(hazel_msg.buffer.array.len() == a.len());
                lemma_packed_end_bounds(a, comp_pos(a, s, i as nat));
            }
            let net_id = hazel_msg.buffer.read_packed_uint_32();
            let hazel_inner = HazelMessage::read_message(&mut hazel_msg.buffer);
            match hazel_inner {
                Some(inner) => {
                    self.take_component(spawn_id, owner_id, i, net_id, inner, Ghost(a), Ghost(s), Ghost(sd0));
                },
                None => {
                    proof {
                        lemma_spawn_skip(sd0, *self, a, s, spawn_id, owner_id, i as int);
                    }
                },
            }
            assert(hazel_msg.buffer.position == comp_pos(a, s, (i + 1) as nat));
            i = i + 1;
        }
    }

    /// Puts the game data, the vote-ban system, the lobby, the control, its
    /// physics and its movement object into the room, those that there are.
    fn process(&mut self, room: &mut GameRoom)
        ensures
            *final(self) == *old(self),
            spawn_processed(*old(self), *old(room), *final(room)),
    {
        let ghost sd = *self;
        let ghost r0 = *room;
        let game_data = self.game_data.take();
        match game_data {
            Some(mut g) => {
                g.process(room);
                self.game_data = Some(g);
            },
            None => {},
        }
        let ghost r1 = *room;
        let vote_ban_system = self.vote_ban_system.take();
        match vote_ban_system {
            Some(mut v) => {
                v.process(room);
                self.vote_ban_system = Some(v);
            },
            None => {},
        }
        let ghost r2 = *room;
        match self.lobby_behavior {
            Some(l) => {
                let mut lobby_behavior = l;
                lobby_behavior.process(room);
            },
            None => {},
        }
        let ghost r3 = *room;
        assert(shared_steps(sd, r0, r1, r2, r3));
        match self.player_control {
            Some(pc) => {
                let mut player_control = pc;
                player_control.process(room);
                let ghost r4 = *room;
                assert(control_step(r3, r4, sd.player_control));
                match pc.player_physics {
                    Some(pp) => {
                        let mut player_physics = pp;
                        player_physics.process(room);
                    },
                    None => {},
                }
                let ghost r5 = *room;
                assert(physics_step(r4, r5, sd.player_control));
                match pc.custom_network_transform {
                    Some(t) => {
                        let mut custom_network_transform = t;
                        custom_network_transform.process(room);
                    },
                    None => {},
                }
                assert(transform_step(r5, *room, sd.player_control));
            },
            None => {
                assert(control_step(r3, r3, sd.player_control));
                assert(physics_step(r3, r3, sd.player_control));
                assert(transform_step(r3, *room, sd.player_control));
            },
        }
    }

    fn serialize(&self, buffer: &mut Buffer)
        ensures
            *final(buffer) == *old(buffer),
    {
    }
}

impl DataData {
    /// The objects of player `v` that have net id `net_id` take the data
    /// message `msg` and go into `room`: its control, then the physics and
    /// the movement object of the control. Gives the rooms in between.
    fn player_takes(v: &PlayerInfo, net_id: u32, msg: &mut HazelMessage, room: &mut GameRoom) -> (r: (Ghost<GameRoom>, Ghost<GameRoom>))
        requires
            data_step_ok(
                *v,
                net_id,
                old(msg).buffer.array@,
                old(msg).length as int,
                old(msg).buffer.position as int,
                *old(room),
            ),
        ensures
            final(msg).buffer.array@ == old(msg).buffer.array@,
            final(msg).length == old(msg).length,
            final(msg).tag == old(msg).tag,
            data_step(
                *v,
                net_id,
                old(msg).buffer.array@,
                old(msg).length as int,
                old(msg).buffer.position as int,
                *old(room),
                r.0@,
                r.1@,
                final(msg).buffer.position as int,
                *final(room),
            ),
    {
        let ghost a = msg.buffer.array@;
        let ghost len = msg.length as int;
        let ghost pos0 = msg.buffer.position as int;
        let ghost room0 = *room;
        proof {
            assert(msg.buffer.array.len() == a.len());
        }
        match v.player_control {
            None => (Ghost(*room), Ghost(*room)),
            Some(pc0) => {
                let mut player_control = pc0;
                if player_control.net_id == net_id {
                    if msg.length > 0 {
                        player_control.deserialize(msg);
                    }
                    player_control.process(room);
                }
                let ghost ra = *room;
                let ghost p1 = msg.buffer.position as int;
                assert(data_control_part(pc0, net_id, a, len, pos0, room0, ra));
                match player_control.player_physics {
                    Some(pp) => {
                        if pp.net_id == net_id {
                            let mut player_physics = pp;
                            if msg.length > 0 {
                                player_physics.deserialize(msg);
                            }
                            player_physics.process(room);
                        }
                    },
                    None => {},
                }
                let ghost rb = *room;
                assert(data_physics_part(player_control, net_id, ra, rb));
                assert(data_transform_ok(player_control, net_id, a, len, p1, rb));
                match player_control.custom_network_transform {
                    Some(t) => {
                        if t.net_id == net_id {
                            let mut custom_network_transform = t;
                            if msg.length > 0 {
                                custom_network_transform.deserialize(msg);
                            }
                            custom_network_transform.process(room);
                        }
                    },
                    None => {},
                }
                (Ghost(ra), Ghost(rb))
            },
        }
    }
}

impl GameData for DataData {
    open spec fn deserialize_requires(&self, hazel_msg: HazelMessage) -> bool {
        packed_terminates(hazel_msg.buffer.array@, hazel_msg.buffer.position as int)
    }

    open spec fn process_requires(&self, room: GameRoom) -> bool {
        data_processable(*self, room)
    }

    /// Reads the packed net id; the message, with its cursor behind the net
    /// id, is kept for the object.
    fn deserialize(&mut self, hazel_msg: &mut HazelMessage)
        ensures
            ({
                let a = old(hazel_msg).buffer.array@;
                let p = old(hazel_msg).buffer.position as int;
                &&& final(self).net_id == packed_u32_value(a, p)
                &&& final(hazel_msg).buffer.array@ == a
                &&& final(hazel_msg).buffer.position == packed_end(a, p)
                &&& final(hazel_msg).length == old(hazel_msg).length
                &&& final(hazel_msg).tag == old(hazel_msg).tag
                &&& final(self).hazel_msg.buffer.array@ == a
                &&& final(self).hazel_msg.buffer.position == packed_end(a, p)
                &&& final(self).hazel_msg.length == old(hazel_msg).length
                &&& final(self).hazel_msg.tag == old(hazel_msg).tag
            }),
    {
        let net_id = hazel_msg.buffer.read_packed_uint_32();
        self.net_id = net_id;
        self.hazel_msg = hazel_msg.duplicate();
    }

    /// Applies the data message to the room: the game data reads it when it
    /// has the net id; otherwise every player's control, physics and
    /// movement object with the net id read it in turn, from one cursor, and
    /// go into the room.
    fn process(&mut self, room: &mut GameRoom)
        ensures
            *final(self) == *old(self),
            data_processed(*old(self), *old(room), *final(room)),
    {
        let ghost a = self.hazel_msg.buffer.array@;
        let ghost len = self.hazel_msg.length as int;
        let ghost pos0 = self.hazel_msg.buffer.position as int;
        let ghost room0 = *room;
        let mut hazel_msg = self.hazel_msg.duplicate();
        let net_id = self.net_id;
        let g = room.game_data.as_ref().unwrap();
        if net_id == g.net_id {
            let mut game_data = inner_net_objects::GameData {
                net_id: g.net_id,
                owner_id: g.owner_id,
                initial_spawn: g.initial_spawn,
                all_players: g.all_players.clone(),
            };
            let ghost g0 = game_data;
            if hazel_msg.length > 0 {
                game_data.deserialize(&mut hazel_msg);
            }
            game_data.process(room);
            assert(g0.all_players@ == room0.game_data.unwrap().all_players@);
        } else {
            let players = g.all_players.clone();
            let ghost m = players@;
            let keys = crate::util::keys::byte_keys_of(&players);
            assert(key_order(m, keys@));
            let mut j: usize = 0;
            let ghost mut poss: Seq<int> = seq![pos0];
            let ghost mut rooms: Seq<GameRoom> = seq![room0];
            let ghost mut ras: Seq<GameRoom> = Seq::empty();
            let ghost mut rbs: Seq<GameRoom> = Seq::empty();
            assert(keys@.take(0) =~= Seq::<u8>::empty());
            while j < keys.len()
                invariant
                    m == room0.game_data.unwrap().all_players@,
                    players@ == m,
                    key_order(m, keys@),
                    data_walk_ok(m, keys@, net_id, a, len, pos0, room0),
                    0 <= j <= keys@.len(),
                    hazel_msg.buffer.array@ == a,
                    hazel_msg.length == len,
                    data_chain(m, keys@.take(j as int), net_id, a, len, poss, rooms, ras, rbs),
                    poss[0] == pos0,
                    rooms[0] == room0,
                    poss.last() == hazel_msg.buffer.position as int,
                    rooms.last() == *room,
                decreases keys@.len() - j,
            {
                let k = keys[j];
                let ghost pm = hazel_msg.buffer.position as int;
                let ghost rm = *room;
                proof {
                    assert(keys@.to_set().contains(k));
                    assert(data_step_ok(m[keys@[j as int]], net_id, a, len, pm, rm));
                }
                let v = players.get(&k).unwrap();
                let r = DataData::player_takes(v, net_id, &mut hazel_msg, room);
                proof {
                    let ks0 = keys@.take(j as int);
                    let ks1 = keys@.take(j + 1);
                    let poss1 = poss.push(hazel_msg.buffer.position as int);
                    let rooms1 = rooms.push(*room);
                    let ras1 = ras.push(r.0@);
                    let rbs1 = rbs.push(r.1@);
                    assert forall|i: int| 0 <= i < ks1.len() implies #[trigger] data_step(
                        m[ks1[i]],
                        net_id,
                        a,
                        len,
                        poss1[i],
                        rooms1[i],
                        ras1[i],
                        rbs1[i],
                        poss1[i + 1],
                        rooms1[i + 1],
                    ) by {
                        if i < j {
                            assert(ks1[i] == ks0[i]);
                            assert(data_step(
                                m[ks0[i]],
                                net_id,
                                a,
                                len,
                                poss[i],
                                rooms[i],
                                ras[i],
                                rbs[i],
                                poss[i + 1],
                                rooms[i + 1],
                            ));
                        }
                    }
                    poss = poss1;
                    rooms = rooms1;
                    ras = ras1;
                    rbs = rbs1;
                }
                j = j + 1;
            }
            proof {
                assert(keys@.take(keys@.len() as int) =~= keys@);
                assert(data_chain(m, keys@, net_id, a, len, poss, rooms, ras, rbs));
                assert(data_walk(m, keys@, net_id, a, len, pos0, room0, hazel_msg.buffer.position as int, *room));
                assert(key_order(m, keys@));
            }
        }
    }

    fn serialize(&self, buffer: &mut Buffer)
        ensures
            *final(buffer) == *old(buffer),
    {
    }
}

} // verus!
