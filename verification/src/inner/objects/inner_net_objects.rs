use std::collections::HashMap;
use vstd::prelude::*;
use crate::inner::rooms::GameRoom;
use crate::inner::structs::player::{info_fields, info_readable, PlayerInfo};
use crate::util::buffer::Buffer;
use crate::util::bytes::{
    u8_as_i8, be_u16, bool_at, le_i32_at, le_u16, lemma_packed_end_bounds, packed_end,
    packed_terminates, packed_u32_value, u16_be, u16_le,
};
use crate::util::hazel::{hazel_read_result, hazel_readable, HazelMessage};
use crate::util::util::sid_greater_than;
use crate::util::vector::{vector_at, PackedVector2};

verus! {

broadcast use vstd::std_specs::hash::group_hash_axioms;

/// An object of the game that the server tracks: it reads its state from a
/// message and puts it into its room.
pub trait InnerNetObject: Sized {
    /// The object can read its state from `hazel_msg`.
    spec fn deserialize_requires(&self, hazel_msg: HazelMessage) -> bool;

    /// The object can be put into `room`.
    spec fn process_requires(&self, room: GameRoom) -> bool;

    fn deserialize(&mut self, hazel_msg: &mut HazelMessage)
        requires
            old(self).deserialize_requires(*old(hazel_msg)),
    ;

    fn process(&mut self, room: &mut GameRoom)
        requires
            old(self).process_requires(*old(room)),
    ;

    fn serialize(&self, buffer: &mut Buffer);
}

/// The game's shared state object: every player's info, by player id.
#[derive(Debug, Clone)]
pub struct GameData {
    pub net_id: u32,
    pub owner_id: i32,
    pub initial_spawn: bool,
    pub all_players: HashMap<u8, PlayerInfo>,
}

/// The votes to kick players: for each player, the ids of those who voted.
#[derive(Debug, Clone)]
pub struct VoteBanSystem {
    pub net_id: u32,
    pub owner_id: i32,
    pub initial_spawn: bool,
    pub votes: HashMap<i32, Vec<i32>>,
}

/// A player's control object.
#[derive(Clone, Copy, Debug, PartialEq, Eq)]
pub struct PlayerControl {
    pub net_id: u32,
    pub owner_id: i32,
    pub initial_spawn: bool,
    pub is_new: bool,
    pub player_id: u8,
    pub player_physics: Option<PlayerPhysics>,
    pub custom_network_transform: Option<CustomNetworkTransform>,
}

/// The lobby object.
#[derive(Clone, Copy, Debug, PartialEq, Eq)]
pub struct LobbyBehavior {
    pub net_id: u32,
    pub owner_id: i32,
    pub initial_spawn: bool,
}

/// A player's physics object.
#[derive(Clone, Copy, Debug, PartialEq, Eq)]
pub struct PlayerPhysics {
    pub net_id: u32,
    pub initial_spawn: bool,
}

/// A player's movement object: the last sequence id seen, with the position
/// and velocity it brought.
#[derive(Clone, Copy, Debug, PartialEq, Eq)]
pub struct CustomNetworkTransform {
    pub net_id: u32,
    pub initial_spawn: bool,
    pub last_sequence_id: u16,
    pub position: PackedVector2,
    pub velocity: PackedVector2,
}

// ---------------------------------------------------------------------
// The player messages inside a game-data message.
// ---------------------------------------------------------------------
/// The messages read from index `pos` on while the cursor is below
/// `limit`: each one's tag and where its payload starts.
pub open spec fn player_messages(a: Seq<u8>, pos: int, limit: int) -> Seq<(u8, int)>
    decreases limit - pos,
{
    if pos >= limit {
        Seq::empty()
    } else {
        match hazel_read_result(a, pos) {
            None => Seq::empty(),
            Some((length, tag, next)) => if next < limit {
                seq![(tag, pos + 3)] + player_messages(a, next, limit)
            } else {
                seq![(tag, pos + 3)]
            },
        }
    }
}

/// Where the cursor stands once the messages from `pos` on are read.
pub open spec fn player_messages_end(a: Seq<u8>, pos: int, limit: int) -> int
    decreases limit - pos,
{
    if pos >= limit {
        pos
    } else {
        match hazel_read_result(a, pos) {
            None => if pos >= a.len() {
                pos
            } else if pos + 2 >= a.len() {
                pos + 2
            } else {
                pos + 3
            },
            Some((length, tag, next)) => if next < limit {
                player_messages_end(a, next, limit)
            } else {
                next
            },
        }
    }
}

/// Every message from `pos` on can be read, and so can the info it holds.
pub open spec fn player_messages_readable(a: Seq<u8>, pos: int, limit: int) -> bool
    decreases limit - pos,
{
    if pos >= limit {
        true
    } else {
        &&& hazel_readable(a, pos)
        &&& match hazel_read_result(a, pos) {
            None => true,
            Some((length, tag, next)) => info_readable(a, pos + 3) && (next < limit
                ==> player_messages_readable(a, next, limit)),
        }
    }
}

/// Where the payload of the last message with `tag` starts.
pub open spec fn last_payload(ms: Seq<(u8, int)>, tag: u8) -> int
    decreases ms.len(),
{
    if ms.len() == 0 {
        -1
    } else if ms.last().0 == tag {
        ms.last().1
    } else {
        last_payload(ms.drop_last(), tag)
    }
}

pub open spec fn has_tag(ms: Seq<(u8, int)>, tag: u8) -> bool {
    exists|i: int| 0 <= i < ms.len() && (#[trigger] ms[i]).0 == tag
}

/// `new` holds the players of `old` after reading the messages `ms`: a
/// player with a message has the info of its last message over the control
/// object it had, or none if it is new; every other player is as it was.
pub open spec fn players_read(
    old: Map<u8, PlayerInfo>,
    new: Map<u8, PlayerInfo>,
    a: Seq<u8>,
    ms: Seq<(u8, int)>,
) -> bool {
    &&& forall|t: u8| #[trigger] new.contains_key(t) <==> old.contains_key(t) || has_tag(ms, t)
    &&& forall|t: u8| #[trigger]
        new.contains_key(t) && !has_tag(ms, t) ==> new[t] == old[t]
    &&& forall|t: u8| #[trigger]
        has_tag(ms, t) ==> info_fields(new[t], a, last_payload(ms, t)) && new[t].player_control
            == if old.contains_key(t) {
            old[t].player_control
        } else {
            None
        }
}

proof fn lemma_messages_step(a: Seq<u8>, pos: int, limit: int)
    requires
        pos < limit,
        hazel_read_result(a, pos) is Some,
    ensures
        ({
            let (length, tag, next) = hazel_read_result(a, pos).unwrap();
            &&& next > pos
            &&& player_messages(a, pos, limit) == seq![(tag, pos + 3)] + player_messages(
                a,
                next,
                limit,
            )
            &&& player_messages_end(a, pos, limit) == player_messages_end(a, next, limit)
        }),
{
    let (length, tag, next) = hazel_read_result(a, pos).unwrap();
    if next >= limit {
        assert(player_messages(a, next, limit) =~= Seq::<(u8, int)>::empty());
        assert(seq![(tag, pos + 3)] + Seq::<(u8, int)>::empty() =~= seq![(tag, pos + 3)]);
    }
}

proof fn lemma_has_tag_push(ms: Seq<(u8, int)>, m: (u8, int), t: u8)
    ensures
        has_tag(ms.push(m), t) <==> has_tag(ms, t) || m.0 == t,
        last_payload(ms.push(m), t) == if m.0 == t {
            m.1
        } else {
            last_payload(ms, t)
        },
{
    let s = ms.push(m);
    assert(s.drop_last() =~= ms);
    if has_tag(s, t) && m.0 != t {
        let i = choose|i: int| 0 <= i < s.len() && (#[trigger] s[i]).0 == t;
        assert(ms[i] == s[i]);
    }
    if has_tag(ms, t) {
        let i = choose|i: int| 0 <= i < ms.len() && (#[trigger] ms[i]).0 == t;
        assert(s[i] == ms[i]);
    }
    if m.0 == t {
        assert(s[ms.len() as int] == m);
    }
}

// ---------------------------------------------------------------------
// The vote entries of a vote-ban message.
// ---------------------------------------------------------------------
/// How many vote entries follow (none for a negative count).
pub open spec fn vote_count(a: Seq<u8>, p: int) -> nat {
    let c = u8_as_i8(a[p]);
    if c < 0 {
        0
    } else {
        c as nat
    }
}

/// Where the three votes of the entry at `q` start, and end.
pub open spec fn vote_v1(a: Seq<u8>, q: int) -> int {
    packed_end(a, q + 4)
}

pub open spec fn vote_v2(a: Seq<u8>, q: int) -> int {
    packed_end(a, vote_v1(a, q))
}

pub open spec fn vote_end(a: Seq<u8>, q: int) -> int {
    packed_end(a, vote_v2(a, q))
}

/// Where the `k`-th vote entry starts, counting from the entry at `s`.
pub open spec fn vote_pos(a: Seq<u8>, s: int, k: nat) -> int
    decreases k,
{
    if k == 0 {
        s
    } else {
        vote_end(a, vote_pos(a, s, (k - 1) as nat))
    }
}

/// The votes of `m` after the entry at `q`: the first three votes of its
/// player are replaced.
pub open spec fn vote_applied(m: Map<i32, Seq<i32>>, a: Seq<u8>, q: int) -> Map<i32, Seq<i32>> {
    let key = le_i32_at(a, q);
    m.insert(
        key,
        m[key].update(0, packed_u32_value(a, q + 4) as i32).update(
            1,
            packed_u32_value(a, vote_v1(a, q)) as i32,
        ).update(2, packed_u32_value(a, vote_v2(a, q)) as i32),
    )
}

/// The votes of `m` after the first `n` entries from `s`.
pub open spec fn votes_after(m: Map<i32, Seq<i32>>, a: Seq<u8>, s: int, n: nat) -> Map<
    i32,
    Seq<i32>,
>
    decreases n,
{
    if n == 0 {
        m
    } else {
        vote_applied(votes_after(m, a, s, (n - 1) as nat), a, vote_pos(a, s, (n - 1) as nat))
    }
}

/// The first `n` vote entries from `s` can be read and each names a player
/// of `m` with at least three vote slots.
pub open spec fn votes_readable(m: Map<i32, Seq<i32>>, a: Seq<u8>, s: int, n: nat) -> bool
    decreases n,
{
    if n == 0 {
        true
    } else {
        let q = vote_pos(a, s, (n - 1) as nat);
        &&& votes_readable(m, a, s, (n - 1) as nat)
        &&& 0 <= q
        &&& q + 4 <= a.len()
        &&& packed_terminates(a, q + 4)
        &&& packed_terminates(a, vote_v1(a, q))
        &&& packed_terminates(a, vote_v2(a, q))
        &&& m.contains_key(le_i32_at(a, q))
        &&& m[le_i32_at(a, q)].len() >= 3
    }
}

proof fn lemma_votes_prefix(m: Map<i32, Seq<i32>>, a: Seq<u8>, s: int, n: nat, k: nat)
    requires
        votes_readable(m, a, s, n),
        k <= n,
    ensures
        votes_readable(m, a, s, k),
    decreases n - k,
{
    if k < n {
        lemma_votes_prefix(m, a, s, (n - 1) as nat, k);
    }
}

proof fn lemma_votes_keep_keys(m: Map<i32, Seq<i32>>, a: Seq<u8>, s: int, n: nat)
    requires
        votes_readable(m, a, s, n),
    ensures
        votes_after(m, a, s, n).dom() == m.dom(),
        forall|k: i32| #[trigger]
            m.contains_key(k) ==> votes_after(m, a, s, n)[k].len() == m[k].len(),
    decreases n,
{
    if n > 0 {
        lemma_votes_keep_keys(m, a, s, (n - 1) as nat);
        let prev = votes_after(m, a, s, (n - 1) as nat);
        let q = vote_pos(a, s, (n - 1) as nat);
        assert(votes_after(m, a, s, n).dom() =~= m.dom());
    }
}

/// The views of a map of vectors.
pub open spec fn vec_views(m: Map<i32, Vec<i32>>) -> Map<i32, Seq<i32>> {
    m.map_values(|v: Vec<i32>| v@)
}

// ---------------------------------------------------------------------
// Putting physics into a room.
// ---------------------------------------------------------------------
/// The player's control holds physics with net id `net_id`.
pub open spec fn physics_matches(v: PlayerInfo, net_id: u32) -> bool {
    v.player_control matches Some(pc) && pc.player_physics matches Some(pp) && pp.net_id == net_id
}

/// Every player has a control, and each control that holds physics with
/// `net_id` names a player id of the map.
pub open spec fn physics_ready(m: Map<u8, PlayerInfo>, net_id: u32) -> bool {
    forall|k: u8| #[trigger]
        m.contains_key(k) ==> m[k].player_control is Some && (physics_matches(m[k], net_id)
            ==> m.contains_key(m[k].player_control.unwrap().player_id))
}

/// The player ids named by the controls of the players `ks` whose physics
/// have `net_id`.
pub open spec fn physics_targets(m: Map<u8, PlayerInfo>, net_id: u32, ks: Seq<u8>) -> Set<u8> {
    Set::new(
        |t: u8|
            exists|i: int|
                0 <= i < ks.len() && physics_matches(m[#[trigger] ks[i]], net_id)
                    && m[ks[i]].player_control.unwrap().player_id == t,
    )
}

/// The player ids named by the controls of all players whose physics have
/// `net_id`.
pub open spec fn all_physics_targets(m: Map<u8, PlayerInfo>, net_id: u32) -> Set<u8> {
    Set::new(
        |t: u8|
            exists|k: u8|
                #[trigger] m.contains_key(k) && physics_matches(m[k], net_id)
                    && m[k].player_control.unwrap().player_id == t,
    )
}

/// `m` with the physics of the players `targets` replaced by `pp`.
pub open spec fn physics_update(m: Map<u8, PlayerInfo>, pp: PlayerPhysics, targets: Set<u8>) -> Map<
    u8,
    PlayerInfo,
> {
    Map::new(
        |j: u8| m.contains_key(j),
        |j: u8|
            if targets.contains(j) {
                PlayerInfo {
                    player_control: Some(
                        PlayerControl { player_physics: Some(pp), ..m[j].player_control.unwrap() },
                    ),
                    ..m[j]
                }
            } else {
                m[j]
            },
    )
}

pub open spec fn physics_processable(room: GameRoom, net_id: u32) -> bool {
    room.game_data matches Some(g) && physics_ready(g.all_players@, net_id)
}

/// `new` is `old` with physics `pp` put into its players.
pub open spec fn physics_processed(old: GameRoom, new: GameRoom, pp: PlayerPhysics) -> bool {
    &&& old.game_data matches Some(g)
    &&& new.game_data matches Some(h)
    &&& h.net_id == g.net_id
    &&& h.owner_id == g.owner_id
    &&& h.initial_spawn == g.initial_spawn
    &&& h.all_players@ == physics_update(
        g.all_players@,
        pp,
        all_physics_targets(g.all_players@, pp.net_id),
    )
    &&& same_but_game_data(old, new)
}

// ---------------------------------------------------------------------
// Putting a movement object into a room.
// ---------------------------------------------------------------------
/// The player's control holds physics, and a movement object with net id
/// `net_id`.
pub open spec fn transform_matches(v: PlayerInfo, net_id: u32) -> bool {
    &&& v.player_control is Some
    &&& v.player_control.unwrap().player_physics is Some
    &&& v.player_control.unwrap().custom_network_transform is Some
    &&& v.player_control.unwrap().custom_network_transform.unwrap().net_id == net_id
}

/// Every player has a control, every control with physics has a movement
/// object, and each control whose movement object has `net_id` names a
/// player id of the map.
pub open spec fn transform_ready(m: Map<u8, PlayerInfo>, net_id: u32) -> bool {
    forall|k: u8| #[trigger]
        m.contains_key(k) ==> m[k].player_control is Some && (
        m[k].player_control.unwrap().player_physics is Some
            ==> m[k].player_control.unwrap().custom_network_transform is Some) && (
        transform_matches(m[k], net_id) ==> m.contains_key(m[k].player_control.unwrap().player_id))
}

/// The player ids named by the controls of the players `ks` whose movement
/// objects have `net_id`.
pub open spec fn transform_targets(m: Map<u8, PlayerInfo>, net_id: u32, ks: Seq<u8>) -> Set<u8> {
    Set::new(
        |t: u8|
            exists|i: int|
                0 <= i < ks.len() && transform_matches(m[#[trigger] ks[i]], net_id)
                    && m[ks[i]].player_control.unwrap().player_id == t,
    )
}

/// The player ids named by the controls of all players whose movement objects
/// have `net_id`.
pub open spec fn all_transform_targets(m: Map<u8, PlayerInfo>, net_id: u32) -> Set<u8> {
    Set::new(
        |t: u8|
            exists|k: u8|
                #[trigger] m.contains_key(k) && transform_matches(m[k], net_id)
                    && m[k].player_control.unwrap().player_id == t,
    )
}

/// `m` with the movement objects of the players `targets` replaced by `pp`.
pub open spec fn transform_update(m: Map<u8, PlayerInfo>, pp: CustomNetworkTransform, targets: Set<u8>) -> Map<
    u8,
    PlayerInfo,
> {
    Map::new(
        |j: u8| m.contains_key(j),
        |j: u8|
            if targets.contains(j) {
                PlayerInfo {
                    player_control: Some(
                        PlayerControl { custom_network_transform: Some(pp), ..m[j].player_control.unwrap() },
                    ),
                    ..m[j]
                }
            } else {
                m[j]
            },
    )
}

pub open spec fn transform_processable(room: GameRoom, net_id: u32) -> bool {
    room.game_data matches Some(g) && transform_ready(g.all_players@, net_id)
}

/// `new` is `old` with movement object `pp` put into its players.
pub open spec fn transform_processed(old: GameRoom, new: GameRoom, pp: CustomNetworkTransform) -> bool {
    &&& old.game_data matches Some(g)
    &&& new.game_data matches Some(h)
    &&& h.net_id == g.net_id
    &&& h.owner_id == g.owner_id
    &&& h.initial_spawn == g.initial_spawn
    &&& h.all_players@ == transform_update(
        g.all_players@,
        pp,
        all_transform_targets(g.all_players@, pp.net_id),
    )
    &&& same_but_game_data(old, new)
}

/// Whether a movement object takes the update at `p`: always at its first
/// spawn, otherwise when the update's sequence id is newer.
pub open spec fn transform_takes(c: CustomNetworkTransform, a: Seq<u8>, p: int) -> bool {
    c.initial_spawn || sid_newer(be_u16(a.subrange(p, p + 2)), c.last_sequence_id)
}

/// A movement object after reading the update at `p`.
pub open spec fn transform_read(c: CustomNetworkTransform, a: Seq<u8>, p: int) -> CustomNetworkTransform {
    if transform_takes(c, a, p) {
        CustomNetworkTransform {
            last_sequence_id: be_u16(a.subrange(p, p + 2)),
            position: vector_at(a, p + 2),
            velocity: vector_at(a, p + 6),
            ..c
        }
    } else {
        c
    }
}

/// Where reading the update at `p` ends.
pub open spec fn transform_read_end(c: CustomNetworkTransform, a: Seq<u8>, p: int) -> int {
    if transform_takes(c, a, p) {
        p + 10
    } else {
        p + 2
    }
}

/// A control object after reading the state at `p`.
pub open spec fn control_read(pc: PlayerControl, a: Seq<u8>, p: int) -> PlayerControl {
    let d = if pc.initial_spawn {
        1int
    } else {
        0
    };
    PlayerControl {
        is_new: if pc.initial_spawn {
            bool_at(a, p)
        } else {
            pc.is_new
        },
        player_id: a[p + d],
        ..pc
    }
}

/// Where reading a control object's state at `p` ends.
pub open spec fn control_read_end(pc: PlayerControl, p: int) -> int {
    if pc.initial_spawn {
        p + 2
    } else {
        p + 1
    }
}

/// A movement update is laid out as the big-endian sequence id, then the
/// position, then the velocity, each coordinate a little-endian `u16`. Read
/// at its start, an update that is taken (at the first spawn, or with a newer
/// sequence id) sets the sequence id, the position and the velocity to the
/// ones written there, in that order, and ends ten bytes on; one that is not
/// taken leaves the object as it was and ends after the sequence id.
pub proof fn lemma_transform_layout(
    c: CustomNetworkTransform,
    pre: Seq<u8>,
    sid: u16,
    position: PackedVector2,
    velocity: PackedVector2,
    rest: Seq<u8>,
)
    ensures
        ({
            let a = pre + u16_be(sid) + u16_le(position.x) + u16_le(position.y) + u16_le(
                velocity.x,
            ) + u16_le(velocity.y) + rest;
            let p = pre.len() as int;
            if c.initial_spawn || sid_newer(sid, c.last_sequence_id) {
                &&& transform_read(c, a, p) == CustomNetworkTransform {
                    last_sequence_id: sid,
                    position,
                    velocity,
                    ..c
                }
                &&& transform_read_end(c, a, p) == p + 10
            } else {
                &&& transform_read(c, a, p) == c
                &&& transform_read_end(c, a, p) == p + 2
            }
        }),
{
    let a = pre + u16_be(sid) + u16_le(position.x) + u16_le(position.y) + u16_le(velocity.x)
        + u16_le(velocity.y) + rest;
    let p = pre.len() as int;
    assert(a.subrange(p, p + 2) =~= u16_be(sid));
    assert(a.subrange(p + 2, p + 4) =~= u16_le(position.x));
    assert(a.subrange(p + 4, p + 6) =~= u16_le(position.y));
    assert(a.subrange(p + 6, p + 8) =~= u16_le(velocity.x));
    assert(a.subrange(p + 8, p + 10) =~= u16_le(velocity.y));
    assert(be_u16(u16_be(sid)) == sid);
    assert(le_u16(u16_le(position.x)) == position.x);
    assert(le_u16(u16_le(position.y)) == position.y);
    assert(le_u16(u16_le(velocity.x)) == velocity.x);
    assert(le_u16(u16_le(velocity.y)) == velocity.y);
    assert(vector_at(a, p + 2) == position);
    assert(vector_at(a, p + 6) == velocity);
}

/// A control object's state is laid out as the "is new" flag, at its first
/// spawn only, then the id of the player it belongs to. Read at its start, it
/// takes the player id from the byte after the flag at the first spawn (and
/// the flag from the first byte), from the first byte otherwise, and ends
/// after the player id.
pub proof fn lemma_control_layout(pc: PlayerControl, pre: Seq<u8>, flag: u8, id: u8, rest: Seq<u8>)
    ensures
        pc.initial_spawn ==> ({
            let a = pre + seq![flag, id] + rest;
            let p = pre.len() as int;
            &&& control_read(pc, a, p) == PlayerControl { is_new: flag != 0, player_id: id, ..pc }
            &&& control_read_end(pc, p) == p + 2
        }),
        !pc.initial_spawn ==> ({
            let a = pre + seq![id] + rest;
            let p = pre.len() as int;
            &&& control_read(pc, a, p) == PlayerControl { player_id: id, ..pc }
            &&& control_read_end(pc, p) == p + 1
        }),
{
    let p = pre.len() as int;
    let a1 = pre + seq![flag, id] + rest;
    assert(a1[p] == flag && a1[p + 1] == id);
    let a0 = pre + seq![id] + rest;
    assert(a0[p] == id);
}

/// Sequence id `new_sid` comes after `prev_sid`.
pub open spec fn sid_newer(new_sid: u16, prev_sid: u16) -> bool {
    prev_sid < new_sid <= prev_sid + 32767
}

/// Two rooms that agree on all but their game data.
pub open spec fn same_but_game_data(old: GameRoom, new: GameRoom) -> bool {
    &&& new.state == old.state
    &&& new.code == old.code
    &&& new.players == old.players
    &&& new.vote_ban_system == old.vote_ban_system
    &&& new.lobby_behavior == old.lobby_behavior
    &&& new.host == old.host
    &&& new.waiting_for_host == old.waiting_for_host
}

/// `new` is `old` with control `pc0` put into its game data: the control, no
/// longer at its first spawn, goes to the player its player id names; an
/// unknown player is added with no outfits, level 0 and no flags.
pub open spec fn control_processed(old: GameRoom, new: GameRoom, pc0: PlayerControl) -> bool {
    let pc = PlayerControl { initial_spawn: false, ..pc0 };
    let id = pc0.player_id;
    let g = old.game_data.unwrap();
    &&& new.game_data matches Some(h)
    &&& new.game_data.unwrap().net_id == g.net_id
    &&& new.game_data.unwrap().owner_id == g.owner_id
    &&& new.game_data.unwrap().initial_spawn == g.initial_spawn
    &&& new.game_data.unwrap().all_players@.dom() == g.all_players@.dom().insert(id)
    &&& forall|k: u8| #[trigger]
        g.all_players@.contains_key(k) && k != id
            ==> new.game_data.unwrap().all_players@[k] == g.all_players@[k]
    &&& if g.all_players@.contains_key(id) {
        new.game_data.unwrap().all_players@[id] == (PlayerInfo {
            player_control: Some(pc),
            ..g.all_players@[id]
        })
    } else {
        let info = new.game_data.unwrap().all_players@[id];
        &&& info.outfits@ == Map::<i8, crate::inner::structs::player::PlayerOutfit>::empty()
        &&& info.level == 0
        &&& !info.disconnected
        &&& !info.dead
        &&& info.player_control == Some(pc)
    }
    &&& same_but_game_data(old, new)
}

/// `new` is `old` whose game data is a copy of `gd`, no longer at its first
/// spawn.
pub open spec fn game_data_processed(old: GameRoom, new: GameRoom, gd: GameData) -> bool {
    &&& new.game_data matches Some(g)
    &&& new.game_data.unwrap().net_id == gd.net_id
    &&& new.game_data.unwrap().owner_id == gd.owner_id
    &&& !new.game_data.unwrap().initial_spawn
    &&& new.game_data.unwrap().all_players@ == gd.all_players@
    &&& same_but_game_data(old, new)
}

/// `new` is `old` whose vote-ban system is a copy of `v`, no longer at its
/// first spawn.
pub open spec fn vote_ban_processed(old: GameRoom, new: GameRoom, v: VoteBanSystem) -> bool {
    &&& new.vote_ban_system matches Some(w)
    &&& new.vote_ban_system.unwrap().net_id == v.net_id
    &&& new.vote_ban_system.unwrap().owner_id == v.owner_id
    &&& !new.vote_ban_system.unwrap().initial_spawn
    &&& new.vote_ban_system.unwrap().votes@ == v.votes@
    &&& new.state == old.state
    &&& new.code == old.code
    &&& new.players == old.players
    &&& new.game_data == old.game_data
    &&& new.lobby_behavior == old.lobby_behavior
    &&& new.host == old.host
    &&& new.waiting_for_host == old.waiting_for_host
}

/// `new` is `old` whose lobby is `l`, no longer at its first spawn.
pub open spec fn lobby_processed(old: GameRoom, new: GameRoom, l: LobbyBehavior) -> bool {
    new == (GameRoom { lobby_behavior: Some(LobbyBehavior { initial_spawn: false, ..l }), ..old })
}

proof fn lemma_targets_step(m: Map<u8, PlayerInfo>, net_id: u32, ks: Seq<u8>, j: int)
    requires
        0 <= j < ks.len(),
    ensures
        physics_targets(m, net_id, ks.take(j + 1)) == if physics_matches(m[ks[j]], net_id) {
            physics_targets(m, net_id, ks.take(j)).insert(m[ks[j]].player_control.unwrap().player_id)
        } else {
            physics_targets(m, net_id, ks.take(j))
        },
{
    let a = ks.take(j);
    let b = ks.take(j + 1);
    let ta = physics_targets(m, net_id, a);
    let tb = physics_targets(m, net_id, b);
    let expected = if physics_matches(m[ks[j]], net_id) {
        ta.insert(m[ks[j]].player_control.unwrap().player_id)
    } else {
        ta
    };
    assert forall|t: u8| tb.contains(t) <==> expected.contains(t) by {
        if tb.contains(t) {
            let i = choose|i: int|
                0 <= i < b.len() && physics_matches(m[#[trigger] b[i]], net_id)
                    && m[b[i]].player_control.unwrap().player_id == t;
            if i < j {
                assert(a[i] == b[i]);
            }
        }
        if ta.contains(t) {
            let i = choose|i: int|
                0 <= i < a.len() && physics_matches(m[#[trigger] a[i]], net_id)
                    && m[a[i]].player_control.unwrap().player_id == t;
            assert(b[i] == a[i]);
        }
        if physics_matches(m[ks[j]], net_id) && t == m[ks[j]].player_control.unwrap().player_id {
            assert(b[j] == ks[j]);
        }
    }
    assert(tb =~= expected);
}

proof fn lemma_all_targets(m: Map<u8, PlayerInfo>, net_id: u32, ks: Seq<u8>)
    requires
        ks.to_set() == m.dom(),
    ensures
        physics_targets(m, net_id, ks) == all_physics_targets(m, net_id),
{
    assert forall|t: u8| physics_targets(m, net_id, ks).contains(t) <==> all_physics_targets(
        m,
        net_id,
    ).contains(t) by {
        if all_physics_targets(m, net_id).contains(t) {
            let k = choose|k: u8|
                #[trigger] m.contains_key(k) && physics_matches(m[k], net_id)
                    && m[k].player_control.unwrap().player_id == t;
            assert(ks.to_set().contains(k));
            let i = choose|i: int| 0 <= i < ks.len() && ks[i] == k;
            assert(physics_matches(m[ks[i]], net_id));
        }
        if physics_targets(m, net_id, ks).contains(t) {
            let i = choose|i: int|
                0 <= i < ks.len() && physics_matches(m[#[trigger] ks[i]], net_id)
                    && m[ks[i]].player_control.unwrap().player_id == t;
            assert(ks.to_set().contains(ks[i]));
            assert(m.contains_key(ks[i]));
        }
    }
    assert(physics_targets(m, net_id, ks) =~= all_physics_targets(m, net_id));
}
proof fn lemma_transform_targets_step(m: Map<u8, PlayerInfo>, net_id: u32, ks: Seq<u8>, j: int)
    requires
        0 <= j < ks.len(),
    ensures
        transform_targets(m, net_id, ks.take(j + 1)) == if transform_matches(m[ks[j]], net_id) {
            transform_targets(m, net_id, ks.take(j)).insert(m[ks[j]].player_control.unwrap().player_id)
        } else {
            transform_targets(m, net_id, ks.take(j))
        },
{
    let a = ks.take(j);
    let b = ks.take(j + 1);
    let ta = transform_targets(m, net_id, a);
    let tb = transform_targets(m, net_id, b);
    let expected = if transform_matches(m[ks[j]], net_id) {
        ta.insert(m[ks[j]].player_control.unwrap().player_id)
    } else {
        ta
    };
    assert forall|t: u8| tb.contains(t) <==> expected.contains(t) by {
        if tb.contains(t) {
            let i = choose|i: int|
                0 <= i < b.len() && transform_matches(m[#[trigger] b[i]], net_id)
                    && m[b[i]].player_control.unwrap().player_id == t;
            if i < j {
                assert(a[i] == b[i]);
            }
        }
        if ta.contains(t) {
            let i = choose|i: int|
                0 <= i < a.len() && transform_matches(m[#[trigger] a[i]], net_id)
                    && m[a[i]].player_control.unwrap().player_id == t;
            assert(b[i] == a[i]);
        }
        if transform_matches(m[ks[j]], net_id) && t == m[ks[j]].player_control.unwrap().player_id {
            assert(b[j] == ks[j]);
        }
    }
    assert(tb =~= expected);
}

proof fn lemma_all_transform_targets(m: Map<u8, PlayerInfo>, net_id: u32, ks: Seq<u8>)
    requires
        ks.to_set() == m.dom(),
    ensures
        transform_targets(m, net_id, ks) == all_transform_targets(m, net_id),
{
    assert forall|t: u8| transform_targets(m, net_id, ks).contains(t) <==> all_transform_targets(
        m,
        net_id,
    ).contains(t) by {
        if all_transform_targets(m, net_id).contains(t) {
            let k = choose|k: u8|
                #[trigger] m.contains_key(k) && transform_matches(m[k], net_id)
                    && m[k].player_control.unwrap().player_id == t;
            assert(ks.to_set().contains(k));
            let i = choose|i: int| 0 <= i < ks.len() && ks[i] == k;
            assert(transform_matches(m[ks[i]], net_id));
        }
        if transform_targets(m, net_id, ks).contains(t) {
            let i = choose|i: int|
                0 <= i < ks.len() && transform_matches(m[#[trigger] ks[i]], net_id)
                    && m[ks[i]].player_control.unwrap().player_id == t;
            assert(ks.to_set().contains(ks[i]));
            assert(m.contains_key(ks[i]));
        }
    }
    assert(transform_targets(m, net_id, ks) =~= all_transform_targets(m, net_id));
}

impl InnerNetObject for LobbyBehavior {
    open spec fn deserialize_requires(&self, hazel_msg: HazelMessage) -> bool {
        true
    }

    open spec fn process_requires(&self, room: GameRoom) -> bool {
        true
    }

    /// The lobby carries no state of its own.
    fn deserialize(&mut self, hazel_msg: &mut HazelMessage)
        ensures
            *final(self) == *old(self),
            *final(hazel_msg) == *old(hazel_msg),
    {
    }

    /// The room's lobby becomes this one, no longer at its first spawn.
    fn process(&mut self, room: &mut GameRoom)
        ensures
            *final(self) == *old(self),
            lobby_processed(*old(room), *final(room), *old(self)),
    {
        let mut lobby_behavior = *self;
        lobby_behavior.initial_spawn = false;
        room.lobby_behavior = Some(lobby_behavior);
    }

    fn serialize(&self, buffer: &mut Buffer)
        ensures
            *final(buffer) == *old(buffer),
    {
    }
}

impl InnerNetObject for PlayerPhysics {
    open spec fn deserialize_requires(&self, hazel_msg: HazelMessage) -> bool {
        true
    }

    open spec fn process_requires(&self, room: GameRoom) -> bool {
        physics_processable(room, self.net_id)
    }

    /// The physics carry no state of their own.
    fn deserialize(&mut self, hazel_msg: &mut HazelMessage)
        ensures
            *final(self) == *old(self),
            *final(hazel_msg) == *old(hazel_msg),
    {
    }

    /// Every player whose control holds physics with this net id has the
    /// physics of its control's player id replaced by this one, no longer at
    /// its first spawn.
    fn process(&mut self, room: &mut GameRoom)
        ensures
            *final(self) == *old(self),
            physics_processed(
                *old(room),
                *final(room),
                PlayerPhysics { initial_spawn: false, ..*old(self) },
            ),
    {
        let player_physics = PlayerPhysics { initial_spawn: false, ..*self };
        let net_id = self.net_id;
        let mut game_data = room.game_data.take().unwrap();
        let ghost g0 = game_data;
        let ghost players0 = game_data.all_players@;
        let snapshot = game_data.all_players.clone();
        let keys = crate::util::keys::byte_keys_of(&snapshot);
        let mut j: usize = 0;
        while j < keys.len()
            invariant
                keys@.to_set() == players0.dom(),
                snapshot@ == players0,
                physics_ready(players0, net_id),
                g0.all_players@ == players0,
                game_data.net_id == g0.net_id,
                game_data.owner_id == g0.owner_id,
                game_data.initial_spawn == g0.initial_spawn,
                old(room).game_data == Some(g0),
                *room == (GameRoom { game_data: None, ..*old(room) }),
                0 <= j <= keys@.len(),
                game_data.all_players@ == physics_update(
                    players0,
                    player_physics,
                    physics_targets(players0, net_id, keys@.take(j as int)),
                ),
            decreases keys@.len() - j,
        {
            let k = keys[j];
            proof {
                assert(keys@.to_set().contains(k));
                assert(keys@.take(j + 1) =~= keys@.take(j as int).push(k));
            }
            let v = snapshot.get(&k).unwrap();
            assert(players0.contains_key(k));
            assert(*v == players0[k]);
            let pc = v.player_control.unwrap();
            let matched = match pc.player_physics {
                Some(pp) => pp.net_id == net_id,
                None => false,
            };
            if matched {
                let target = pc.player_id;
                let mut info = game_data.all_players.remove(&target).unwrap();
                let mut control = info.player_control.unwrap();
                control.player_physics = Some(player_physics);
                info.player_control = Some(control);
                game_data.all_players.insert(target, info);
            }
            proof {
                lemma_targets_step(players0, net_id, keys@, j as int);
                assert(game_data.all_players@ =~= physics_update(
                    players0,
                    player_physics,
                    physics_targets(players0, net_id, keys@.take(j + 1)),
                ));
            }
            j = j + 1;
        }
        proof {
            assert(keys@.take(keys@.len() as int) =~= keys@);
            lemma_all_targets(players0, net_id, keys@);
        }
        room.game_data = Some(game_data);
    }

    fn serialize(&self, buffer: &mut Buffer)
        ensures
            *final(buffer) == *old(buffer),
    {
    }
}

impl InnerNetObject for CustomNetworkTransform {
    /// A first spawn needs a sequence id and two vectors; a later update
    /// needs a sequence id and, when it is newer, two vectors.
    open spec fn deserialize_requires(&self, hazel_msg: HazelMessage) -> bool {
        let b = hazel_msg.buffer;
        let a = b.array@;
        let p = b.position as int;
        &&& b.can_read(2)
        &&& (self.initial_spawn || self.last_sequence_id <= 32768)
        &&& (self.initial_spawn || sid_newer(be_u16(a.subrange(p, p + 2)), self.last_sequence_id))
            ==> b.can_read(10)
    }

    open spec fn process_requires(&self, room: GameRoom) -> bool {
        transform_processable(room, self.net_id)
    }

    /// Reads a sequence id; at the first spawn, or when the id is newer
    /// than the last one, takes it with the position and velocity behind it.
    fn deserialize(&mut self, hazel_msg: &mut HazelMessage)
        ensures
            *final(self) == transform_read(*old(self), old(hazel_msg).buffer.array@, old(hazel_msg).buffer.position as int),
            final(hazel_msg).buffer.array@ == old(hazel_msg).buffer.array@,
            final(hazel_msg).buffer.position == transform_read_end(*old(self), old(hazel_msg).buffer.array@, old(hazel_msg).buffer.position as int),
            final(hazel_msg).length == old(hazel_msg).length,
            final(hazel_msg).tag == old(hazel_msg).tag,
    {
        if self.initial_spawn {
            self.last_sequence_id = hazel_msg.buffer.read_u16();
            self.position = PackedVector2::read_vector2(&mut hazel_msg.buffer);
            self.velocity = PackedVector2::read_vector2(&mut hazel_msg.buffer);
        } else {
            let new_sid = hazel_msg.buffer.read_u16();
            if !sid_greater_than(new_sid, self.last_sequence_id) {
                return;
            }
            self.last_sequence_id = new_sid;
            self.position = PackedVector2::read_vector2(&mut hazel_msg.buffer);
            self.velocity = PackedVector2::read_vector2(&mut hazel_msg.buffer);
        }
    }

    /// Every player whose control holds physics and a movement object with
    /// this net id has the movement object of its control's player id
    /// replaced by this one, no longer at its first spawn.
    fn process(&mut self, room: &mut GameRoom)
        ensures
            *final(self) == *old(self),
            transform_processed(
                *old(room),
                *final(room),
                CustomNetworkTransform { initial_spawn: false, ..*old(self) },
            ),
    {
        let transform = CustomNetworkTransform { initial_spawn: false, ..*self };
        let net_id = self.net_id;
        let mut game_data = room.game_data.take().unwrap();
        let ghost g0 = game_data;
        let ghost players0 = game_data.all_players@;
        let snapshot = game_data.all_players.clone();
        let keys = crate::util::keys::byte_keys_of(&snapshot);
        let mut j: usize = 0;
        while j < keys.len()
            invariant
                keys@.to_set() == players0.dom(),
                snapshot@ == players0,
                transform_ready(players0, net_id),
                g0.all_players@ == players0,
                game_data.net_id == g0.net_id,
                game_data.owner_id == g0.owner_id,
                game_data.initial_spawn == g0.initial_spawn,
                old(room).game_data == Some(g0),
                *room == (GameRoom { game_data: None, ..*old(room) }),
                0 <= j <= keys@.len(),
                game_data.all_players@ == transform_update(
                    players0,
                    transform,
                    transform_targets(players0, net_id, keys@.take(j as int)),
                ),
            decreases keys@.len() - j,
        {
            let k = keys[j];
            proof {
                assert(keys@.to_set().contains(k));
                assert(keys@.take(j + 1) =~= keys@.take(j as int).push(k));
            }
            let v = snapshot.get(&k).unwrap();
            assert(players0.contains_key(k));
            assert(*v == players0[k]);
            let pc = v.player_control.unwrap();
            let matched = match pc.player_physics {
                Some(_) => pc.custom_network_transform.unwrap().net_id == net_id,
                None => false,
            };
            if matched {
                let target = pc.player_id;
                let mut info = game_data.all_players.remove(&target).unwrap();
                let mut control = info.player_control.unwrap();
                control.custom_network_transform = Some(transform);
                info.player_control = Some(control);
                game_data.all_players.insert(target, info);
            }
            proof {
                lemma_transform_targets_step(players0, net_id, keys@, j as int);
                assert(game_data.all_players@ =~= transform_update(
                    players0,
                    transform,
                    transform_targets(players0, net_id, keys@.take(j + 1)),
                ));
            }
            j = j + 1;
        }
        proof {
            assert(keys@.take(keys@.len() as int) =~= keys@);
            lemma_all_transform_targets(players0, net_id, keys@);
        }
        room.game_data = Some(game_data);
    }

    fn serialize(&self, buffer: &mut Buffer)
        ensures
            *final(buffer) == *old(buffer),
    {
    }
}

impl InnerNetObject for GameData {
    open spec fn deserialize_requires(&self, hazel_msg: HazelMessage) -> bool {
        let b = hazel_msg.buffer;
        &&& b.array.len() + 0x1_0000 <= usize::MAX
        &&& player_messages_readable(b.array@, b.position as int, hazel_msg.length as int)
    }

    open spec fn process_requires(&self, room: GameRoom) -> bool {
        true
    }

    /// Reads player messages while the cursor is below the message length;
    /// each gives the info of the player its tag names, a known player
    /// keeping its control object.
    fn deserialize(&mut self, hazel_msg: &mut HazelMessage)
        ensures
            ({
                let a = old(hazel_msg).buffer.array@;
                let p = old(hazel_msg).buffer.position as int;
                let limit = old(hazel_msg).length as int;
                &&& players_read(
                    old(self).all_players@,
                    final(self).all_players@,
                    a,
                    player_messages(a, p, limit),
                )
                &&& final(self).net_id == old(self).net_id
                &&& final(self).owner_id == old(self).owner_id
                &&& final(self).initial_spawn == old(self).initial_spawn
                &&& final(hazel_msg).buffer.array@ == a
                &&& final(hazel_msg).buffer.position == player_messages_end(a, p, limit)
                &&& final(hazel_msg).length == old(hazel_msg).length
                &&& final(hazel_msg).tag == old(hazel_msg).tag
            }),
    {
        let ghost a = hazel_msg.buffer.array@;
        let ghost p0 = hazel_msg.buffer.position as int;
        let ghost limit = hazel_msg.length as int;
        let ghost players0 = self.all_players@;
        let ghost mut done: Seq<(u8, int)> = Seq::empty();
        loop
            invariant
                hazel_msg.buffer.array@ == a,
                hazel_msg.buffer.array.len() + 0x1_0000 <= usize::MAX,
                hazel_msg.length == old(hazel_msg).length,
                hazel_msg.tag == old(hazel_msg).tag,
                limit == hazel_msg.length as int,
                done + player_messages(a, hazel_msg.buffer.position as int, limit)
                    == player_messages(a, p0, limit),
                player_messages_end(a, hazel_msg.buffer.position as int, limit)
                    == player_messages_end(a, p0, limit),
                player_messages_readable(a, hazel_msg.buffer.position as int, limit),
                players_read(players0, self.all_players@, a, done),
                self.net_id == old(self).net_id,
                self.owner_id == old(self).owner_id,
                self.initial_spawn == old(self).initial_spawn,
            ensures
                hazel_msg.buffer.array@ == a,
                hazel_msg.length == old(hazel_msg).length,
                hazel_msg.tag == old(hazel_msg).tag,
                done == player_messages(a, p0, limit),
                hazel_msg.buffer.position == player_messages_end(a, p0, limit),
                players_read(players0, self.all_players@, a, done),
                self.net_id == old(self).net_id,
                self.owner_id == old(self).owner_id,
                self.initial_spawn == old(self).initial_spawn,
            decreases limit - hazel_msg.buffer.position,
        {
            let ghost pos = hazel_msg.buffer.position as int;
            if hazel_msg.buffer.position >= hazel_msg.length as usize {
                proof {
                    assert(player_messages(a, pos, limit) =~= Seq::<(u8, int)>::empty());
                    assert(done =~= done + Seq::<(u8, int)>::empty());
                }
                break;
            }
            let hazel_msg_option = HazelMessage::read_message(&mut hazel_msg.buffer);
            let mut hazel_msg_actual = match hazel_msg_option {
                None => {
                    proof {
                        assert(player_messages(a, pos, limit) =~= Seq::<(u8, int)>::empty());
                        assert(done =~= done + Seq::<(u8, int)>::empty());
                    }
                    break;
                },
                Some(m) => m,
            };
            let tag = hazel_msg_actual.tag;
            proof {
                lemma_messages_step(a, pos, limit);
                assert(info_readable(a, pos + 3));
            }
            let ghost before = self.all_players@;
            if self.all_players.contains_key(&tag) {
                let mut info = self.all_players.remove(&tag).unwrap();
                info.deserialize(&mut hazel_msg_actual.buffer);
                self.all_players.insert(tag, info);
            } else {
                let mut info = PlayerInfo::new();
                info.deserialize(&mut hazel_msg_actual.buffer);
                self.all_players.insert(tag, info);
            }
            proof {
                let m = (tag, pos + 3);
                let after = self.all_players@;
                let nd = done.push(m);
                assert forall|t: u8| true implies has_tag(nd, t) <==> has_tag(done, t) || m.0
                    == t by {
                    lemma_has_tag_push(done, m, t);
                }
                assert forall|t: u8| true implies last_payload(nd, t) == if m.0 == t {
                    m.1
                } else {
                    last_payload(done, t)
                } by {
                    lemma_has_tag_push(done, m, t);
                }
                assert(after.contains_key(tag));
                assert(info_fields(after[tag], a, pos + 3));
                assert(after[tag].player_control == if players0.contains_key(tag) {
                    players0[tag].player_control
                } else {
                    None
                }) by {
                    if before.contains_key(tag) {
                        if !has_tag(done, tag) {
                            assert(before[tag] == players0[tag]);
                        }
                    }
                }
                assert forall|t: u8| #[trigger]
                    after.contains_key(t) <==> players0.contains_key(t) || has_tag(nd, t) by {
                    lemma_has_tag_push(done, m, t);
                }
                assert forall|t: u8| #[trigger]
                    after.contains_key(t) && !has_tag(nd, t) implies after[t] == players0[t] by {
                    lemma_has_tag_push(done, m, t);
                }
                assert forall|t: u8| #[trigger]
                    has_tag(nd, t) implies info_fields(after[t], a, last_payload(nd, t))
                    && after[t].player_control == if players0.contains_key(t) {
                    players0[t].player_control
                } else {
                    None
                } by {
                    lemma_has_tag_push(done, m, t);
                }
                assert(players_read(players0, after, a, nd));
                assert(seq![m] + player_messages(a, hazel_msg.buffer.position as int, limit)
                    == player_messages(a, pos, limit));
                assert(done.push(m) + player_messages(a, hazel_msg.buffer.position as int, limit)
                    =~= done + player_messages(a, pos, limit));
                done = done.push(m);
            }
            if hazel_msg.buffer.position >= hazel_msg.length as usize {
                proof {
                    assert(player_messages(a, hazel_msg.buffer.position as int, limit)
                        =~= Seq::<(u8, int)>::empty());
                    assert(done =~= done + Seq::<(u8, int)>::empty());
                }
                break;
            }
        }
    }

    /// The room's game data becomes a copy of this one, no longer at its
    /// first spawn.
    fn process(&mut self, room: &mut GameRoom)
        ensures
            *final(self) == *old(self),
            game_data_processed(*old(room), *final(room), *old(self)),
    {
        let game_data = GameData {
            net_id: self.net_id,
            owner_id: self.owner_id,
            initial_spawn: false,
            all_players: self.all_players.clone(),
        };
        room.game_data = Some(game_data);
    }

    fn serialize(&self, buffer: &mut Buffer)
        ensures
            *final(buffer) == *old(buffer),
    {
    }
}

impl InnerNetObject for VoteBanSystem {
    open spec fn deserialize_requires(&self, hazel_msg: HazelMessage) -> bool {
        let b = hazel_msg.buffer;
        &&& b.can_read(1)
        &&& votes_readable(
            vec_views(self.votes@),
            b.array@,
            b.position + 1,
            vote_count(b.array@, b.position as int),
        )
    }

    open spec fn process_requires(&self, room: GameRoom) -> bool {
        true
    }

    /// Reads a count of vote entries; each names a player and gives the
    /// first three of its votes.
    fn deserialize(&mut self, hazel_msg: &mut HazelMessage)
        ensures
            ({
                let a = old(hazel_msg).buffer.array@;
                let p = old(hazel_msg).buffer.position as int;
                let n = vote_count(a, p);
                &&& vec_views(final(self).votes@) == votes_after(
                    vec_views(old(self).votes@),
                    a,
                    p + 1,
                    n,
                )
                &&& final(self).net_id == old(self).net_id
                &&& final(self).owner_id == old(self).owner_id
                &&& final(self).initial_spawn == old(self).initial_spawn
                &&& final(hazel_msg).buffer.array@ == a
                &&& final(hazel_msg).buffer.position == vote_pos(a, p + 1, n)
                &&& final(hazel_msg).length == old(hazel_msg).length
                &&& final(hazel_msg).tag == old(hazel_msg).tag
            }),
    {
        let ghost a = hazel_msg.buffer.array@;
        let ghost p = hazel_msg.buffer.position as int;
        let ghost votes0 = vec_views(self.votes@);
        proof {
            assert(hazel_msg.buffer.array.len() == a.len());
        }
        let vote_count = hazel_msg.buffer.read_i8();
        let mut i: i8 = 0;
        while i < vote_count
            invariant
                hazel_msg.buffer.array@ == a,
                a.len() <= usize::MAX,
                hazel_msg.length == old(hazel_msg).length,
                hazel_msg.tag == old(hazel_msg).tag,
                0 <= p < a.len(),
                vote_count == u8_as_i8(a[p]),
                0 <= i,
                vote_count >= 0 ==> i <= vote_count,
                vote_count < 0 ==> i == 0,
                votes_readable(votes0, a, p + 1, crate::inner::objects::inner_net_objects::vote_count(a, p)),
                hazel_msg.buffer.position == vote_pos(a, p + 1, i as nat),
                vec_views(self.votes@) == votes_after(votes0, a, p + 1, i as nat),
                self.net_id == old(self).net_id,
                self.owner_id == old(self).owner_id,
                self.initial_spawn == old(self).initial_spawn,
            decreases vote_count - i,
        {
            let ghost q = vote_pos(a, p + 1, i as nat);
            proof {
                lemma_votes_prefix(votes0, a, p + 1, crate::inner::objects::inner_net_objects::vote_count(a, p), (i + 1) as nat);
                lemma_votes_keep_keys(votes0, a, p + 1, i as nat);
                lemma_packed_end_bounds(a, q + 4);
                lemma_packed_end_bounds(a, vote_v1(a, q));
                lemma_packed_end_bounds(a, vote_v2(a, q));
            }
            let key = hazel_msg.buffer.read_i32();
            assert(key == le_i32_at(a, q));
            if !self.votes.contains_key(&key) {
                self.votes.insert(key, Vec::with_capacity(3));
            }
            let mut votes = self.votes.remove(&key).unwrap();
            let v0 = hazel_msg.buffer.read_packed_int_32();
            votes.set(0, v0);
            let v1 = hazel_msg.buffer.read_packed_int_32();
            votes.set(1, v1);
            let v2 = hazel_msg.buffer.read_packed_int_32();
            votes.set(2, v2);
            self.votes.insert(key, votes);
            proof {
                assert(vec_views(self.votes@) =~= vote_applied(
                    votes_after(votes0, a, p + 1, i as nat),
                    a,
                    q,
                ));
            }
            i = i + 1;
        }
        assert(i == crate::inner::objects::inner_net_objects::vote_count(a, p));
    }

    /// The room's vote-ban system becomes a copy of this one, no longer at
    /// its first spawn.
    fn process(&mut self, room: &mut GameRoom)
        ensures
            *final(self) == *old(self),
            vote_ban_processed(*old(room), *final(room), *old(self)),
    {
        let vote_ban_system = VoteBanSystem {
            net_id: self.net_id,
            owner_id: self.owner_id,
            initial_spawn: false,
            votes: self.votes.clone(),
        };
        room.vote_ban_system = Some(vote_ban_system);
    }

    fn serialize(&self, buffer: &mut Buffer)
        ensures
            *final(buffer) == *old(buffer),
    {
    }
}

impl InnerNetObject for PlayerControl {
    open spec fn deserialize_requires(&self, hazel_msg: HazelMessage) -> bool {
        hazel_msg.buffer.can_read(if self.initial_spawn {
            2
        } else {
            1
        })
    }

    open spec fn process_requires(&self, room: GameRoom) -> bool {
        room.game_data is Some
    }

    /// At the first spawn, reads whether the player is new; then reads the
    /// player id.
    fn deserialize(&mut self, hazel_msg: &mut HazelMessage)
        ensures
            *final(self) == control_read(*old(self), old(hazel_msg).buffer.array@, old(hazel_msg).buffer.position as int),
            final(hazel_msg).buffer.array@ == old(hazel_msg).buffer.array@,
            final(hazel_msg).buffer.position == control_read_end(*old(self), old(hazel_msg).buffer.position as int),
            final(hazel_msg).length == old(hazel_msg).length,
            final(hazel_msg).tag == old(hazel_msg).tag,
    {
        if self.initial_spawn {
            self.is_new = hazel_msg.buffer.read_bool();
        }
        self.player_id = hazel_msg.buffer.read_u8();
    }

    /// The control, no longer at its first spawn, goes to the player its
    /// player id names in the room's game data; an unknown player is added
    /// with no outfits, level 0 and no flags.
    fn process(&mut self, room: &mut GameRoom)
        ensures
            *final(self) == *old(self),
            control_processed(*old(room), *final(room), *old(self)),
    {
        let mut player_control = *self;
        player_control.initial_spawn = false;
        let id = player_control.player_id;
        let mut game_data = room.game_data.take().unwrap();
        let ghost g = game_data.all_players@;
        if game_data.all_players.contains_key(&id) {
            let mut info = game_data.all_players.remove(&id).unwrap();
            info.player_control = Some(player_control);
            game_data.all_players.insert(id, info);
        } else {
            let mut info = PlayerInfo::new();
            info.player_control = Some(player_control);
            game_data.all_players.insert(id, info);
        }
        proof {
            assert(game_data.all_players@.dom() =~= g.dom().insert(id));
            assert forall|k: u8| #[trigger]
                g.contains_key(k) && k != id implies game_data.all_players@[k] == g[k] by {}
        }
        room.game_data = Some(game_data);
    }

    fn serialize(&self, buffer: &mut Buffer)
        ensures
            *final(buffer) == *old(buffer),
    {
    }
}

} // verus!
