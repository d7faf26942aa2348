#![allow(non_snake_case)]
use std::collections::HashMap;
use vstd::prelude::*;
use vstd::utf8::encode_utf8;
use crate::inner::objects::inner_net_objects::PlayerControl;
use crate::util::buffer::{lemma_splice_twice, Buffer};
use crate::util::bytes::{
    i32_bits, i8_at, lemma_packed_end_bounds, lemma_packed_roundtrip, lemma_string_roundtrip, packed_end, packed_terminates, packed_u32_bytes,
    packed_u32_value, string_chars_at, string_end_at, string_frame, string_readable_at,
};

verus! {

broadcast use vstd::std_specs::hash::group_hash_axioms;

/// The two outfits a player can wear.
#[derive(Clone, Copy, Debug, Eq, PartialEq, Hash)]
pub enum PlayerOutfitType {
    Default,
    Shapeshifted,
}

/// The number that stands for an outfit type on the wire.
pub open spec fn outfit_type_number(t: PlayerOutfitType) -> i8 {
    match t {
        PlayerOutfitType::Default => 0,
        PlayerOutfitType::Shapeshifted => 1,
    }
}

impl PlayerOutfitType {
    /// The number that stands for this outfit type on the wire.
    pub fn number(&self) -> (r: i8)
        ensures
            r == outfit_type_number(*self),
    {
        match self {
            PlayerOutfitType::Default => 0,
            PlayerOutfitType::Shapeshifted => 1,
        }
    }
}

/// A player's info; the outfits are keyed by outfit-type number.
#[derive(Debug, Clone)]
pub struct PlayerInfo {
    pub outfits: HashMap<i8, PlayerOutfit>,
    pub level: u32,
    pub disconnected: bool,
    pub dead: bool,
    pub player_control: Option<PlayerControl>,
}

/// What a player wears, and under what name.
#[derive(Clone, Debug, Eq, PartialEq, Hash)]
pub struct PlayerOutfit {
    pub preCensorName: String,
    pub color_id: i32,
    pub hat_id: String,
    pub pet_id: String,
    pub skin_id: String,
    pub visor_id: String,
    pub name_plate_id: String,
}

// ---------------------------------------------------------------------
// Wire layout of an outfit that starts at index `p`: a name, a packed
// color, five more strings.
// ---------------------------------------------------------------------
pub open spec fn outfit_e0(a: Seq<u8>, p: int) -> int {
    string_end_at(a, p)
}

pub open spec fn outfit_e1(a: Seq<u8>, p: int) -> int {
    packed_end(a, outfit_e0(a, p))
}

pub open spec fn outfit_e2(a: Seq<u8>, p: int) -> int {
    string_end_at(a, outfit_e1(a, p))
}

pub open spec fn outfit_e3(a: Seq<u8>, p: int) -> int {
    string_end_at(a, outfit_e2(a, p))
}

pub open spec fn outfit_e4(a: Seq<u8>, p: int) -> int {
    string_end_at(a, outfit_e3(a, p))
}

pub open spec fn outfit_e5(a: Seq<u8>, p: int) -> int {
    string_end_at(a, outfit_e4(a, p))
}

/// The index just past the outfit at `p`.
pub open spec fn outfit_end(a: Seq<u8>, p: int) -> int {
    string_end_at(a, outfit_e5(a, p))
}

pub open spec fn outfit_readable(a: Seq<u8>, p: int) -> bool {
    &&& string_readable_at(a, p)
    &&& packed_terminates(a, outfit_e0(a, p))
    &&& string_readable_at(a, outfit_e1(a, p))
    &&& string_readable_at(a, outfit_e2(a, p))
    &&& string_readable_at(a, outfit_e3(a, p))
    &&& string_readable_at(a, outfit_e4(a, p))
    &&& string_readable_at(a, outfit_e5(a, p))
}

/// `o` holds the outfit read at `p`.
pub open spec fn outfit_at(o: PlayerOutfit, a: Seq<u8>, p: int) -> bool {
    &&& o.preCensorName@ == string_chars_at(a, p)
    &&& o.color_id == packed_u32_value(a, outfit_e0(a, p))
    &&& o.hat_id@ == string_chars_at(a, outfit_e1(a, p))
    &&& o.pet_id@ == string_chars_at(a, outfit_e2(a, p))
    &&& o.skin_id@ == string_chars_at(a, outfit_e3(a, p))
    &&& o.visor_id@ == string_chars_at(a, outfit_e4(a, p))
    &&& o.name_plate_id@ == string_chars_at(a, outfit_e5(a, p))
}

/// The bytes that `serialize` writes for `o`.
pub open spec fn outfit_bytes(o: PlayerOutfit) -> Seq<u8> {
    string_frame(o.preCensorName@) + packed_u32_bytes(i32_bits(o.color_id)) + string_frame(
        o.hat_id@,
    ) + string_frame(o.pet_id@) + string_frame(o.skin_id@) + string_frame(o.visor_id@)
        + string_frame(o.name_plate_id@)
}

/// Every string of the outfit has fewer than 128 UTF-8 bytes and the color
/// is below 128: the sizes that the packed lengths carry faithfully.
pub open spec fn outfit_fits_packed(o: PlayerOutfit) -> bool {
    &&& encode_utf8(o.preCensorName@).len() < 128
    &&& 0 <= o.color_id < 128
    &&& encode_utf8(o.hat_id@).len() < 128
    &&& encode_utf8(o.pet_id@).len() < 128
    &&& encode_utf8(o.skin_id@).len() < 128
    &&& encode_utf8(o.visor_id@).len() < 128
    &&& encode_utf8(o.name_plate_id@).len() < 128
}

/// An outfit written by `serialize` is read back by `deserialize` as the
/// same outfit, and reading ends where the writing ended, whatever bytes
/// surround it, as long as its strings and color fit the packed form.
#[verifier::spinoff_prover]
#[verifier::rlimit(100)]
pub proof fn lemma_outfit_roundtrip(o: PlayerOutfit, pre: Seq<u8>, rest: Seq<u8>)
    requires
        outfit_fits_packed(o),
    ensures
        ({
            let a = pre + outfit_bytes(o) + rest;
            let p = pre.len() as int;
            &&& outfit_readable(a, p)
            &&& outfit_at(o, a, p)
            &&& outfit_end(a, p) == p + outfit_bytes(o).len()
        }),
{
    let s0 = string_frame(o.preCensorName@);
    let s1 = packed_u32_bytes(i32_bits(o.color_id));
    let s2 = string_frame(o.hat_id@);
    let s3 = string_frame(o.pet_id@);
    let s4 = string_frame(o.skin_id@);
    let s5 = string_frame(o.visor_id@);
    let s6 = string_frame(o.name_plate_id@);
    let a = pre + outfit_bytes(o) + rest;
    let p = pre.len() as int;
    let t6 = rest;
    let t5 = s6 + t6;
    let t4 = s5 + t5;
    let t3 = s4 + t4;
    let t2 = s3 + t3;
    let t1 = s2 + t2;
    let t0 = s1 + t1;
    let p1 = pre + s0;
    let p2 = p1 + s1;
    let p3 = p2 + s2;
    let p4 = p3 + s3;
    let p5 = p4 + s4;
    let p6 = p5 + s5;
    assert(i32_bits(o.color_id) == o.color_id);
    assert(a =~= pre + s0 + t0);
    assert(a =~= p1 + s1 + t1);
    assert(a =~= p2 + s2 + t2);
    assert(a =~= p3 + s3 + t3);
    assert(a =~= p4 + s4 + t4);
    assert(a =~= p5 + s5 + t5);
    assert(a =~= p6 + s6 + t6);
    lemma_string_roundtrip(o.preCensorName@, pre, t0);
    lemma_packed_roundtrip(i32_bits(o.color_id), p1, t1);
    lemma_string_roundtrip(o.hat_id@, p2, t2);
    lemma_string_roundtrip(o.pet_id@, p3, t3);
    lemma_string_roundtrip(o.skin_id@, p4, t4);
    lemma_string_roundtrip(o.visor_id@, p5, t5);
    lemma_string_roundtrip(o.name_plate_id@, p6, t6);
    assert(outfit_e0(a, p) == p1.len());
    assert(outfit_e1(a, p) == p2.len());
    assert(outfit_e2(a, p) == p3.len());
    assert(outfit_e3(a, p) == p4.len());
    assert(outfit_e4(a, p) == p5.len());
    assert(outfit_e5(a, p) == p6.len());
    assert(outfit_bytes(o) =~= s0 + s1 + s2 + s3 + s4 + s5 + s6);
}

/// An outfit written at the cursor of a buffer by `serialize`, and read back
/// by `deserialize` from where the writing started, is read as the same
/// outfit, and the reading ends where the writing ended, when its strings
/// and color fit the packed form.
pub proof fn lemma_write_read_outfit(before: Buffer, after: Buffer, o: PlayerOutfit)
    requires
        before.position <= before.array@.len(),
        outfit_fits_packed(o),
        after.wrote(before, outfit_bytes(o)),
    ensures
        outfit_readable(after.array@, before.position as int),
        outfit_at(o, after.array@, before.position as int),
        outfit_end(after.array@, before.position as int) == after.position,
{
    let p = before.position as int;
    let pre = before.array@.take(p);
    let rest = before.array@.skip(p);
    lemma_outfit_roundtrip(o, pre, rest);
    assert(after.array@ =~= pre + outfit_bytes(o) + rest);
}

impl PlayerOutfit {
    pub fn deserialize(buffer: &mut Buffer) -> (r: Self)
        requires
            outfit_readable(old(buffer).array@, old(buffer).position as int),
        ensures
            outfit_at(r, old(buffer).array@, old(buffer).position as int),
            final(buffer).array@ == old(buffer).array@,
            final(buffer).position == outfit_end(old(buffer).array@, old(buffer).position as int),
    {
        let ghost a = buffer.array@;
        let ghost p = buffer.position as int;
        proof {
            lemma_packed_end_bounds(a, outfit_e0(a, p));
        }
        let preCensorName = buffer.read_string();
        let color_id = buffer.read_packed_int_32();
        let hat_id = buffer.read_string();
        let pet_id = buffer.read_string();
        let skin_id = buffer.read_string();
        let visor_id = buffer.read_string();
        let name_plate_id = buffer.read_string();
        PlayerOutfit { preCensorName, color_id, hat_id, pet_id, skin_id, visor_id, name_plate_id }
    }

    pub fn serialize(&self, buffer: &mut Buffer)
        requires
            old(buffer).can_write(outfit_bytes(*self).len()),
        ensures
            final(buffer).wrote(*old(buffer), outfit_bytes(*self)),
    {
        let ghost a0 = buffer.array@;
        let ghost p0 = buffer.position as int;
        let ghost s0 = string_frame(self.preCensorName@);
        let ghost s1 = packed_u32_bytes(i32_bits(self.color_id));
        let ghost s2 = string_frame(self.hat_id@);
        let ghost s3 = string_frame(self.pet_id@);
        let ghost s4 = string_frame(self.skin_id@);
        let ghost s5 = string_frame(self.visor_id@);
        let ghost s6 = string_frame(self.name_plate_id@);
        buffer.write_string(self.preCensorName.clone());
        buffer.write_packed_i32(self.color_id);
        proof {
            lemma_splice_twice(a0, p0, s0, s1);
        }
        buffer.write_string(self.hat_id.clone());
        proof {
            lemma_splice_twice(a0, p0, s0 + s1, s2);
        }
        buffer.write_string(self.pet_id.clone());
        proof {
            lemma_splice_twice(a0, p0, s0 + s1 + s2, s3);
        }
        buffer.write_string(self.skin_id.clone());
        proof {
            lemma_splice_twice(a0, p0, s0 + s1 + s2 + s3, s4);
        }
        buffer.write_string(self.visor_id.clone());
        proof {
            lemma_splice_twice(a0, p0, s0 + s1 + s2 + s3 + s4, s5);
        }
        buffer.write_string(self.name_plate_id.clone());
        proof {
            lemma_splice_twice(a0, p0, s0 + s1 + s2 + s3 + s4 + s5, s6);
        }
    }
}

// ---------------------------------------------------------------------
// Wire layout of a player's info that starts at index `p`: an outfit count,
// that many (type byte, outfit) entries, a packed level, a flag byte, a
// task count with that many (packed id, flag) pairs, and two strings.
// ---------------------------------------------------------------------
/// How many outfit entries follow (none for a negative count).
pub open spec fn outfit_count(a: Seq<u8>, p: int) -> nat {
    let c = i8_at(a, p);
    if c < 0 {
        0
    } else {
        c as nat
    }
}

/// Where the `k`-th outfit entry starts, counting from the entry at `s`.
pub open spec fn entry_pos(a: Seq<u8>, s: int, k: nat) -> int
    decreases k,
{
    if k == 0 {
        s
    } else {
        outfit_end(a, entry_pos(a, s, (k - 1) as nat) + 1)
    }
}

/// The first `n` outfit entries from `s` can be read: each type byte names
/// an outfit type and each outfit is readable.
pub open spec fn entries_readable(a: Seq<u8>, s: int, n: nat) -> bool
    decreases n,
{
    if n == 0 {
        true
    } else {
        let q = entry_pos(a, s, (n - 1) as nat);
        &&& entries_readable(a, s, (n - 1) as nat)
        &&& 0 <= q < a.len()
        &&& 0 <= i8_at(a, q) <= 1
        &&& outfit_readable(a, q + 1)
    }
}

/// For each outfit type among the first `n` entries from `s`, where its
/// last outfit starts.
pub open spec fn outfit_positions(a: Seq<u8>, s: int, n: nat) -> Map<i8, int>
    decreases n,
{
    if n == 0 {
        Map::empty()
    } else {
        let q = entry_pos(a, s, (n - 1) as nat);
        outfit_positions(a, s, (n - 1) as nat).insert(i8_at(a, q), q + 1)
    }
}

/// Where the `k`-th task starts, counting from the task at `s`.
pub open spec fn task_pos(a: Seq<u8>, s: int, k: nat) -> int
    decreases k,
{
    if k == 0 {
        s
    } else {
        packed_end(a, task_pos(a, s, (k - 1) as nat)) + 1
    }
}

pub open spec fn tasks_readable(a: Seq<u8>, s: int, n: nat) -> bool
    decreases n,
{
    if n == 0 {
        true
    } else {
        let q = task_pos(a, s, (n - 1) as nat);
        &&& tasks_readable(a, s, (n - 1) as nat)
        &&& packed_terminates(a, q)
        &&& packed_end(a, q) + 1 <= a.len()
    }
}

pub open spec fn info_level_pos(a: Seq<u8>, p: int) -> int {
    entry_pos(a, p + 1, outfit_count(a, p))
}

pub open spec fn info_flags_pos(a: Seq<u8>, p: int) -> int {
    packed_end(a, info_level_pos(a, p))
}

pub open spec fn info_task_count(a: Seq<u8>, p: int) -> nat {
    let t = i8_at(a, info_flags_pos(a, p) + 1);
    if t < 0 {
        0
    } else {
        t as nat
    }
}

pub open spec fn info_strings_pos(a: Seq<u8>, p: int) -> int {
    task_pos(a, info_flags_pos(a, p) + 2, info_task_count(a, p))
}

/// The index just past the info at `p`.
pub open spec fn info_end(a: Seq<u8>, p: int) -> int {
    string_end_at(a, string_end_at(a, info_strings_pos(a, p)))
}

pub open spec fn info_readable(a: Seq<u8>, p: int) -> bool {
    let f = info_flags_pos(a, p);
    let t = info_strings_pos(a, p);
    &&& 0 <= p < a.len()
    &&& entries_readable(a, p + 1, outfit_count(a, p))
    &&& packed_terminates(a, info_level_pos(a, p))
    &&& f + 2 <= a.len()
    &&& tasks_readable(a, f + 2, info_task_count(a, p))
    &&& string_readable_at(a, t)
    &&& string_readable_at(a, string_end_at(a, t))
}

/// `r` holds the outfits, level and flags of the info at `p`.
pub open spec fn info_fields(r: PlayerInfo, a: Seq<u8>, p: int) -> bool {
    let positions = outfit_positions(a, p + 1, outfit_count(a, p));
    let flags = a[info_flags_pos(a, p)];
    &&& r.outfits@.dom() == positions.dom()
    &&& forall|k: i8| #[trigger]
        positions.contains_key(k) ==> outfit_at(r.outfits@[k], a, positions[k])
    &&& r.level == packed_u32_value(a, info_level_pos(a, p))
    &&& r.disconnected == (flags % 2 == 1)
    &&& r.dead == ((flags / 4) % 2 == 1)
}

/// The flags byte of a player's info: its bit of value 1 says the player has
/// disconnected, its bit of value 4 that the player is dead; no other bit
/// counts.
pub proof fn lemma_info_flags(r: PlayerInfo, a: Seq<u8>, p: int)
    requires
        info_fields(r, a, p),
    ensures
        r.disconnected == (a[info_flags_pos(a, p)] & 1u8 != 0),
        r.dead == (a[info_flags_pos(a, p)] & 4u8 != 0),
{
    let f: u8 = a[info_flags_pos(a, p)];
    assert((f % 2 == 1) == (f & 1u8 != 0)) by (bit_vector);
    assert(((f / 4) % 2 == 1) == (f & 4u8 != 0)) by (bit_vector);
}

/// A player's info without outfits is laid out as the outfit count 0, the
/// packed level, then the flags byte. Read at its start, it has no outfits,
/// the level written, and the disconnected and dead flags of the bits of
/// value 1 and 4 of the byte right behind the level.
pub proof fn lemma_info_layout(
    r: PlayerInfo,
    pre: Seq<u8>,
    level: u32,
    flags: u8,
    rest: Seq<u8>,
)
    requires
        level < 128,
        info_fields(
            r,
            pre + seq![0u8] + packed_u32_bytes(level) + seq![flags] + rest,
            pre.len() as int,
        ),
    ensures
        r.outfits@.dom() == Set::<i8>::empty(),
        r.level == level,
        r.disconnected == (flags & 1u8 != 0),
        r.dead == (flags & 4u8 != 0),
{
    let a = pre + seq![0u8] + packed_u32_bytes(level) + seq![flags] + rest;
    let p = pre.len() as int;
    lemma_packed_roundtrip(level, pre + seq![0u8], seq![flags] + rest);
    assert(pre + seq![0u8] + packed_u32_bytes(level) + (seq![flags] + rest) =~= a);
    assert(a[p] == 0u8);
    assert(outfit_count(a, p) == 0);
    assert(info_level_pos(a, p) == p + 1);
    assert(info_flags_pos(a, p) == p + 2);
    assert(a[p + 2] == flags);
    assert(outfit_positions(a, p + 1, 0) == Map::<i8, int>::empty());
    lemma_info_flags(r, a, p);
}

/// `r` holds the info read at `p` over `old`: its outfits, level and flags
/// come from the bytes, its control object from `old`.
pub open spec fn info_read(r: PlayerInfo, old: PlayerInfo, a: Seq<u8>, p: int) -> bool {
    &&& info_fields(r, a, p)
    &&& r.player_control == old.player_control
}

proof fn lemma_entry_step(a: Seq<u8>, s: int, n: nat)
    requires
        entries_readable(a, s, n + 1),
    ensures
        entries_readable(a, s, n),
        entry_pos(a, s, n + 1) == outfit_end(a, entry_pos(a, s, n) + 1),
        outfit_positions(a, s, n + 1) == outfit_positions(a, s, n).insert(
            i8_at(a, entry_pos(a, s, n)),
            entry_pos(a, s, n) + 1,
        ),
{
}

proof fn lemma_entries_prefix(a: Seq<u8>, s: int, n: nat, m: nat)
    requires
        entries_readable(a, s, n),
        m <= n,
    ensures
        entries_readable(a, s, m),
    decreases n - m,
{
    if m < n {
        lemma_entries_prefix(a, s, (n - 1) as nat, m);
    }
}

proof fn lemma_tasks_prefix(a: Seq<u8>, s: int, n: nat, m: nat)
    requires
        tasks_readable(a, s, n),
        m <= n,
    ensures
        tasks_readable(a, s, m),
    decreases n - m,
{
    if m < n {
        lemma_tasks_prefix(a, s, (n - 1) as nat, m);
    }
}

impl PlayerInfo {
    pub fn new() -> (r: Self)
        ensures
            r.outfits@ == Map::<i8, PlayerOutfit>::empty(),
            r.level == 0,
            !r.disconnected,
            !r.dead,
            r.player_control is None,
    {
        PlayerInfo {
            outfits: HashMap::new(),
            level: 0,
            disconnected: false,
            dead: false,
            player_control: None,
        }
    }

    /// Reads the outfits (replacing all held so far), the level and the
    /// flags; the tasks and the two trailing strings are read and dropped.
    pub fn deserialize(&mut self, buffer: &mut Buffer)
        requires
            info_readable(old(buffer).array@, old(buffer).position as int),
        ensures
            final(buffer).array@ == old(buffer).array@,
            final(buffer).position == info_end(old(buffer).array@, old(buffer).position as int),
            info_read(*final(self), *old(self), old(buffer).array@, old(buffer).position as int),
    {
        let ghost a = buffer.array@;
        let ghost p = buffer.position as int;
        proof {
            assert(buffer.array.len() == a.len());
        }
        let byte = buffer.read_i8_le();
        self.outfits.clear();
        let mut i: i8 = 0;
        while i < byte
            invariant
                buffer.array@ == a,
                a.len() <= usize::MAX,
                0 <= p < a.len(),
                byte == i8_at(a, p),
                0 <= i,
                byte >= 0 ==> i <= byte,
                byte < 0 ==> i == 0,
                entries_readable(a, p + 1, outfit_count(a, p)),
                buffer.position == entry_pos(a, p + 1, i as nat),
                self.outfits@.dom() == outfit_positions(a, p + 1, i as nat).dom(),
                forall|k: i8| #[trigger]
                    outfit_positions(a, p + 1, i as nat).contains_key(k) ==> outfit_at(
                        self.outfits@[k],
                        a,
                        outfit_positions(a, p + 1, i as nat)[k],
                    ),
                self.player_control == old(self).player_control,
                self.level == old(self).level,
            decreases byte - i,
        {
            proof {
                lemma_entries_prefix(a, p + 1, outfit_count(a, p), (i + 1) as nat);
                lemma_entry_step(a, p + 1, i as nat);
            }
            let outfit_type: i8 = buffer.read_i8();
            let outfit = PlayerOutfit::deserialize(buffer);
            self.outfits.insert(outfit_type, outfit);
            i = i + 1;
        }
        assert(i == outfit_count(a, p));
        proof {
            lemma_packed_end_bounds(a, info_level_pos(a, p));
        }
        self.level = buffer.read_packed_uint_32();
        let flags = buffer.read_i8_le();
        let bits = crate::util::bytes::i8_to_u8(flags);
        self.disconnected = bits % 2 == 1;
        self.dead = (bits / 4) % 2 == 1;
        let tasks = buffer.read_i8();
        let ghost f = info_flags_pos(a, p);
        let mut j: i8 = 0;
        while j < tasks
            invariant
                buffer.array@ == a,
                a.len() <= usize::MAX,
                f == info_flags_pos(a, p),
                tasks == i8_at(a, f + 1),
                0 <= j,
                tasks >= 0 ==> j <= tasks,
                tasks < 0 ==> j == 0,
                tasks_readable(a, f + 2, info_task_count(a, p)),
                buffer.position == task_pos(a, f + 2, j as nat),
            decreases tasks - j,
        {
            proof {
                lemma_tasks_prefix(a, f + 2, info_task_count(a, p), (j + 1) as nat);
            }
            buffer.read_packed_uint_32();
            buffer.read_bool();
            j = j + 1;
        }
        assert(j == info_task_count(a, p));
        buffer.read_string();
        buffer.read_string();
    }
}

} // verus!
