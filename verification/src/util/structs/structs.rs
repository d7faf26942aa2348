#![allow(non_snake_case)]
use std::collections::HashMap;
use vstd::prelude::*;
use crate::util::buffer::Buffer;
use crate::util::bytes::{be_i16_at, bool_at, i8_at, le_i32_at, le_u32_at, string_frame, u8_to_i8};
use crate::util::hazel::{end_message_bytes, HazelMessage};

verus! {

broadcast use vstd::std_specs::hash::group_hash_axioms;

/// The platform a client reports: its number and its name.
#[derive(Debug, Clone, Eq, Hash, PartialEq)]
pub struct PlatformSpecificData {
    pub platform: u8,
    pub platformName: String,
}

/// How many players may get a role, and the chance that they do.
#[derive(Debug, Clone, Copy)]
pub struct RoleRate {
    pub max_count: i32,
    pub chance: i32,
}

/// A lobby's game settings. The four speed and cooldown settings are
/// IEEE-754 singles, held as their bit patterns.
#[derive(Debug)]
pub struct GameOptionsData {
    pub version: i8,
    pub max_players: i8,
    pub keywords: u32,
    pub map: i8,
    pub speed_mod: u32,
    pub crew_light: u32,
    pub imposter_light: u32,
    pub kill_cooldown: u32,
    pub common_tasks: i8,
    pub long_tasks: i8,
    pub short_tasks: i8,
    pub emergency_meetings: i32,
    pub imposters: i8,
    pub kill_distance: i8,
    pub discussion_time: i32,
    pub voting_time: i32,
    pub default: bool,
    pub emergency_cooldown: Option<i8>,
    pub confirm_ejects: Option<bool>,
    pub visual_tasks: Option<bool>,
    pub anonymous_votes: Option<bool>,
    pub taskbar_mode: Option<i8>,
    pub roleOptions: Option<RoleOptionsData>,
}

/// The role settings of a lobby; the rates are keyed by role number.
#[derive(Debug)]
pub struct RoleOptionsData {
    pub roles: i32,
    pub roleRates: HashMap<i16, RoleRate>,
    pub shapeshifter_leave_skin: bool,
    pub shapeshifter_cooldown: i8,
    pub shapeshifter_duration: i8,
    pub scientist_cooldown: i8,
    pub guardian_angel_cooldown: i8,
    pub engineer_cooldown: i8,
    pub engineer_max_vent_time: i8,
    pub scientist_battery_charge: i8,
    pub protection_duration_seconds: i8,
    pub imposters_see_protect: bool,
}

// ---------------------------------------------------------------------
// Wire layout of the role settings, starting at index `q`.
// ---------------------------------------------------------------------
/// How many role rates follow (none for a negative count).
pub open spec fn role_count(a: Seq<u8>, q: int) -> nat {
    let n = le_i32_at(a, q);
    if n < 0 {
        0
    } else {
        n as nat
    }
}

/// The rate of the `k`-th role entry, which starts at index `e`.
pub open spec fn role_rate_at(a: Seq<u8>, e: int) -> RoleRate {
    RoleRate { max_count: i8_at(a, e + 2) as i32, chance: i8_at(a, e + 3) as i32 }
}

/// The first `n` role entries behind index `q`, later ones overriding
/// earlier ones of the same role.
pub open spec fn role_rates_map(a: Seq<u8>, q: int, n: nat) -> Map<i16, RoleRate>
    decreases n,
{
    if n == 0 {
        Map::empty()
    } else {
        let e = q + 4 * (n - 1);
        role_rates_map(a, q, (n - 1) as nat).insert(be_i16_at(a, e), role_rate_at(a, e))
    }
}

/// The index just past the role settings that start at `q`.
pub open spec fn role_options_end(a: Seq<u8>, q: int) -> int {
    q + 4 + 4 * role_count(a, q) + 10
}

/// Role settings can be read at `q`: they lie in `a` and every role number
/// names a role.
pub open spec fn role_options_readable(a: Seq<u8>, q: int) -> bool {
    &&& 0 <= q
    &&& q + 4 <= a.len()
    &&& role_options_end(a, q) <= a.len()
    &&& forall|k: int|
        0 <= k < role_count(a, q) ==> 0 <= #[trigger] be_i16_at(a, q + 4 + 4 * k) <= 5
}

// ---------------------------------------------------------------------
// Wire layout of the game settings, starting at index `p`.
// ---------------------------------------------------------------------
/// How many optional bytes a settings version adds before the role
/// settings.
pub open spec fn options_tail_len(v: i8) -> int {
    (if v > 1 {
        1int
    } else {
        0
    }) + (if v > 2 {
        2int
    } else {
        0
    }) + (if v > 3 {
        2int
    } else {
        0
    })
}

/// Where the role settings would start.
pub open spec fn options_roles_start(a: Seq<u8>, p: int) -> int {
    p + 42 + options_tail_len(i8_at(a, p + 1))
}

/// The index just past the game settings that start at `p`.
pub open spec fn options_end(a: Seq<u8>, p: int) -> int {
    let q = options_roles_start(a, p);
    if i8_at(a, p + 1) > 4 {
        role_options_end(a, q)
    } else {
        q
    }
}

pub open spec fn options_readable(a: Seq<u8>, p: int) -> bool {
    &&& 0 <= p
    &&& p + 42 <= a.len()
    &&& options_roles_start(a, p) <= a.len()
    &&& i8_at(a, p + 1) > 4 ==> role_options_readable(a, options_roles_start(a, p))
}

/// Whether game settings can be read at the cursor of `buffer`, with four
/// more bytes behind them.
pub fn options_check(buffer: &Buffer) -> (r: bool)
    ensures
        r == (options_readable(buffer.array@, buffer.position as int) && options_end(
            buffer.array@,
            buffer.position as int,
        ) + 4 <= buffer.array@.len()),
{
    let ghost a = buffer.array@;
    let a_len = buffer.array.len();
    let p = buffer.position;
    if p > a_len || a_len - p < 42 {
        return false;
    }
    let v = u8_to_i8(buffer.array[p + 1]);
    let tail: usize = (if v > 1 {
        1
    } else {
        0
    }) + (if v > 2 {
        2
    } else {
        0
    }) + (if v > 3 {
        2
    } else {
        0
    });
    assert(tail == options_tail_len(i8_at(a, p + 1)));
    if a_len - p - 42 < tail {
        return false;
    }
    let q = p + 42 + tail;
    assert(q == options_roles_start(a, p as int));
    if v <= 4 {
        return a_len - q >= 4;
    }
    if a_len - q < 4 {
        return false;
    }
    let mut scratch = buffer.clone();
    scratch.position = q;
    let n = scratch.read_i32();
    assert(scratch.array@.subrange(q as int, q + 4) == a.subrange(q as int, q + 4));
    assert(n == le_i32_at(a, q as int));
    let count: usize = if n < 0 {
        0
    } else {
        n as usize
    };
    assert(count == role_count(a, q as int));
    let room = a_len - q - 4;
    if count > room / 4 {
        return false;
    }
    assert(4 * count <= room) by (nonlinear_arith)
        requires
            count <= room / 4,
    ;
    if room - 4 * count < 14 {
        return false;
    }
    assert(a.len() == a_len) by {
        assert(buffer.array@.len() == buffer.array.len());
    }
    let mut k: usize = 0;
    while k < count
        invariant
            0 <= k <= count,
            count == role_count(a, q as int),
            q + 4 + 4 * count + 14 <= a.len(),
            a.len() == a_len,
            a == buffer.array@,
            p == buffer.position,
            i8_at(a, p + 1) > 4,
            q == options_roles_start(a, p as int),
            scratch.array@ == a,
            forall|j: int| 0 <= j < k ==> 0 <= #[trigger] be_i16_at(a, q + 4 + 4 * j) <= 5,
        decreases count - k,
    {
        scratch.position = q + 4 + 4 * k;
        let role = scratch.read_i16();
        assert(role == be_i16_at(a, q + 4 + 4 * k));
        if role < 0 || role > 5 {
            assert(!(0 <= be_i16_at(a, q + 4 + 4 * (k as int)) <= 5));
            assert(!role_options_readable(a, q as int));
            return false;
        }
        k = k + 1;
    }
    true
}

/// `r` holds the role settings read at index `q` of `a`.
pub open spec fn role_options_read(r: RoleOptionsData, a: Seq<u8>, q: int) -> bool {
    let t = q + 4 + 4 * role_count(a, q);
    &&& r.roles == le_i32_at(a, q)
    &&& r.roleRates@ == role_rates_map(a, q + 4, role_count(a, q))
    &&& r.shapeshifter_leave_skin == bool_at(a, t)
    &&& r.shapeshifter_cooldown == i8_at(a, t + 1)
    &&& r.shapeshifter_duration == i8_at(a, t + 2)
    &&& r.scientist_cooldown == i8_at(a, t + 3)
    &&& r.guardian_angel_cooldown == i8_at(a, t + 4)
    &&& r.engineer_cooldown == i8_at(a, t + 5)
    &&& r.engineer_max_vent_time == i8_at(a, t + 6)
    &&& r.scientist_battery_charge == i8_at(a, t + 7)
    &&& r.protection_duration_seconds == i8_at(a, t + 8)
    &&& r.imposters_see_protect == bool_at(a, t + 9)
}

/// `r` holds the game settings read at index `p` of `a`.
pub open spec fn options_read(r: GameOptionsData, a: Seq<u8>, p: int) -> bool {
    let v = i8_at(a, p + 1);
    let q = p + 42;
    &&& r.version == v
    &&& r.max_players == i8_at(a, p + 2)
    &&& r.keywords == le_u32_at(a, p + 3)
    &&& r.map == i8_at(a, p + 7)
    &&& r.speed_mod == le_u32_at(a, p + 8)
    &&& r.crew_light == le_u32_at(a, p + 12)
    &&& r.imposter_light == le_u32_at(a, p + 16)
    &&& r.kill_cooldown == le_u32_at(a, p + 20)
    &&& r.common_tasks == i8_at(a, p + 24)
    &&& r.long_tasks == i8_at(a, p + 25)
    &&& r.short_tasks == i8_at(a, p + 26)
    &&& r.emergency_meetings == le_i32_at(a, p + 27)
    &&& r.imposters == i8_at(a, p + 31)
    &&& r.kill_distance == i8_at(a, p + 32)
    &&& r.discussion_time == le_i32_at(a, p + 33)
    &&& r.voting_time == le_i32_at(a, p + 37)
    &&& r.default == bool_at(a, p + 41)
    &&& r.emergency_cooldown == if v > 1 {
        Some(i8_at(a, q))
    } else {
        None
    }
    &&& r.confirm_ejects == if v > 2 {
        Some(bool_at(a, q + 1))
    } else {
        None
    }
    &&& r.visual_tasks == if v > 2 {
        Some(bool_at(a, q + 2))
    } else {
        None
    }
    &&& r.anonymous_votes == if v > 3 {
        Some(bool_at(a, q + 3))
    } else {
        None
    }
    &&& r.taskbar_mode == if v > 3 {
        Some(i8_at(a, q + 4))
    } else {
        None
    }
    &&& match r.roleOptions {
        Some(ro) => v > 4 && role_options_read(ro, a, options_roles_start(a, p)),
        None => v <= 4,
    }
}

/// The bytes that `serialize` writes for a platform.
pub open spec fn platform_bytes(platform: u8, name: Seq<char>) -> Seq<u8> {
    end_message_bytes(seq![platform] + string_frame(name))
}

impl PlatformSpecificData {
    /// Writes the platform as a Hazel message tagged with its number that
    /// holds its name.
    pub fn serialize(&self, buffer: &mut Buffer)
        requires
            (1 + string_frame(self.platformName@).len()) % 0x1_0000 != 0,
            old(buffer).can_write(platform_bytes(self.platform, self.platformName@).len()),
            string_frame(self.platformName@).len() + 4 <= usize::MAX,
        ensures
            final(buffer).wrote(*old(buffer), platform_bytes(self.platform, self.platformName@)),
    {
        let mut hazel_msg = HazelMessage::start_message(self.platform);
        let platformName = &self.platformName;
        hazel_msg.buffer.write_string(platformName.clone());
        proof {
            assert(hazel_msg.buffer.array@ =~= seq![self.platform] + string_frame(
                self.platformName@,
            ));
        }
        hazel_msg.end_message();
        hazel_msg.copy_to(buffer);
    }
}

impl GameOptionsData {
    /// Reads game settings: a leading byte that is skipped, the version and
    /// the fixed settings, then the optional ones that the version has, and
    /// from version 5 on the role settings.
    pub fn deserialize(buffer: &mut Buffer) -> (r: Self)
        requires
            options_readable(old(buffer).array@, old(buffer).position as int),
        ensures
            final(buffer).array@ == old(buffer).array@,
            final(buffer).position == options_end(old(buffer).array@, old(buffer).position as int),
            options_read(r, old(buffer).array@, old(buffer).position as int),
    {
        let ghost a = buffer.array@;
        let ghost p = buffer.position as int;
        proof {
            assert(buffer.array.len() == a.len());
        }
        buffer.read_i8();
        let version = buffer.read_i8();
        let max_players = buffer.read_i8();
        let keywords = buffer.read_u32();
        let map = buffer.read_i8();
        let speed_mod = buffer.read_f32();
        let crew_light = buffer.read_f32();
        let imposter_light = buffer.read_f32();
        let kill_cooldown = buffer.read_f32();
        let common_tasks = buffer.read_i8();
        let long_tasks = buffer.read_i8();
        let short_tasks = buffer.read_i8();
        let emergency_meetings = buffer.read_i32();
        let imposters = buffer.read_i8();
        let kill_distance = buffer.read_i8();
        let discussion_time = buffer.read_i32();
        let voting_time = buffer.read_i32();
        let default = buffer.read_bool();
        assert(buffer.position == p + 42);
        let mut emergency_cooldown: Option<i8> = None;
        let mut confirm_ejects: Option<bool> = None;
        let mut visual_tasks: Option<bool> = None;
        let mut anonymous_votes: Option<bool> = None;
        let mut taskbar_mode: Option<i8> = None;
        let mut roleOptions: Option<RoleOptionsData> = None;
        if version > 1 {
            emergency_cooldown = Some(buffer.read_i8());
        }
        if version > 2 {
            confirm_ejects = Some(buffer.read_bool());
            visual_tasks = Some(buffer.read_bool());
        }
        if version > 3 {
            anonymous_votes = Some(buffer.read_bool());
            taskbar_mode = Some(buffer.read_i8());
        }
        assert(buffer.position == options_roles_start(a, p));
        if version > 4 {
            roleOptions = Some(RoleOptionsData::deserialize(buffer));
        }
        GameOptionsData {
            version,
            max_players,
            keywords,
            map,
            speed_mod,
            crew_light,
            imposter_light,
            kill_cooldown,
            common_tasks,
            long_tasks,
            short_tasks,
            emergency_cooldown,
            imposters,
            kill_distance,
            discussion_time,
            voting_time,
            default,
            emergency_meetings,
            confirm_ejects,
            visual_tasks,
            anonymous_votes,
            taskbar_mode,
            roleOptions,
        }
    }
}

impl RoleOptionsData {
    /// Reads a count of role rates, the rates (role number, big-endian,
    /// then the two rate bytes), then ten single-byte settings.
    pub fn deserialize(buffer: &mut Buffer) -> (r: Self)
        requires
            role_options_readable(old(buffer).array@, old(buffer).position as int),
        ensures
            final(buffer).array@ == old(buffer).array@,
            final(buffer).position == role_options_end(old(buffer).array@, old(buffer).position as int),
            role_options_read(r, old(buffer).array@, old(buffer).position as int),
    {
        let ghost a = buffer.array@;
        let ghost q = buffer.position as int;
        let length = buffer.read_i32();
        proof {
            assert(buffer.array@.subrange(q, q + 4) == old(buffer).ahead(4));
        }
        let mut roleRates: HashMap<i16, RoleRate> = HashMap::new();
        let mut i: i32 = 0;
        proof {
            assert(buffer.array.len() == a.len());
        }
        while i < length
            invariant
                buffer.array@ == a,
                a.len() <= usize::MAX,
                0 <= i,
                length == le_i32_at(a, q),
                length >= 0 ==> i <= length,
                length < 0 ==> i == 0,
                role_options_readable(a, q),
                buffer.position == q + 4 + 4 * i,
                roleRates@ == role_rates_map(a, q + 4, i as nat),
            decreases length - i,
        {
            let ghost e = q + 4 + 4 * i;
            assert(0 <= be_i16_at(a, q + 4 + 4 * (i as int)) <= 5);
            let role_type: i16 = buffer.read_i16();
            let max_count = buffer.read_i8() as i32;
            let chance = buffer.read_i8() as i32;
            let roleRate = RoleRate { max_count, chance };
            roleRates.insert(role_type, roleRate);
            i = i + 1;
        }
        assert(i == role_count(a, q));
        RoleOptionsData {
            roles: length,
            roleRates,
            shapeshifter_leave_skin: buffer.read_bool(),
            shapeshifter_cooldown: buffer.read_i8(),
            shapeshifter_duration: buffer.read_i8(),
            scientist_cooldown: buffer.read_i8(),
            guardian_angel_cooldown: buffer.read_i8(),
            engineer_cooldown: buffer.read_i8(),
            engineer_max_vent_time: buffer.read_i8(),
            scientist_battery_charge: buffer.read_i8(),
            protection_duration_seconds: buffer.read_i8(),
            imposters_see_protect: buffer.read_bool(),
        }
    }
}

} // verus!
