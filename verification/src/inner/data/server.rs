use vstd::prelude::*;
use crate::networking::buffer::Buffer;
use crate::util::bytes::{bool_at, i8_at, le_u32_at};

verus! {

/// A lobby's game settings as the first protocol layer read them. The four
/// speed and cooldown settings are IEEE-754 singles, held as their bit
/// patterns.
#[derive(Debug)]
pub struct GameOptionsData {
    length: i8,
    version: i8,
    max_players: i8,
    keywords: u32,
    map: i8,
    player_speed_mod: u32,
    crew_light_mod: u32,
    imp_light_mod: u32,
    kill_cooldown: u32,
    common_tasks: i8,
    long_tasks: i8,
    short_tasks: i8,
    meetings: u32,
    imposters: i8,
    kill_distance: i8,
    discussion_time: u32,
    voting_time: u32,
    defaults: bool,
    emergency_cooldown: i8,
    ejections: bool,
    visual_tasks: bool,
    anonymous_voting: bool,
    task_bar: i8,
}

/// The values of a `GameOptionsData`, field by field.
pub struct GameOptionsView {
    pub length: i8,
    pub version: i8,
    pub max_players: i8,
    pub keywords: u32,
    pub map: i8,
    pub player_speed_mod: u32,
    pub crew_light_mod: u32,
    pub imp_light_mod: u32,
    pub kill_cooldown: u32,
    pub common_tasks: i8,
    pub long_tasks: i8,
    pub short_tasks: i8,
    pub meetings: u32,
    pub imposters: i8,
    pub kill_distance: i8,
    pub discussion_time: u32,
    pub voting_time: u32,
    pub defaults: bool,
    pub emergency_cooldown: i8,
    pub ejections: bool,
    pub visual_tasks: bool,
    pub anonymous_voting: bool,
    pub task_bar: i8,
}

/// The settings layout: 43 fixed bytes, then two flags from version 3 and a
/// flag and a byte from version 4.
pub open spec fn options_len(a: Seq<u8>, p: int) -> int {
    let v = i8_at(a, p + 1);
    43 + (if v > 2 {
        2int
    } else {
        0
    }) + (if v > 3 {
        2int
    } else {
        0
    })
}

/// The settings read at index `p` of `a`; settings that the version lacks
/// keep their defaults: ejections and visual tasks on, anonymous voting off,
/// task bar 0.
pub open spec fn options_at(a: Seq<u8>, p: int) -> GameOptionsView {
    let v = i8_at(a, p + 1);
    GameOptionsView {
        length: i8_at(a, p),
        version: i8_at(a, p + 1),
        max_players: i8_at(a, p + 2),
        keywords: le_u32_at(a, p + 3),
        map: i8_at(a, p + 7),
        player_speed_mod: le_u32_at(a, p + 8),
        crew_light_mod: le_u32_at(a, p + 12),
        imp_light_mod: le_u32_at(a, p + 16),
        kill_cooldown: le_u32_at(a, p + 20),
        common_tasks: i8_at(a, p + 24),
        long_tasks: i8_at(a, p + 25),
        short_tasks: i8_at(a, p + 26),
        meetings: le_u32_at(a, p + 27),
        imposters: i8_at(a, p + 31),
        kill_distance: i8_at(a, p + 32),
        discussion_time: le_u32_at(a, p + 33),
        voting_time: le_u32_at(a, p + 37),
        defaults: bool_at(a, p + 41),
        emergency_cooldown: i8_at(a, p + 42),
        ejections: if v > 2 { bool_at(a, p + 43) } else { true },
        visual_tasks: if v > 2 { bool_at(a, p + 44) } else { true },
        anonymous_voting: if v > 3 { bool_at(a, p + 45) } else { false },
        task_bar: if v > 3 { i8_at(a, p + 46) } else { 0 },
    }
}

impl GameOptionsData {
    pub closed spec fn view(&self) -> GameOptionsView {
        GameOptionsView {
            length: self.length,
            version: self.version,
            max_players: self.max_players,
            keywords: self.keywords,
            map: self.map,
            player_speed_mod: self.player_speed_mod,
            crew_light_mod: self.crew_light_mod,
            imp_light_mod: self.imp_light_mod,
            kill_cooldown: self.kill_cooldown,
            common_tasks: self.common_tasks,
            long_tasks: self.long_tasks,
            short_tasks: self.short_tasks,
            meetings: self.meetings,
            imposters: self.imposters,
            kill_distance: self.kill_distance,
            discussion_time: self.discussion_time,
            voting_time: self.voting_time,
            defaults: self.defaults,
            emergency_cooldown: self.emergency_cooldown,
            ejections: self.ejections,
            visual_tasks: self.visual_tasks,
            anonymous_voting: self.anonymous_voting,
            task_bar: self.task_bar,
        }
    }

    /// Reads the settings at the cursor of `buffer`.
    pub fn read(buffer: &mut Buffer) -> (r: Self)
        requires
            old(buffer).cursor() + 43 <= old(buffer).bytes().len(),
            old(buffer).cursor() + options_len(old(buffer).bytes(), old(buffer).cursor() as int)
                <= old(buffer).bytes().len(),
        ensures
            r.view() == options_at(old(buffer).bytes(), old(buffer).cursor() as int),
            final(buffer).bytes() == old(buffer).bytes(),
            final(buffer).cursor() == old(buffer).cursor() + options_len(
                old(buffer).bytes(),
                old(buffer).cursor() as int,
            ),
    {
        let ghost a = buffer.bytes();
        let ghost p = buffer.cursor() as int;
        proof {
            buffer.lemma_size_bound();
        }
        let mut options = Self {
            length: buffer.read_byte(),
            version: buffer.read_byte(),
            max_players: buffer.read_byte(),
            keywords: buffer.read_uint_32(),
            map: buffer.read_byte(),
            player_speed_mod: buffer.read_float(),
            crew_light_mod: buffer.read_float(),
            imp_light_mod: buffer.read_float(),
            kill_cooldown: buffer.read_float(),
            common_tasks: buffer.read_byte(),
            long_tasks: buffer.read_byte(),
            short_tasks: buffer.read_byte(),
            meetings: buffer.read_uint_32(),
            imposters: buffer.read_byte(),
            kill_distance: buffer.read_byte(),
            discussion_time: buffer.read_uint_32(),
            voting_time: buffer.read_uint_32(),
            defaults: buffer.read_bool(),
            emergency_cooldown: buffer.read_byte(),
            ejections: true,
            visual_tasks: true,
            anonymous_voting: false,
            task_bar: 0,
        };
        if options.version > 2 {
            options.set_ejections(buffer.read_bool());
            options.set_visual_tasks(buffer.read_bool());
        }
        if options.version > 3 {
            options.set_anonymous_voting(buffer.read_bool());
            options.set_task_bar(buffer.read_byte());
        }
        options
    }

    pub fn length(&self) -> (r: i8)
        ensures
            r == self.view().length,
    {
        self.length
    }

    pub fn version(&self) -> (r: i8)
        ensures
            r == self.view().version,
    {
        self.version
    }

    pub fn max_players(&self) -> (r: i8)
        ensures
            r == self.view().max_players,
    {
        self.max_players
    }

    pub fn keywords(&self) -> (r: u32)
        ensures
            r == self.view().keywords,
    {
        self.keywords
    }

    pub fn map(&self) -> (r: i8)
        ensures
            r == self.view().map,
    {
        self.map
    }

    /// The bit pattern of the setting, an IEEE-754 single.
    pub fn player_speed_mod(&self) -> (r: u32)
        ensures
            r == self.view().player_speed_mod,
    {
        self.player_speed_mod
    }

    /// The bit pattern of the setting, an IEEE-754 single.
    pub fn crew_light_mod(&self) -> (r: u32)
        ensures
            r == self.view().crew_light_mod,
    {
        self.crew_light_mod
    }

    /// The bit pattern of the setting, an IEEE-754 single.
    pub fn imp_light_mod(&self) -> (r: u32)
        ensures
            r == self.view().imp_light_mod,
    {
        self.imp_light_mod
    }

    /// The bit pattern of the setting, an IEEE-754 single.
    pub fn kill_cooldown(&self) -> (r: u32)
        ensures
            r == self.view().kill_cooldown,
    {
        self.kill_cooldown
    }

    pub fn common_tasks(&self) -> (r: i8)
        ensures
            r == self.view().common_tasks,
    {
        self.common_tasks
    }

    pub fn long_tasks(&self) -> (r: i8)
        ensures
            r == self.view().long_tasks,
    {
        self.long_tasks
    }

    pub fn short_tasks(&self) -> (r: i8)
        ensures
            r == self.view().short_tasks,
    {
        self.short_tasks
    }

    pub fn meetings(&self) -> (r: u32)
        ensures
            r == self.view().meetings,
    {
        self.meetings
    }

    pub fn imposters(&self) -> (r: i8)
        ensures
            r == self.view().imposters,
    {
        self.imposters
    }

    pub fn kill_distance(&self) -> (r: i8)
        ensures
            r == self.view().kill_distance,
    {
        self.kill_distance
    }

    pub fn discussion_time(&self) -> (r: u32)
        ensures
            r == self.view().discussion_time,
    {
        self.discussion_time
    }

    pub fn voting_time(&self) -> (r: u32)
        ensures
            r == self.view().voting_time,
    {
        self.voting_time
    }

    pub fn defaults(&self) -> (r: bool)
        ensures
            r == self.view().defaults,
    {
        self.defaults
    }

    pub fn emergency_cooldown(&self) -> (r: i8)
        ensures
            r == self.view().emergency_cooldown,
    {
        self.emergency_cooldown
    }

    pub fn ejections(&self) -> (r: bool)
        ensures
            r == self.view().ejections,
    {
        self.ejections
    }

    pub fn visual_tasks(&self) -> (r: bool)
        ensures
            r == self.view().visual_tasks,
    {
        self.visual_tasks
    }

    pub fn anonymous_voting(&self) -> (r: bool)
        ensures
            r == self.view().anonymous_voting,
    {
        self.anonymous_voting
    }

    pub fn task_bar(&self) -> (r: i8)
        ensures
            r == self.view().task_bar,
    {
        self.task_bar
    }

    pub fn set_length(&mut self, length: i8)
        ensures
            final(self).view() == (GameOptionsView { length, ..old(self).view() }),
    {
        self.length = length;
    }

    pub fn set_version(&mut self, version: i8)
        ensures
            final(self).view() == (GameOptionsView { version, ..old(self).view() }),
    {
        self.version = version;
    }

    pub fn set_max_players(&mut self, max_players: i8)
        ensures
            final(self).view() == (GameOptionsView { max_players, ..old(self).view() }),
    {
        self.max_players = max_players;
    }

    pub fn set_keywords(&mut self, keywords: u32)
        ensures
            final(self).view() == (GameOptionsView { keywords, ..old(self).view() }),
    {
        self.keywords = keywords;
    }

    pub fn set_map(&mut self, map: i8)
        ensures
            final(self).view() == (GameOptionsView { map, ..old(self).view() }),
    {
        self.map = map;
    }

    pub fn set_player_speed_mod(&mut self, player_speed_mod: u32)
        ensures
            final(self).view() == (GameOptionsView { player_speed_mod, ..old(self).view() }),
    {
        self.player_speed_mod = player_speed_mod;
    }

    pub fn set_crew_light_mod(&mut self, crew_light_mod: u32)
        ensures
            final(self).view() == (GameOptionsView { crew_light_mod, ..old(self).view() }),
    {
        self.crew_light_mod = crew_light_mod;
    }

    pub fn set_imp_light_mod(&mut self, imp_light_mod: u32)
        ensures
            final(self).view() == (GameOptionsView { imp_light_mod, ..old(self).view() }),
    {
        self.imp_light_mod = imp_light_mod;
    }

    pub fn set_kill_cooldown(&mut self, kill_cooldown: u32)
        ensures
            final(self).view() == (GameOptionsView { kill_cooldown, ..old(self).view() }),
    {
        self.kill_cooldown = kill_cooldown;
    }

    pub fn set_common_tasks(&mut self, common_tasks: i8)
        ensures
            final(self).view() == (GameOptionsView { common_tasks, ..old(self).view() }),
    {
        self.common_tasks = common_tasks;
    }

    pub fn set_long_tasks(&mut self, long_tasks: i8)
        ensures
            final(self).view() == (GameOptionsView { long_tasks, ..old(self).view() }),
    {
        self.long_tasks = long_tasks;
    }

    pub fn set_short_tasks(&mut self, short_tasks: i8)
        ensures
            final(self).view() == (GameOptionsView { short_tasks, ..old(self).view() }),
    {
        self.short_tasks = short_tasks;
    }

    pub fn set_meetings(&mut self, meetings: u32)
        ensures
            final(self).view() == (GameOptionsView { meetings, ..old(self).view() }),
    {
        self.meetings = meetings;
    }

    pub fn set_imposters(&mut self, imposters: i8)
        ensures
            final(self).view() == (GameOptionsView { imposters, ..old(self).view() }),
    {
        self.imposters = imposters;
    }

    pub fn set_kill_distance(&mut self, kill_distance: i8)
        ensures
            final(self).view() == (GameOptionsView { kill_distance, ..old(self).view() }),
    {
        self.kill_distance = kill_distance;
    }

    pub fn set_discussion_time(&mut self, discussion_time: u32)
        ensures
            final(self).view() == (GameOptionsView { discussion_time, ..old(self).view() }),
    {
        self.discussion_time = discussion_time;
    }

    pub fn set_voting_time(&mut self, voting_time: u32)
        ensures
            final(self).view() == (GameOptionsView { voting_time, ..old(self).view() }),
    {
        self.voting_time = voting_time;
    }

    pub fn set_defaults(&mut self, defaults: bool)
        ensures
            final(self).view() == (GameOptionsView { defaults, ..old(self).view() }),
    {
        self.defaults = defaults;
    }

    pub fn set_emergency_cooldown(&mut self, emergency_cooldown: i8)
        ensures
            final(self).view() == (GameOptionsView { emergency_cooldown, ..old(self).view() }),
    {
        self.emergency_cooldown = emergency_cooldown;
    }

    pub fn set_ejections(&mut self, ejections: bool)
        ensures
            final(self).view() == (GameOptionsView { ejections, ..old(self).view() }),
    {
        self.ejections = ejections;
    }

    pub fn set_visual_tasks(&mut self, visual_tasks: bool)
        ensures
            final(self).view() == (GameOptionsView { visual_tasks, ..old(self).view() }),
    {
        self.visual_tasks = visual_tasks;
    }

    pub fn set_anonymous_voting(&mut self, anonymous_voting: bool)
        ensures
            final(self).view() == (GameOptionsView { anonymous_voting, ..old(self).view() }),
    {
        self.anonymous_voting = anonymous_voting;
    }

    pub fn set_task_bar(&mut self, task_bar: i8)
        ensures
            final(self).view() == (GameOptionsView { task_bar, ..old(self).view() }),
    {
        self.task_bar = task_bar;
    }
}

} // verus!
