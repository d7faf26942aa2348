use vstd::prelude::*;
use crate::inner::data::server::{options_at, options_len, GameOptionsData};
use crate::networking::buffer::Buffer;
use crate::util::bytes::le_u32;

verus! {

/// A request to host a game: its settings and cross-play flags.
pub struct HostGame {
    pub game_options_data: Option<GameOptionsData>,
    pub quick_chat_mode: Option<u32>,
}

/// A request to join a game.
pub struct JoinGame {
    pub code: Option<i32>,
}

/// The answer to a player who joined: the game's code, its id and the host.
pub struct JoinedGame {
    pub code: i32,
    pub join_id: i32,
    pub host_id: i32,
}

/// The server's answer to a client that runs mods.
pub struct ModdedHandshake {
    pub protocol_version: i8,
    pub mod_count: u32,
}

impl HostGame {
    /// Reads the settings, then four bytes of cross-play flags.
    pub fn deserialize(&mut self, buffer: &mut Buffer)
        requires
            old(buffer).cursor() + 43 <= old(buffer).bytes().len(),
            old(buffer).cursor() + options_len(old(buffer).bytes(), old(buffer).cursor() as int) + 4
                <= old(buffer).bytes().len(),
        ensures
            ({
                let a = old(buffer).bytes();
                let p = old(buffer).cursor() as int;
                let e = p + options_len(a, p);
                &&& final(self).game_options_data matches Some(g)
                &&& final(self).game_options_data.unwrap().view() == options_at(a, p)
                &&& final(self).quick_chat_mode == Some(le_u32(a.subrange(e, e + 4)))
                &&& final(buffer).bytes() == a
                &&& final(buffer).cursor() == e + 4
            }),
    {
        self.set_game_options_data(Some(GameOptionsData::read(buffer)));
        self.set_quick_chat_mode(Some(buffer.read_uint_32()));
    }

    pub fn game_options_data(&self) -> (r: &Option<GameOptionsData>)
        ensures
            *r == self.game_options_data,
    {
        &self.game_options_data
    }

    pub fn quick_chat_mode(&self) -> (r: Option<u32>)
        ensures
            r == self.quick_chat_mode,
    {
        self.quick_chat_mode
    }

    pub fn set_game_options_data(&mut self, game_options_data: Option<GameOptionsData>)
        ensures
            final(self).game_options_data == game_options_data,
            final(self).quick_chat_mode == old(self).quick_chat_mode,
    {
        self.game_options_data = game_options_data;
    }

    pub fn set_quick_chat_mode(&mut self, quick_chat_mode: Option<u32>)
        ensures
            final(self).quick_chat_mode == quick_chat_mode,
            final(self).game_options_data == old(self).game_options_data,
    {
        self.quick_chat_mode = quick_chat_mode;
    }
}

impl JoinGame {
    /// Reads the four-byte code of the game; it is not kept.
    pub fn deserialize(&mut self, buffer: &mut Buffer)
        requires
            old(buffer).can_read(4),
        ensures
            final(self).code == old(self).code,
            final(buffer).consumed(old(buffer), 4),
    {
        let _code = buffer.read_int_32();
    }
}

impl JoinGame {
    /// A join request writes nothing of its own: the result is a copy of
    /// `buffer`.
    pub fn serialize(&self, buffer: &mut Buffer) -> (r: Buffer)
        ensures
            r.bytes() == old(buffer).bytes(),
            r.cursor() == old(buffer).cursor(),
            *final(buffer) == *old(buffer),
    {
        buffer.clone()
    }
}

} // verus!
