use std::collections::HashMap;
use vstd::prelude::*;
use crate::inner::objects::inner_net_objects::{GameData, LobbyBehavior, VoteBanSystem};
use crate::manager::user::{Player, User};
use crate::util::inner::GameCode;
use crate::util::keys::keys_of;
use crate::util::text::{ascii_upper, chars_of, is_ascii_letter, string_push};
use crate::inner::inner::{code_to_int, code_value, lemma_code_roundtrip};

verus! {

broadcast use vstd::std_specs::hash::group_hash_axioms;

/// Where a game stands.
#[derive(Debug, Clone, Copy, PartialEq)]
pub enum GameState {
    NotStarted,
    WaitingForHost,
    InProgress,
}

/// A game room: its players by player id, its shared objects and its host.
#[derive(Debug, Clone)]
pub struct GameRoom {
    pub state: GameState,
    pub code: GameCode,
    pub players: HashMap<i32, Option<User>>,
    pub game_data: Option<GameData>,
    pub vote_ban_system: Option<VoteBanSystem>,
    pub lobby_behavior: Option<LobbyBehavior>,
    pub host: i32,
    pub waiting_for_host: Vec<i32>,
}

/// Whether `id` occurs in `ids`.
pub fn contains_id(ids: &[i32], id: i32) -> (r: bool)
    ensures
        r == ids@.contains(id),
{
    let mut k: usize = 0;
    while k < ids.len()
        invariant
            0 <= k <= ids@.len(),
            forall|i: int| 0 <= i < k ==> ids@[i] != id,
        decreases ids@.len() - k,
    {
        if ids[k] == id {
            return true;
        }
        k = k + 1;
    }
    false
}

impl GameRoom {
    /// The host is one of the players, unless there are none.
    pub open spec fn host_valid(&self) -> bool {
        self.players@.len() > 0 ==> self.players@.contains_key(self.host)
    }

    /// Every player slot holds a user.
    pub open spec fn all_seated(&self) -> bool {
        forall|k: i32| #[trigger] self.players@.contains_key(k) ==> self.players@[k] is Some
    }

    /// The players that a packet for all but `exclude` reaches: those whose
    /// user has a player whose id is not in `exclude`.
    pub open spec fn reached_but(&self, exclude: Seq<i32>, k: i32) -> bool {
        &&& self.players@.contains_key(k)
        &&& self.players@[k] matches Some(u) && u.player matches Some(p) && !exclude.contains(p.id)
    }

    /// A room that has not started, with no players, no objects and no host.
    pub fn new(code: GameCode) -> (r: Self)
        ensures
            r.state == GameState::NotStarted,
            r.code == code,
            r.players@ == Map::<i32, Option<User>>::empty(),
            r.game_data is None,
            r.vote_ban_system is None,
            r.lobby_behavior is None,
            r.host == -1,
            r.waiting_for_host@ == Seq::<i32>::empty(),
            r.host_valid(),
    {
        GameRoom {
            state: GameState::NotStarted,
            code,
            players: HashMap::new(),
            game_data: None,
            vote_ban_system: None,
            lobby_behavior: None,
            host: -1,
            waiting_for_host: Vec::new(),
        }
    }

    /// The player ids that a packet for all players goes to: every one.
    pub fn recipients_all(&self) -> (r: Vec<i32>)
        requires
            self.all_seated(),
        ensures
            r@.to_set() == self.players@.dom(),
            r@.no_duplicates(),
    {
        keys_of(&self.players)
    }

    /// The player ids that a packet for all but `exclude` goes to.
    pub fn recipients_all_but(&self, exclude: &[i32]) -> (r: Vec<i32>)
        requires
            self.all_seated(),
        ensures
            forall|k: i32| r@.contains(k) <==> self.reached_but(exclude@, k),
            r@.no_duplicates(),
    {
        let keys = keys_of(&self.players);
        let mut r: Vec<i32> = Vec::new();
        let mut j: usize = 0;
        while j < keys.len()
            invariant
                keys@.to_set() == self.players@.dom(),
                keys@.no_duplicates(),
                self.all_seated(),
                0 <= j <= keys@.len(),
                r@.no_duplicates(),
                forall|k: i32|
                    r@.contains(k) <==> (keys@.take(j as int).contains(k) && self.reached_but(
                        exclude@,
                        k,
                    )),
            decreases keys@.len() - j,
        {
            let k = keys[j];
            let ghost before = r@;
            assert(self.players@.contains_key(k)) by {
                assert(keys@.to_set().contains(k));
            }
            let slot = self.players.get(&k);
            let reached = match slot {
                Some(Some(u)) => match &u.player {
                    Some(p) => !contains_id(exclude, p.id),
                    None => false,
                },
                _ => false,
            };
            assert(slot == Some(&self.players@[k]));
            assert(reached == self.reached_but(exclude@, k));
            if reached {
                proof {
                    assert(!before.contains(k)) by {
                        if before.contains(k) {
                            let i = choose|i: int| 0 <= i < j && keys@[i] == k;
                            assert(keys@[i] == keys@[j as int]);
                        }
                    }
                }
                r.push(k);
            }
            proof {
                assert forall|x: i32|
                    r@.contains(x) <==> (keys@.take(j + 1).contains(x) && self.reached_but(
                        exclude@,
                        x,
                    )) by {
                    let t = keys@.take(j as int);
                    assert(keys@.take(j + 1) =~= t.push(k));
                    assert(t.push(k)[t.len() as int] == k);
                    if reached {
                        assert(r@ == before.push(k));
                        assert(before.push(k)[before.len() as int] == k);
                    } else {
                        assert(r@ == before);
                    }
                    if x != k {
                        if t.push(k).contains(x) {
                            let i = choose|i: int| 0 <= i < t.push(k).len() && t.push(k)[i] == x;
                            assert(t[i] == x);
                        }
                        if t.contains(x) {
                            let i = choose|i: int| 0 <= i < t.len() && t[i] == x;
                            assert(t.push(k)[i] == x);
                        }
                        if r@.contains(x) {
                            let i = choose|i: int| 0 <= i < r@.len() && r@[i] == x;
                            assert(before[i] == x);
                        }
                        if before.contains(x) {
                            let i = choose|i: int| 0 <= i < before.len() && before[i] == x;
                            assert(r@[i] == x);
                        }
                    }
                }
            }
            j = j + 1;
        }
        proof {
            assert(keys@.take(keys@.len() as int) =~= keys@);
            assert forall|x: i32| self.reached_but(exclude@, x) implies keys@.contains(x) by {
                assert(keys@.to_set().contains(x));
            }
        }
        r
    }

    /// Who gets the join packet once player `id` is seated: no one when the
    /// room was empty before, else every seated player but `id`. The joining
    /// user gets the joined packet in either case.
    pub fn join_recipients(&self, id: i32, new_room: bool) -> (r: Vec<i32>)
        requires
            self.all_seated(),
        ensures
            new_room ==> r@.len() == 0,
            !new_room ==> forall|k: i32| r@.contains(k) <==> self.reached_but(seq![id], k),
            r@.no_duplicates(),
    {
        if new_room {
            return Vec::new();
        }
        let exclude = [id];
        let r = self.recipients_all_but(&exclude);
        assert(exclude@ =~= seq![id]);
        r
    }

    /// Seats `user` as a new player: its id is one more than the number of
    /// players, and it becomes host of an empty room. Returns the user as
    /// seated, and whether the room was empty.
    pub fn admit_player(&mut self, user: &User) -> (r: (User, bool))
        requires
            old(self).players@.len() < 0x7FFF_FFFF,
        ensures
            ({
                let id = (old(self).players@.len() + 1) as i32;
                &&& r.0 == (User {
                    player: Some(Player { id, game_code: old(self).code }),
                    ..*user
                })
                &&& r.1 == (old(self).players@.len() == 0)
                &&& final(self).players@ == old(self).players@.insert(id, Some(r.0))
                &&& final(self).host == if r.1 {
                    id
                } else {
                    old(self).host
                }
            }),
            final(self).state == old(self).state,
            final(self).code == old(self).code,
            final(self).game_data == old(self).game_data,
            final(self).vote_ban_system == old(self).vote_ban_system,
            final(self).lobby_behavior == old(self).lobby_behavior,
            final(self).waiting_for_host == old(self).waiting_for_host,
            old(self).host_valid() ==> final(self).host_valid(),
            old(self).all_seated() ==> final(self).all_seated(),
    {
        let next_length = self.players.len() + 1;
        let player = Player { id: next_length as i32, game_code: self.code.duplicate() };
        let new_room = self.players.is_empty();
        if new_room {
            self.host = player.id;
        }
        let mut user_mut = user.duplicate();
        user_mut.player = Some(player);
        let id = next_length as i32;
        self.players.insert(id, Some(user_mut.duplicate()));
        (user_mut, new_room)
    }

    /// Takes player `id` out of the room. When the host leaves, another
    /// player becomes host; when no one is left, the result is `true`: the
    /// room is to be destroyed.
    pub fn remove_player(&mut self, id: i32) -> (destroy: bool)
        ensures
            final(self).players@ == old(self).players@.remove(id),
            destroy == (old(self).host == id && final(self).players@.len() == 0),
            old(self).host != id ==> final(self).host == old(self).host,
            old(self).host == id && !destroy ==> final(self).players@.contains_key(final(self).host),
            final(self).state == old(self).state,
            final(self).code == old(self).code,
            final(self).game_data == old(self).game_data,
            final(self).vote_ban_system == old(self).vote_ban_system,
            final(self).lobby_behavior == old(self).lobby_behavior,
            final(self).waiting_for_host == old(self).waiting_for_host,
            old(self).host_valid() ==> final(self).host_valid(),
            old(self).all_seated() ==> final(self).all_seated(),
    {
        self.players.remove(&id);
        if self.host == id {
            if self.players.is_empty() {
                return true;
            } else {
                let keys = keys_of(&self.players);
                proof {
                    assert(keys@.len() > 0) by {
                        if keys@.len() == 0 {
                            assert(keys@.to_set() =~= Set::<i32>::empty());
                        }
                    }
                    assert(keys@.to_set().contains(keys@[0]));
                }
                self.host = keys[0];
            }
        }
        false
    }
}

/// A player who joins under a free id and then leaves leaves the seats as
/// they were.
pub proof fn lemma_leave_undoes_join(players: Map<i32, Option<User>>, id: i32, user: Option<User>)
    requires
        !players.contains_key(id),
    ensures
        players.insert(id, user).remove(id) == players,
{
    assert(players.insert(id, user).remove(id) =~= players);
}

/// `a` and `b` are equal once ASCII letters are put in one case.
pub open spec fn same_ignoring_ascii_case(a: Seq<char>, b: Seq<char>) -> bool {
    &&& a.len() == b.len()
    &&& forall|i: int| 0 <= i < a.len() ==> ascii_upper(#[trigger] a[i]) == ascii_upper(b[i])
}

fn upper_char(c: char) -> (r: char)
    ensures
        r == ascii_upper(c),
{
    if 'a' <= c && c <= 'z' {
        ((c as u32) - 32) as u8 as char
    } else {
        c
    }
}

/// Whether `a` and `b` are equal once ASCII letters are put in one case.
pub fn eq_ignore_ascii_case(a: &str, b: &str) -> (r: bool)
    ensures
        r == same_ignoring_ascii_case(a@, b@),
{
    let x = chars_of(a);
    let y = chars_of(b);
    if x.len() != y.len() {
        return false;
    }
    let mut i: usize = 0;
    while i < x.len()
        invariant
            x@ == a@,
            y@ == b@,
            x@.len() == y@.len(),
            0 <= i <= x@.len(),
            forall|j: int| 0 <= j < i ==> ascii_upper(#[trigger] x@[j]) == ascii_upper(y@[j]),
        decreases x@.len() - i,
    {
        if upper_char(x[i]) != upper_char(y[i]) {
            return false;
        }
        i = i + 1;
    }
    true
}

/// Whether one of `codes` names the same game as `code`, letters compared
/// without regard to case.
pub fn room_exists(codes: &[GameCode], code: &GameCode) -> (r: bool)
    ensures
        r == exists|i: int|
            0 <= i < codes@.len() && #[trigger] same_ignoring_ascii_case(
                codes@[i].code_string@,
                code.code_string@,
            ),
{
    let mut i: usize = 0;
    while i < codes.len()
        invariant
            0 <= i <= codes@.len(),
            forall|j: int|
                0 <= j < i ==> !#[trigger] same_ignoring_ascii_case(
                    codes@[j].code_string@,
                    code.code_string@,
                ),
        decreases codes@.len() - i,
    {
        if eq_ignore_ascii_case(codes[i].code_string.as_str(), code.code_string.as_str()) {
            return true;
        }
        i = i + 1;
    }
    false
}

/// The letters that a draw of six numbers below 26 spells: `A` plus each.
pub open spec fn drawn_letters(draw: Seq<u8>) -> Seq<char> {
    draw.map_values(|d: u8| (65 + d) as char)
}

/// `code` is the code of no room in `codes`, letters compared without regard
/// to case.
pub open spec fn code_is_free(codes: Seq<GameCode>, code: Seq<char>) -> bool {
    !exists|i: int| 0 <= i < codes.len() && #[trigger] same_ignoring_ascii_case(codes[i].code_string@, code)
}

/// The game code that the drawn letters spell, when no room in `codes` has
/// it; `None` when one has, and another draw is needed.
pub fn fresh_code(draw: [u8; 6], codes: &[GameCode]) -> (r: Option<GameCode>)
    requires
        forall|i: int| 0 <= i < 6 ==> draw@[i] < 26,
    ensures
        r is Some <==> code_is_free(codes@, drawn_letters(draw@)),
        r is Some ==> r.unwrap().code_int == code_value(drawn_letters(draw@)) && r.unwrap().code_string@
            == drawn_letters(draw@),
{
    let ghost letters = drawn_letters(draw@);
    let mut text = String::new();
    let mut i: usize = 0;
    while i < 6
        invariant
            0 <= i <= 6,
            forall|j: int| 0 <= j < 6 ==> draw@[j] < 26,
            letters == drawn_letters(draw@),
            text@ == letters.take(i as int),
        decreases 6 - i,
    {
        let c = (65 + draw[i]) as char;
        string_push(&mut text, c);
        assert(letters.take(i + 1) =~= letters.take(i as int).push(c));
        i = i + 1;
    }
    proof {
        assert(letters.take(6) =~= letters);
        assert forall|j: int| 0 <= j < 6 implies is_ascii_letter(#[trigger] letters[j]) by {}
        lemma_code_roundtrip(letters);
        assert(letters.map_values(|c: char| ascii_upper(c)) =~= letters);
    }
    let code_int = code_to_int(text);
    let code = GameCode::new_code_int(code_int);
    if room_exists(codes, &code) {
        None
    } else {
        Some(code)
    }
}

} // verus!
