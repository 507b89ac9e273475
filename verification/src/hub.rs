//! The hub: many games side by side, each with the names of its two players.

use crate::tictac::{Board, Cell, TicTacToeGame, MAX_SIZE};
use std::collections::HashMap;
use vstd::prelude::*;

verus! {

/// The mathematical model of a session: what a [`HubEntry`] stands for.
pub struct Session {
    /// The game that is played in this session.
    pub game: Board,
    /// The name registered for `X`.
    pub x_player: Option<Seq<char>>,
    /// The name registered for `O`.
    pub o_player: Option<Seq<char>>,
}

impl Session {
    /// A session with a fresh board and no player.
    pub open spec fn fresh(size: int, criteria: int) -> Session {
        Session { game: Board::fresh(size, criteria), x_player: None, o_player: None }
    }

    /// The name registered for `kind`.
    pub open spec fn player(self, kind: Cell) -> Option<Seq<char>> {
        match kind {
            Cell::X => self.x_player,
            Cell::O => self.o_player,
        }
    }

    /// The session after `name` asked for the slot of `kind`: the name is
    /// registered if the slot was free, and nothing changes if it was taken.
    pub open spec fn set_player(self, kind: Cell, name: Seq<char>) -> Session {
        if self.player(kind) is Some {
            self
        } else {
            match kind {
                Cell::X => Session { x_player: Some(name), ..self },
                Cell::O => Session { o_player: Some(name), ..self },
            }
        }
    }

    /// Whether `name` is registered for one of the two marks.
    pub open spec fn is_a_player(self, name: Seq<char>) -> bool {
        self.x_player == Some(name) || self.o_player == Some(name)
    }

    /// Whether it is the turn of `name`: some mark moves next, and `name` is
    /// registered for it.
    pub open spec fn may_move(self, name: Seq<char>) -> bool {
        match self.game.current_player {
            Some(m) => self.player(m) == Some(name),
            None => false,
        }
    }

    /// The session after `name` asked for a move to `(x, y)`: the move is
    /// handed to the game if it is the turn of `name`, and nothing changes
    /// otherwise.
    pub open spec fn turn(self, x: int, y: int, name: Seq<char>) -> Session {
        if self.may_move(name) {
            Session { game: self.game.play(x, y), ..self }
        } else {
            self
        }
    }

    /// Whether `name` may replace the board by a fresh one of side `size`
    /// with runs of `criteria` marks.
    pub open spec fn may_reset(self, size: int, criteria: int, name: Seq<char>) -> bool {
        self.is_a_player(name) && Board::valid_config(size, criteria)
    }

    /// The session after `name` asked for a fresh board. The players stay.
    pub open spec fn reset(self, size: int, criteria: int, name: Seq<char>) -> Session {
        if self.may_reset(size, criteria, name) {
            Session { game: Board::fresh(size, criteria), ..self }
        } else {
            self
        }
    }

    /// Whether `name` may delete the session: only a player may, and only
    /// once the game has ended in a draw.
    pub open spec fn may_delete(self, name: Seq<char>) -> bool {
        self.is_a_player(name) && self.game.draw
    }
}

/// A name as a sequence of characters, if there is one.
pub open spec fn name_of(name: Option<String>) -> Option<Seq<char>> {
    match name {
        Some(s) => Some(s@),
        None => None,
    }
}

/// One game of the hub and the names of its players.
#[derive(Debug, PartialEq, Eq)]
pub struct HubEntry {
    pub game: TicTacToeGame,
    pub x_player: Option<String>,
    pub o_player: Option<String>,
}

impl View for HubEntry {
    type V = Session;

    open spec fn view(&self) -> Session {
        Session {
            game: self.game@,
            x_player: name_of(self.x_player),
            o_player: name_of(self.o_player),
        }
    }
}

impl Clone for HubEntry {
    /// Copies the game and both names.
    fn clone(&self) -> (copy: Self)
        ensures
            copy@ == self@,
    {
        Self {
            game: self.game.clone(),
            x_player: copy_name(&self.x_player),
            o_player: copy_name(&self.o_player),
        }
    }
}

/// Copies a name, if there is one.
fn copy_name(name: &Option<String>) -> (copy: Option<String>)
    ensures
        copy == *name,
{
    match name {
        Some(s) => Some(s.clone()),
        None => None,
    }
}

impl HubEntry {
    /// The game's matrix is a square of its side, and its configuration is valid.
    pub open spec fn wf(&self) -> bool {
        self.game.wf()
    }

    /// Returns the name registered for `kind`.
    fn get_player(&self, kind: Cell) -> (name: Option<String>)
        ensures
            name == self.player_of(kind),
            name_of(name) == self@.player(kind),
    {
        match kind {
            Cell::X => copy_name(&self.x_player),
            Cell::O => copy_name(&self.o_player),
        }
    }

    /// The name stored for `kind`.
    pub open spec fn player_of(&self, kind: Cell) -> Option<String> {
        match kind {
            Cell::X => self.x_player,
            Cell::O => self.o_player,
        }
    }

    /// Registers `player` for `kind` unless a name is registered for it already.
    pub fn set_player(&mut self, kind: Cell, player: String)
        ensures
            final(self)@ == old(self)@.set_player(kind, player@),
            final(self).game == old(self).game,
            old(self)@.player(kind) is Some ==> *final(self) == *old(self),
    {
        match kind {
            Cell::X => if self.x_player.is_none() {
                self.x_player = Some(player)
            },
            Cell::O => if self.o_player.is_none() {
                self.o_player = Some(player)
            },
        }
    }

    /// Whether `player` is registered for one of the two marks.
    pub fn is_a_player(&self, player: String) -> (yes: bool)
        ensures
            yes == self@.is_a_player(player@),
    {
        let is_x = match &self.x_player {
            Some(p) => *p == player,
            None => false,
        };
        let is_o = match &self.o_player {
            Some(p) => *p == player,
            None => false,
        };
        is_x || is_o
    }

    /// Makes a move to `(x, y)` for `player_name`, if it is that player's turn.
    pub fn turn(&mut self, x: usize, y: usize, player_name: String)
        requires
            old(self).wf(),
        ensures
            final(self).wf(),
            final(self)@ == old(self)@.turn(x as int, y as int, player_name@),
            !old(self)@.may_move(player_name@) || !old(self)@.game.accepts(x as int, y as int)
                ==> *final(self) == *old(self),
    {
        let next = match self.game.current_player {
            Some(m) => m,
            None => {
                return ;
            },
        };
        let supposed_player = self.get_player(next);
        match supposed_player {
            Some(p) => if !(p == player_name) {
                return ;
            },
            None => {
                return ;
            },
        }
        self.game.turn(x, y);
    }

    /// Replaces the board by a fresh one for `player`, if that is a player of
    /// this game and the new configuration is valid. The players stay.
    pub fn reset(&mut self, size: usize, criteria: usize, player: String)
        ensures
            old(self).wf() ==> final(self).wf(),
            final(self)@ == old(self)@.reset(size as int, criteria as int, player@),
            !old(self)@.may_reset(size as int, criteria as int, player@) ==> *final(self) == *old(
                self,
            ),
    {
        if self.is_a_player(player) && TicTacToeGame::is_valid_config(size, criteria) {
            self.game = TicTacToeGame::new(size, criteria);
        }
    }

    /// Whether `player` may delete this game.
    pub fn may_delete(&self, player: String) -> (yes: bool)
        ensures
            yes == self@.may_delete(player@),
    {
        self.is_a_player(player) && self.game.draw
    }
}

/// The mathematical model of a hub: what a [`Hub`] stands for.
pub struct Sessions {
    /// The sessions by their ids.
    pub sessions: Map<u64, Session>,
    /// The id that the next session gets.
    pub next_id: int,
}

impl Sessions {
    /// A hub without sessions, which counts ids from zero.
    pub open spec fn empty() -> Sessions {
        Sessions { sessions: Map::empty(), next_id: 0 }
    }

    /// Every session has a well-formed game and an id that was handed out.
    pub open spec fn wf(self) -> bool {
        &&& 0 <= self.next_id <= u64::MAX
        &&& forall|id: u64| #[trigger]
            self.sessions.contains_key(id) ==> id < self.next_id && self.sessions[id].game.wf()
    }

    /// The session with the given id, if there is one.
    pub open spec fn get(self, id: u64) -> Option<Session> {
        if self.sessions.contains_key(id) {
            Some(self.sessions[id])
        } else {
            None
        }
    }

    /// The id that a new game with this configuration gets, if the
    /// configuration is valid.
    pub open spec fn new_game_id(self, size: int, criteria: int) -> Option<u64> {
        if Board::valid_config(size, criteria) {
            Some(self.next_id as u64)
        } else {
            None
        }
    }

    /// The hub after a new game was asked for: with a valid configuration a
    /// fresh session stands under the next id, and the id after it is next.
    pub open spec fn new_game(self, size: int, criteria: int) -> Sessions {
        if Board::valid_config(size, criteria) {
            Sessions {
                sessions: self.sessions.insert(self.next_id as u64, Session::fresh(size, criteria)),
                next_id: self.next_id + 1,
            }
        } else {
            self
        }
    }

    /// The hub with the session `id` replaced by `session`, if there is such
    /// a session.
    pub open spec fn with_session(self, id: u64, session: Session) -> Sessions {
        if self.sessions.contains_key(id) {
            Sessions { sessions: self.sessions.insert(id, session), ..self }
        } else {
            self
        }
    }

    /// The hub after `name` asked for the slot of `kind` in session `id`.
    pub open spec fn register(self, id: u64, kind: Cell, name: Seq<char>) -> Sessions {
        self.with_session(id, self.sessions[id].set_player(kind, name))
    }

    /// The hub after `name` asked for a move to `(x, y)` in session `id`.
    pub open spec fn turn(self, id: u64, x: int, y: int, name: Seq<char>) -> Sessions {
        self.with_session(id, self.sessions[id].turn(x, y, name))
    }

    /// The hub after `name` asked for a fresh board in session `id`.
    pub open spec fn reset(self, id: u64, size: int, criteria: int, name: Seq<char>) -> Sessions {
        self.with_session(id, self.sessions[id].reset(size, criteria, name))
    }

    /// Whether a request of `name` to delete session `id` is granted.
    pub open spec fn deletes(self, id: u64, name: Seq<char>) -> bool {
        self.sessions.contains_key(id) && self.sessions[id].may_delete(name)
    }

    /// The hub after `name` asked to delete session `id`.
    pub open spec fn delete(self, id: u64, name: Seq<char>) -> Sessions {
        if self.deletes(id, name) {
            Sessions { sessions: self.sessions.remove(id), ..self }
        } else {
            self
        }
    }
}

/// The sessions that a map of entries stands for.
pub open spec fn sessions_of(entries: Map<u64, HubEntry>) -> Map<u64, Session> {
    entries.map_values(|e: HubEntry| e@)
}

/// The session that an entry stands for, if there is one.
pub open spec fn session_of(entry: Option<HubEntry>) -> Option<Session> {
    match entry {
        Some(e) => Some(e@),
        None => None,
    }
}

/// The games of a server, each under an id of its own.
pub struct Hub {
    pub entries: HashMap<u64, HubEntry>,
    id_counter: u64,
}

impl View for Hub {
    type V = Sessions;

    closed spec fn view(&self) -> Sessions {
        Sessions { sessions: sessions_of(self.entries@), next_id: self.id_counter as int }
    }
}

impl Hub {

    /// Every game is well formed and stands under an id that was handed out.
    pub open spec fn wf(&self) -> bool {
        self@.wf()
    }

    /// A hub without games.
    pub fn new() -> (hub: Self)
        ensures
            hub.wf(),
            hub@ == Sessions::empty(),
    {
        let hub = Self { entries: HashMap::new(), id_counter: 0 };
        assert(hub@.sessions =~= Sessions::empty().sessions);
        hub
    }

    /// Returns the id that the next game gets.
    pub fn next_id(&self) -> (id: u64)
        ensures
            id == self@.next_id,
    {
        self.id_counter
    }

    /// Starts a game on a fresh board of the given side, with runs of
    /// `criteria` marks, and returns its id. With a side of zero or above the
    /// largest, or with runs longer than the side, nothing happens and `None`
    /// is returned.
    pub fn new_game(&mut self, side: usize, criteria: usize) -> (id: Option<u64>)
        requires
            old(self).wf(),
            old(self)@.next_id < u64::MAX,
        ensures
            final(self).wf(),
            final(self)@ == old(self)@.new_game(side as int, criteria as int),
            id == old(self)@.new_game_id(side as int, criteria as int),
            id is None ==> *final(self) == *old(self),
            id matches Some(i) ==> !old(self)@.sessions.contains_key(i),
    {
        broadcast use vstd::std_specs::hash::group_hash_axioms;

        if side == 0 || side > MAX_SIZE || criteria > side {
            return None;
        }
        self.entries.insert(
            self.id_counter,
            HubEntry { game: TicTacToeGame::new(side, criteria), x_player: None, o_player: None },
        );
        self.id_counter += 1;
        assert(self@.sessions =~= old(self)@.new_game(side as int, criteria as int).sessions);
        Some(self.id_counter - 1)
    }

    /// Returns a copy of every game, by id.
    pub fn get_games(&self) -> (all: HashMap<u64, HubEntry>)
        ensures
            sessions_of(all@) == self@.sessions,
    {
        broadcast use vstd::std_specs::hash::group_hash_axioms;

        let mut all: HashMap<u64, HubEntry> = HashMap::new();
        for pair in it: self.entries.iter()
            invariant
                forall|i: int|
                    0 <= i < it.seq().len() ==> self.entries@.contains_key(
                        *(#[trigger] it.seq()[i]).0,
                    ) && self.entries@[*it.seq()[i].0] == *it.seq()[i].1,
                forall|id: u64| #[trigger]
                    self.entries@.contains_key(id) ==> it.seq().contains((&id, &self.entries@[id])),
                forall|i: int|
                    0 <= i < it.index() ==> all@.contains_key(*(#[trigger] it.seq()[i]).0),
                forall|id: u64| #[trigger]
                    all@.contains_key(id) ==> self.entries@.contains_key(id) && all@[id]@
                        == self.entries@[id]@,
        {
            let (id, entry) = pair;
            all.insert(*id, entry.clone());
        }
        assert forall|id: u64| self.entries@.contains_key(id) implies all@.contains_key(id) by {}
        assert(sessions_of(all@) =~= self@.sessions);
        all
    }

    /// Returns a copy of the game `id`, if there is one.
    pub fn get_game_by_id(&self, id: u64) -> (entry: Option<HubEntry>)
        ensures
            session_of(entry) == self@.get(id),
    {
        broadcast use vstd::std_specs::hash::group_hash_axioms;

        match self.entries.get(&id) {
            Some(e) => Some(e.clone()),
            None => None,
        }
    }

    /// Registers `player` for `kind` in the game `id`, unless a name is
    /// registered for that mark already. Returns a copy of the game as it is
    /// after the call, or `None` if there is no such game.
    pub fn game_register(&mut self, id: u64, kind: Cell, player: String) -> (entry: Option<
        HubEntry,
    >)
        requires
            old(self).wf(),
        ensures
            final(self).wf(),
            final(self)@ == old(self)@.register(id, kind, player@),
            session_of(entry) == final(self)@.get(id),
            entry is Some <==> old(self)@.sessions.contains_key(id),
    {
        broadcast use vstd::std_specs::hash::group_hash_axioms;

        let mut game = match self.entries.remove(&id) {
            Some(game) => game,
            None => {
                assert(self@.sessions =~= old(self)@.sessions);
                return None;
            },
        };
        game.set_player(kind, player);
        let copy = game.clone();
        self.entries.insert(id, game);
        assert(self@.sessions =~= old(self)@.register(id, kind, player@).sessions);
        Some(copy)
    }

    /// Makes a move to `(x, y)` in the game `id` for `player`, if it is that
    /// player's turn. Returns a copy of the game as it is after the call, or
    /// `None` if there is no such game.
    pub fn game_turn(&mut self, id: u64, x: usize, y: usize, player: String) -> (entry: Option<
        HubEntry,
    >)
        requires
            old(self).wf(),
        ensures
            final(self).wf(),
            final(self)@ == old(self)@.turn(id, x as int, y as int, player@),
            session_of(entry) == final(self)@.get(id),
            entry is Some <==> old(self)@.sessions.contains_key(id),
    {
        broadcast use vstd::std_specs::hash::group_hash_axioms;

        let mut game = match self.entries.remove(&id) {
            Some(game) => game,
            None => {
                assert(self@.sessions =~= old(self)@.sessions);
                return None;
            },
        };
        assert(old(self)@.sessions.contains_key(id) && old(self)@.sessions[id] == game@);
        game.turn(x, y, player);
        let copy = game.clone();
        self.entries.insert(id, game);
        assert(self@.sessions =~= old(self)@.turn(id, x as int, y as int, player@).sessions);
        Some(copy)
    }

    /// Replaces the board of the game `id` by a fresh one for `player`, if
    /// that is a player of the game and the new configuration is valid; the
    /// players stay. Returns a copy of the game as it is after the call, or
    /// `None` if there is no such game.
    pub fn game_reset(&mut self, id: u64, size: usize, criteria: usize, player: String) -> (entry:
        Option<HubEntry>)
        requires
            old(self).wf(),
        ensures
            final(self).wf(),
            final(self)@ == old(self)@.reset(id, size as int, criteria as int, player@),
            session_of(entry) == final(self)@.get(id),
            entry is Some <==> old(self)@.sessions.contains_key(id),
    {
        broadcast use vstd::std_specs::hash::group_hash_axioms;

        let mut game = match self.entries.remove(&id) {
            Some(game) => game,
            None => {
                assert(self@.sessions =~= old(self)@.sessions);
                return None;
            },
        };
        game.reset(size, criteria, player);
        let copy = game.clone();
        self.entries.insert(id, game);
        assert(self@.sessions =~= old(self)@.reset(
            id,
            size as int,
            criteria as int,
            player@,
        ).sessions);
        Some(copy)
    }

    /// Deletes the game `id` for `player`, if that is a player of the game
    /// and the game has ended in a draw. Returns whether the game was deleted.
    pub fn game_delete(&mut self, id: u64, player: String) -> (deleted: bool)
        requires
            old(self).wf(),
        ensures
            final(self).wf(),
            final(self)@ == old(self)@.delete(id, player@),
            deleted == old(self)@.deletes(id, player@),
            !deleted ==> *final(self) == *old(self),
    {
        broadcast use vstd::std_specs::hash::group_hash_axioms;

        let allowed = match self.entries.get(&id) {
            Some(game) => game.may_delete(player),
            None => false,
        };
        if allowed {
            self.entries.remove(&id);
            assert(self@.sessions =~= old(self)@.delete(id, player@).sessions);
            true
        } else {
            false
        }
    }
}

} // verus!
