//! What holds of every game and of every hub, proved from their models.

use crate::hub::{Session, Sessions};
use crate::tictac::{Board, Cell, Line};
use vstd::prelude::*;

verus! {

/// A fresh board is well formed and consistent: every cell is empty, `X`
/// moves first, nobody has won, and the game is no draw.
pub proof fn lemma_fresh_board(size: int, criteria: int)
    requires
        Board::valid_config(size, criteria),
    ensures
        Board::fresh(size, criteria).wf(),
        Board::fresh(size, criteria).consistent(),
        forall|r: int, c: int|
            Board::fresh(size, criteria).on_board(r, c) ==> (#[trigger] Board::fresh(
                size,
                criteria,
            ).at(r, c)) is None,
        Board::fresh(size, criteria).current_player == Some(Cell::X),
        Board::fresh(size, criteria).winner is None,
        !Board::fresh(size, criteria).draw,
{
    let b = Board::fresh(size, criteria);
    assert(b.on_board(0, 0) && b.at(0, 0) is None);
    assert forall|m: Cell| !b.has_run(m) by {
        if b.has_run(m) {
            let (line, r, c) = choose|line: Line, r: int, c: int| b.is_run(line, r, c, m);
            assert(b.holds(line, r, c, 0, m));
        }
    }
}

/// A move to a taken cell, to a cell off the board, or in a game that is
/// over changes nothing and reports nothing.
pub proof fn lemma_rejected_move(b: Board, x: int, y: int)
    requires
        b.is_over() || !b.on_board(x, y) || b.at(x, y) is Some,
    ensures
        b.play(x, y) == b,
        b.play_result(x, y) is None,
{
}

/// A move that is taken writes the mover's mark to its cell and leaves every
/// other cell as it was. No move changes a cell that holds a mark.
pub proof fn lemma_marks_stay(b: Board, x: int, y: int, r: int, c: int)
    requires
        b.wf(),
        b.on_board(r, c),
    ensures
        b.accepts(x, y) && r == x && c == y ==> b.play(x, y).at(r, c) == b.current_player,
        !(b.accepts(x, y) && r == x && c == y) ==> b.play(x, y).at(r, c) == b.at(r, c),
        b.at(r, c) is Some ==> b.play(x, y).at(r, c) == b.at(r, c),
{
}

/// A move that completes a run of the mover's mark, along a row, a column, a
/// diagonal or an anti-diagonal and wherever on the board, wins the game for
/// the mover: the move reports the mover, and nobody moves next.
pub proof fn lemma_run_wins(b: Board, x: int, y: int, line: Line, r: int, c: int)
    requires
        b.accepts(x, y),
        b.place(x, y, b.current_player->0).is_run(line, r, c, b.current_player->0),
    ensures
        b.play(x, y).winner == b.current_player,
        b.play_result(x, y) == b.current_player,
        b.play(x, y).current_player is None,
        !b.play(x, y).draw,
{
    let m = b.current_player->0;
    assert(b.place(x, y, m).has_run(m));
}

/// A move that fills the last cell without completing a run ends the game in
/// a draw, with no winner.
pub proof fn lemma_full_board_is_draw(b: Board, x: int, y: int)
    requires
        b.accepts(x, y),
        b.place(x, y, b.current_player->0).is_full(),
        !b.place(x, y, b.current_player->0).has_any_run(),
    ensures
        b.play(x, y).draw,
        b.play(x, y).winner is None,
        b.play_result(x, y) is None,
{
}

/// The players take turns: a move that is taken and does not win hands the
/// turn to the other mark, and a move that is not taken leaves the turn
/// where it was.
pub proof fn lemma_turns_alternate(b: Board, x: int, y: int)
    ensures
        b.accepts(x, y) && !b.place(x, y, b.current_player->0).has_any_run() ==> b.play(
            x,
            y,
        ).current_player == Some(b.current_player->0.flipped()),
        !b.accepts(x, y) ==> b.play(x, y).current_player == b.current_player,
{
}

/// Writing a mark to an empty cell gives the other mark no new run.
pub proof fn lemma_place_adds_no_run_of_other(b: Board, x: int, y: int, m: Cell)
    requires
        b.wf(),
        b.on_board(x, y),
        b.at(x, y) is None,
        b.place(x, y, m).has_run(m.flipped()),
    ensures
        b.has_run(m.flipped()),
{
    let p = b.place(x, y, m);
    let o = m.flipped();
    let (line, r, c) = choose|line: Line, r: int, c: int| p.is_run(line, r, c, o);
    assert forall|t: int| 0 <= t < b.criteria implies #[trigger] b.holds(line, r, c, t, o) by {
        assert(p.holds(line, r, c, t, o));
    }
    assert(b.is_run(line, r, c, o));
}

/// Moves keep a game consistent.
pub proof fn lemma_play_consistent(b: Board, x: int, y: int)
    requires
        b.consistent(),
    ensures
        b.play(x, y).consistent(),
{
    if b.accepts(x, y) {
        let m = b.current_player->0;
        let p = b.place(x, y, m);
        let n = b.play(x, y);
        assert(p.wf());
        assert forall|mark: Cell| n.has_run(mark) == p.has_run(mark) by {
            lemma_runs_of_cells(n, p, mark);
        }
        if p.has_run(m.flipped()) {
            lemma_place_adds_no_run_of_other(b, x, y, m);
        }
        lemma_full_of_cells(n, p);
    }
}

/// Whether a mark has a run depends on the matrix, its side and the length
/// of a run alone.
pub proof fn lemma_runs_of_cells(a: Board, b: Board, m: Cell)
    requires
        a.cells == b.cells,
        a.size == b.size,
        a.criteria == b.criteria,
    ensures
        a.has_run(m) == b.has_run(m),
{
    if a.has_run(m) {
        let (line, r, c) = choose|line: Line, r: int, c: int| a.is_run(line, r, c, m);
        assert forall|t: int| 0 <= t < b.criteria implies #[trigger] b.holds(line, r, c, t, m) by {
            assert(a.holds(line, r, c, t, m));
        }
        assert(b.is_run(line, r, c, m));
    }
    if b.has_run(m) {
        let (line, r, c) = choose|line: Line, r: int, c: int| b.is_run(line, r, c, m);
        assert forall|t: int| 0 <= t < a.criteria implies #[trigger] a.holds(line, r, c, t, m) by {
            assert(b.holds(line, r, c, t, m));
        }
        assert(a.is_run(line, r, c, m));
    }
}

/// Whether a board is full depends on the matrix and its side alone.
pub proof fn lemma_full_of_cells(a: Board, b: Board)
    requires
        a.cells == b.cells,
        a.size == b.size,
    ensures
        a.is_full() == b.is_full(),
{
    if a.is_full() {
        assert forall|r: int, c: int| b.on_board(r, c) implies (#[trigger] b.at(r, c)) is Some by {
            assert(a.on_board(r, c) && a.at(r, c) is Some);
        }
    }
    if b.is_full() {
        assert forall|r: int, c: int| a.on_board(r, c) implies (#[trigger] a.at(r, c)) is Some by {
            assert(b.on_board(r, c) && b.at(r, c) is Some);
        }
    }
}

/// A scan of a window finds one thing only.
pub proof fn lemma_window_winner_unique(b: Board, x: int, y: int, v: Option<Cell>, w: Option<Cell>)
    requires
        b.is_window_winner(x, y, v),
        b.is_window_winner(x, y, w),
    ensures
        v == w,
{
}

/// A scan of the board finds one thing only.
pub proof fn lemma_field_winner_unique(b: Board, v: Option<Cell>, w: Option<Cell>)
    requires
        b.is_field_winner(v),
        b.is_field_winner(w),
    ensures
        v == w,
{
    if v is Some && w is Some {
        let (i, j) = choose|i: int, j: int|
            0 <= i < b.windows() && 0 <= j < b.windows() && b.windows_clear_before(i, j)
                && #[trigger] b.is_window_winner(i, j, v);
        let (p, q) = choose|p: int, q: int|
            0 <= p < b.windows() && 0 <= q < b.windows() && b.windows_clear_before(p, q)
                && #[trigger] b.is_window_winner(p, q, w);
        if i == p && j == q {
            lemma_window_winner_unique(b, i, j, v, w);
        } else if i < p || (i == p && j < q) {
            assert(b.is_window_winner(i, j, None));
            lemma_window_winner_unique(b, i, j, v, None);
        } else {
            assert(b.is_window_winner(p, q, None));
            lemma_window_winner_unique(b, p, q, w, None);
        }
    } else if v is Some {
        let (i, j) = choose|i: int, j: int|
            0 <= i < b.windows() && 0 <= j < b.windows() && b.windows_clear_before(i, j)
                && #[trigger] b.is_window_winner(i, j, v);
        assert(b.is_window_winner(i, j, None));
        lemma_window_winner_unique(b, i, j, v, None);
    } else if w is Some {
        let (p, q) = choose|p: int, q: int|
            0 <= p < b.windows() && 0 <= q < b.windows() && b.windows_clear_before(p, q)
                && #[trigger] b.is_window_winner(p, q, w);
        assert(b.is_window_winner(p, q, None));
        lemma_window_winner_unique(b, p, q, w, None);
    }
}

/// A configuration with a side of zero, a side above one hundred, or runs
/// longer than the side is rejected: no id is handed out, and the hub stays
/// as it was.
pub proof fn lemma_invalid_config_is_rejected(h: Sessions, size: int, criteria: int)
    requires
        size == 0 || size > 100 || criteria > size,
    ensures
        h.new_game_id(size, criteria) is None,
        h.new_game(size, criteria) == h,
{
}

/// A new game gets an id that no game had before; it starts on a fresh
/// board with no player, every other game stays as it was, and the hub
/// stays well formed.
pub proof fn lemma_new_game_is_new(h: Sessions, size: int, criteria: int)
    requires
        h.wf(),
        h.next_id < u64::MAX,
        Board::valid_config(size, criteria),
    ensures
        h.new_game_id(size, criteria) == Some(h.next_id as u64),
        !h.sessions.contains_key(h.next_id as u64),
        h.new_game(size, criteria).get(h.next_id as u64) == Some(Session::fresh(size, criteria)),
        forall|id: u64| id != h.next_id ==> h.new_game(size, criteria).get(id) == h.get(id),
        h.new_game(size, criteria).next_id == h.next_id + 1,
        h.new_game(size, criteria).wf(),
{
    lemma_fresh_board(size, criteria);
}

/// Ids are not used twice: whatever is asked of a well-formed hub, the hub
/// stays well formed, so every id in use is below the next one, and the next
/// id never goes down.
pub proof fn lemma_requests_keep_hub_well_formed(
    h: Sessions,
    id: u64,
    kind: Cell,
    x: int,
    y: int,
    size: int,
    criteria: int,
    name: Seq<char>,
)
    requires
        h.wf(),
    ensures
        h.register(id, kind, name).wf(),
        h.turn(id, x, y, name).wf(),
        h.reset(id, size, criteria, name).wf(),
        h.delete(id, name).wf(),
        h.register(id, kind, name).next_id == h.next_id,
        h.turn(id, x, y, name).next_id == h.next_id,
        h.reset(id, size, criteria, name).next_id == h.next_id,
        h.delete(id, name).next_id == h.next_id,
{
    if h.sessions.contains_key(id) {
        let s = h.sessions[id];
        assert(s.game.wf());
        assert(s.turn(x, y, name).game.wf()) by {
            if s.may_move(name) {
                lemma_play_well_formed(s.game, x, y);
            }
        }
        assert(s.reset(size, criteria, name).game.wf()) by {
            if s.may_reset(size, criteria, name) {
                lemma_fresh_board(size, criteria);
            }
        }
    }
}

/// Moves keep a board well formed.
pub proof fn lemma_play_well_formed(b: Board, x: int, y: int)
    requires
        b.wf(),
    ensures
        b.play(x, y).wf(),
{
}

/// The first name registered for a mark stays: a second registration for
/// the same mark, under whatever name, changes nothing.
pub proof fn lemma_first_registration_stays(
    s: Session,
    kind: Cell,
    first: Seq<char>,
    second: Seq<char>,
)
    ensures
        s.set_player(kind, first).player(kind) is Some,
        s.player(kind) is None ==> s.set_player(kind, first).player(kind) == Some(first),
        s.set_player(kind, first).set_player(kind, second) == s.set_player(kind, first),
{
}

/// In the hub too the first name registered for a mark of a game stays.
pub proof fn lemma_first_registration_stays_in_hub(
    h: Sessions,
    id: u64,
    kind: Cell,
    first: Seq<char>,
    second: Seq<char>,
)
    ensures
        h.register(id, kind, first).register(id, kind, second) == h.register(id, kind, first),
{
    if h.sessions.contains_key(id) {
        let s = h.sessions[id];
        lemma_first_registration_stays(s, kind, first, second);
        assert(h.register(id, kind, first).register(id, kind, second).sessions
            =~= h.register(id, kind, first).sessions);
    }
}

/// Registration touches neither the game nor the other mark's name.
pub proof fn lemma_registration_keeps_the_rest(s: Session, kind: Cell, name: Seq<char>)
    ensures
        s.set_player(kind, name).game == s.game,
        s.set_player(kind, name).player(kind.flipped()) == s.player(kind.flipped()),
{
}

/// A move asked for by anybody but the player whose turn it is changes
/// nothing; a move asked for by that player is the game's move.
pub proof fn lemma_only_the_mover_moves(s: Session, x: int, y: int, name: Seq<char>)
    ensures
        !s.may_move(name) ==> s.turn(x, y, name) == s,
        s.may_move(name) ==> s.turn(x, y, name).game == s.game.play(x, y),
        s.turn(x, y, name).x_player == s.x_player,
        s.turn(x, y, name).o_player == s.o_player,
{
}

/// A fresh board keeps the players of the game, and only a player gets one.
pub proof fn lemma_reset_keeps_players(s: Session, size: int, criteria: int, name: Seq<char>)
    ensures
        s.reset(size, criteria, name).x_player == s.x_player,
        s.reset(size, criteria, name).o_player == s.o_player,
        s.is_a_player(name) && Board::valid_config(size, criteria) ==> s.reset(
            size,
            criteria,
            name,
        ).game == Board::fresh(size, criteria),
        !s.is_a_player(name) ==> s.reset(size, criteria, name) == s,
{
}

/// Deleting a game: while the game is no draw, even if it has a winner,
/// nothing is deleted and the game is still there; a drawn game is deleted
/// for one of its players and is gone; a drawn game is not deleted for
/// anybody else. No other game is touched.
pub proof fn lemma_delete_needs_draw_and_player(h: Sessions, id: u64, name: Seq<char>)
    requires
        h.sessions.contains_key(id),
    ensures
        !h.sessions[id].game.draw ==> !h.deletes(id, name) && h.delete(id, name) == h,
        h.sessions[id].game.draw && h.sessions[id].is_a_player(name) ==> h.deletes(id, name)
            && !h.delete(id, name).sessions.contains_key(id),
        h.sessions[id].game.draw && !h.sessions[id].is_a_player(name) ==> !h.deletes(id, name)
            && h.delete(id, name) == h,
        forall|other: u64| other != id ==> h.delete(id, name).get(other) == h.get(other),
{
}

/// A game that does not exist is not deleted, and asking changes nothing.
pub proof fn lemma_unknown_game(
    h: Sessions,
    id: u64,
    kind: Cell,
    x: int,
    y: int,
    size: int,
    criteria: int,
    name: Seq<char>,
)
    requires
        !h.sessions.contains_key(id),
    ensures
        h.get(id) is None,
        h.register(id, kind, name) == h,
        h.turn(id, x, y, name) == h,
        h.reset(id, size, criteria, name) == h,
        !h.deletes(id, name),
        h.delete(id, name) == h,
{
}

/// A request that names one game leaves every other game as it was.
pub proof fn lemma_other_games_untouched(
    h: Sessions,
    id: u64,
    other: u64,
    kind: Cell,
    x: int,
    y: int,
    size: int,
    criteria: int,
    name: Seq<char>,
)
    requires
        other != id,
    ensures
        h.register(id, kind, name).get(other) == h.get(other),
        h.turn(id, x, y, name).get(other) == h.get(other),
        h.reset(id, size, criteria, name).get(other) == h.get(other),
        h.delete(id, name).get(other) == h.get(other),
{
}

} // verus!
