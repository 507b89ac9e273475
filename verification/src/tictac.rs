//! The game board: a square matrix of marks, the player to move, and the outcome.

use vstd::prelude::*;

verus! {

/// A player's mark.
#[derive(Copy, Clone, PartialEq, Eq, Structural, Debug)]
pub enum Cell {
    X,
    O,
}

impl Cell {
    /// The other mark.
    pub open spec fn flipped(self) -> Cell {
        match self {
            Cell::X => Cell::O,
            Cell::O => Cell::X,
        }
    }

    /// Returns the other mark.
    pub fn flip(self) -> (r: Self)
        ensures
            r == self.flipped(),
    {
        match self {
            Self::X => Self::O,
            Self::O => Self::X,
        }
    }
}

/// The direction in which the cells of a line follow each other.
///
/// From a starting cell `(r, c)` a row runs to the right, a column and both
/// diagonals run downwards; the anti-diagonal moves one column to the left
/// with every row.
#[derive(Copy, Clone, PartialEq, Eq, Structural, Debug)]
pub enum Line {
    Row,
    Column,
    Diagonal,
    AntiDiagonal,
}

impl Line {
    /// The row of the `t`-th cell of a line that starts in row `r`.
    pub open spec fn row(self, r: int, t: int) -> int {
        match self {
            Line::Row => r,
            _ => r + t,
        }
    }

    /// The column of the `t`-th cell of a line that starts in column `c`.
    pub open spec fn col(self, c: int, t: int) -> int {
        match self {
            Line::Column => c,
            Line::AntiDiagonal => c - t,
            _ => c + t,
        }
    }
}

/// The largest side a board may have.
pub const MAX_SIZE: usize = 100;

/// The mathematical model of a game: what a [`TicTacToeGame`] stands for.
pub struct Board {
    /// The matrix, row by row.
    pub cells: Seq<Seq<Option<Cell>>>,
    /// The mark that moves next; `None` once a winner is known.
    pub current_player: Option<Cell>,
    /// The mark that completed a run.
    pub winner: Option<Cell>,
    /// The side of the matrix.
    pub size: int,
    /// The number of equal marks in a line that wins the game.
    pub criteria: int,
    /// Whether the matrix filled up without a winner.
    pub draw: bool,
}

impl Board {
    /// Whether `size` and `criteria` describe a board that can be built.
    pub open spec fn valid_config(size: int, criteria: int) -> bool {
        1 <= size <= MAX_SIZE && 0 <= criteria <= size
    }

    /// The matrix is a square of side `size`, and the configuration is valid.
    pub open spec fn wf(self) -> bool {
        &&& Self::valid_config(self.size, self.criteria)
        &&& self.cells.len() == self.size
        &&& forall|r: int| 0 <= r < self.size ==> (#[trigger] self.cells[r]).len() == self.size
    }

    /// The board before the first move: every cell empty, `X` to move.
    pub open spec fn fresh(size: int, criteria: int) -> Board {
        Board {
            cells: Seq::new(size as nat, |r: int| Seq::new(size as nat, |c: int| None)),
            current_player: Some(Cell::X),
            winner: None,
            size,
            criteria,
            draw: false,
        }
    }

    /// Whether `(r, c)` is a cell of the matrix.
    pub open spec fn on_board(self, r: int, c: int) -> bool {
        0 <= r < self.size && 0 <= c < self.size
    }

    /// What the cell `(r, c)` holds.
    pub open spec fn at(self, r: int, c: int) -> Option<Cell> {
        self.cells[r][c]
    }

    /// Whether the `t`-th cell of the line that starts at `(r, c)` lies on the board.
    pub open spec fn covers(self, line: Line, r: int, c: int, t: int) -> bool {
        self.on_board(line.row(r, t), line.col(c, t))
    }

    /// What the `t`-th cell of the line that starts at `(r, c)` holds.
    pub open spec fn mark_at(self, line: Line, r: int, c: int, t: int) -> Option<Cell> {
        self.at(line.row(r, t), line.col(c, t))
    }

    /// The `t`-th cell of the line that starts at `(r, c)` lies on the board and holds `m`.
    pub open spec fn holds(self, line: Line, r: int, c: int, t: int, m: Cell) -> bool {
        self.covers(line, r, c, t) && self.mark_at(line, r, c, t) == Some(m)
    }

    /// The first `criteria` cells of the line that starts at `(r, c)` lie on the board.
    pub open spec fn line_fits(self, line: Line, r: int, c: int) -> bool {
        forall|t: int| 0 <= t < self.criteria ==> #[trigger] self.covers(line, r, c, t)
    }

    /// A run: `criteria` cells that follow each other along `line` from `(r, c)`,
    /// all of them on the board and all of them holding `m`. There is no run of
    /// length zero.
    pub open spec fn is_run(self, line: Line, r: int, c: int, m: Cell) -> bool {
        &&& self.criteria >= 1
        &&& forall|t: int| 0 <= t < self.criteria ==> #[trigger] self.holds(line, r, c, t, m)
    }

    /// Whether `m` has a run anywhere on the board, in any of the four directions.
    pub open spec fn has_run(self, m: Cell) -> bool {
        exists|line: Line, r: int, c: int| self.is_run(line, r, c, m)
    }

    /// Whether either mark has a run.
    pub open spec fn has_any_run(self) -> bool {
        self.has_run(Cell::X) || self.has_run(Cell::O)
    }

    /// The mark that has a run along `line` from `(r, c)`, if one has.
    pub open spec fn line_mark(self, line: Line, r: int, c: int) -> Option<Cell> {
        if self.is_run(line, r, c, Cell::X) {
            Some(Cell::X)
        } else if self.is_run(line, r, c, Cell::O) {
            Some(Cell::O)
        } else {
            None
        }
    }

    /// The number of positions along one axis at which a window of side
    /// `criteria` fits on the board.
    pub open spec fn windows(self) -> int {
        self.size - self.criteria + 1
    }

    /// The number of lines that are tried in one window.
    pub open spec fn window_lines(self) -> int {
        2 * self.criteria + 2
    }

    /// Line number `l` of the window whose top-left corner is `(x, y)`, as its
    /// direction and starting cell. The rows of the window come first, from
    /// the top; then its columns, from the left; then the diagonal from the
    /// corner; last the anti-diagonal from the window's top-right cell.
    pub open spec fn window_line(self, x: int, y: int, l: int) -> (Line, int, int) {
        if l < self.criteria {
            (Line::Row, x + l, y)
        } else if l < 2 * self.criteria {
            (Line::Column, x, y + (l - self.criteria))
        } else if l == 2 * self.criteria {
            (Line::Diagonal, x, y)
        } else {
            (Line::AntiDiagonal, x, y + self.criteria - 1)
        }
    }

    /// The mark that has a run along line number `l` of the window at `(x, y)`.
    pub open spec fn window_mark(self, x: int, y: int, l: int) -> Option<Cell> {
        let (line, r, c) = self.window_line(x, y, l);
        self.line_mark(line, r, c)
    }

    /// No line of the window at `(x, y)` with a number below `l` holds a run.
    pub open spec fn lines_clear_before(self, x: int, y: int, l: int) -> bool {
        forall|p: int| 0 <= p < l ==> (#[trigger] self.window_mark(x, y, p)) is None
    }

    /// `w` is what a scan of the window at `(x, y)` finds: the mark of the
    /// first of its lines that holds a run, or nothing where none does.
    pub open spec fn is_window_winner(self, x: int, y: int, w: Option<Cell>) -> bool {
        match w {
            Some(m) => exists|l: int|
                0 <= l < self.window_lines() && self.lines_clear_before(x, y, l)
                    && #[trigger] self.window_mark(x, y, l) == Some(m),
            None => self.lines_clear_before(x, y, self.window_lines()),
        }
    }

    /// Every window that comes before `(i, j)` in reading order holds no run.
    pub open spec fn windows_clear_before(self, i: int, j: int) -> bool {
        forall|p: int, q: int|
            0 <= p < self.windows() && 0 <= q < self.windows() && (p < i || (p == i && q < j))
                ==> #[trigger] self.is_window_winner(p, q, None)
    }

    /// `w` is what a scan of the whole board finds: the windows are tried in
    /// reading order, and the first that holds a run gives the mark.
    pub open spec fn is_field_winner(self, w: Option<Cell>) -> bool {
        match w {
            Some(m) => exists|i: int, j: int|
                0 <= i < self.windows() && 0 <= j < self.windows() && self.windows_clear_before(
                    i,
                    j,
                ) && #[trigger] self.is_window_winner(i, j, Some(m)),
            None => self.windows_clear_before(self.windows(), 0),
        }
    }

    /// Whether every cell holds a mark.
    pub open spec fn is_full(self) -> bool {
        forall|r: int, c: int| self.on_board(r, c) ==> (#[trigger] self.at(r, c)) is Some
    }

    /// Whether the game has ended, with a winner or in a draw.
    pub open spec fn is_over(self) -> bool {
        self.winner is Some || self.draw
    }

    /// Whether a move to `(x, y)` is taken: the game is going on, the cell is
    /// on the board, and it is empty.
    pub open spec fn accepts(self, x: int, y: int) -> bool {
        &&& !self.is_over()
        &&& self.current_player is Some
        &&& self.on_board(x, y)
        &&& self.at(x, y) is None
    }

    /// The board with `m` written to the cell `(x, y)`.
    pub open spec fn place(self, x: int, y: int, m: Cell) -> Board {
        Board { cells: self.cells.update(x, self.cells[x].update(y, Some(m))), ..self }
    }

    /// The game after a move to `(x, y)` was asked for.
    ///
    /// A move that is not taken changes nothing. A move that is taken writes
    /// the mover's mark. If the board then holds a run, the mover has won and
    /// nobody moves next; otherwise the other mark moves next, and the game is
    /// a draw if the board is full.
    pub open spec fn play(self, x: int, y: int) -> Board {
        if !self.accepts(x, y) {
            self
        } else {
            let m = self.current_player->0;
            let placed = self.place(x, y, m);
            if placed.has_any_run() {
                Board { winner: Some(m), current_player: None, ..placed }
            } else {
                Board { current_player: Some(m.flipped()), draw: placed.is_full(), ..placed }
            }
        }
    }

    /// What a move to `(x, y)` reports: the winner, if the move was taken and
    /// won the game.
    pub open spec fn play_result(self, x: int, y: int) -> Option<Cell> {
        if self.accepts(x, y) {
            self.play(x, y).winner
        } else {
            None
        }
    }

    /// What holds of every game that began fresh and went on by moves alone:
    /// nobody moves next exactly when there is a winner; the winner's mark,
    /// and no other, has a run; and the game is a draw exactly when the board
    /// filled up without a winner.
    pub open spec fn consistent(self) -> bool {
        &&& self.wf()
        &&& self.winner is Some <==> self.current_player is None
        &&& self.draw <==> self.winner is None && self.is_full()
        &&& match self.winner {
            Some(m) => self.has_run(m) && !self.has_run(m.flipped()),
            None => !self.has_any_run(),
        }
    }
}

/// A game of N-in-a-row on a square board.
#[derive(Debug, PartialEq, Eq)]
pub struct TicTacToeGame {
    pub field: Vec<Vec<Option<Cell>>>,
    pub current_player: Option<Cell>,
    pub winner: Option<Cell>,
    pub size: usize,
    pub criteria: usize,
    pub draw: bool,
}

impl View for TicTacToeGame {
    type V = Board;

    open spec fn view(&self) -> Board {
        Board {
            cells: Seq::new(self.field.len() as nat, |r: int| self.field[r]@),
            current_player: self.current_player,
            winner: self.winner,
            size: self.size as int,
            criteria: self.criteria as int,
            draw: self.draw,
        }
    }
}

impl Clone for TicTacToeGame {
    /// Copies the game, cell by cell.
    fn clone(&self) -> (copy: Self)
        ensures
            copy@ == self@,
    {
        let mut field: Vec<Vec<Option<Cell>>> = Vec::new();
        for r in 0..self.field.len()
            invariant
                field.len() == r,
                forall|i: int| 0 <= i < r ==> (#[trigger] field[i])@ == self.field[i]@,
        {
            let mut row: Vec<Option<Cell>> = Vec::new();
            let width = self.field[r].len();
            for c in 0..width
                invariant
                    r < self.field.len(),
                    width == self.field[r as int].len(),
                    row.len() == c,
                    forall|j: int| 0 <= j < c ==> #[trigger] row[j] == self.field[r as int][j],
            {
                row.push(self.field[r][c]);
            }
            assert(row@ =~= self.field[r as int]@);
            field.push(row);
        }
        let copy = Self {
            field,
            current_player: self.current_player,
            winner: self.winner,
            size: self.size,
            criteria: self.criteria,
            draw: self.draw,
        };
        assert(copy@.cells =~= self@.cells);
        copy
    }
}

impl TicTacToeGame {
    /// The stored matrix is a square of side `size`, and the configuration is valid.
    pub open spec fn wf(&self) -> bool {
        self@.wf()
    }

    /// Whether a board of side `size` with runs of `criteria` marks can be built.
    pub fn is_valid_config(size: usize, criteria: usize) -> (ok: bool)
        ensures
            ok == Board::valid_config(size as int, criteria as int),
    {
        size != 0 && size <= MAX_SIZE && criteria <= size
    }

    /// Builds the board before the first move.
    pub fn new(size: usize, criteria: usize) -> (game: Self)
        requires
            Board::valid_config(size as int, criteria as int),
        ensures
            game.wf(),
            game@ == Board::fresh(size as int, criteria as int),
    {
        let mut field: Vec<Vec<Option<Cell>>> = Vec::new();
        let mut r: usize = 0;
        while r < size
            invariant
                r <= size,
                field.len() == r,
                forall|i: int| 0 <= i < r ==> (#[trigger] field[i])@ == Seq::new(
                    size as nat,
                    |c: int| None::<Cell>,
                ),
            decreases size - r,
        {
            let mut row: Vec<Option<Cell>> = Vec::new();
            let mut c: usize = 0;
            while c < size
                invariant
                    c <= size,
                    row.len() == c,
                    forall|j: int| 0 <= j < c ==> (#[trigger] row[j]) is None,
                decreases size - c,
            {
                row.push(None);
                c += 1;
            }
            assert(row@ =~= Seq::new(size as nat, |c: int| None::<Cell>));
            field.push(row);
            r += 1;
        }
        let game = Self { field, current_player: Some(Cell::X), winner: None, size, criteria, draw: false };
        assert(game@.cells =~= Board::fresh(size as int, criteria as int).cells);
        game
    }

    /// Reads the `t`-th cell of the line that starts at `(r, c)`.
    fn cell_at(&self, line: Line, r: usize, c: usize, t: usize) -> (v: Option<Cell>)
        requires
            self.wf(),
            self@.covers(line, r as int, c as int, t as int),
        ensures
            v == self@.mark_at(line, r as int, c as int, t as int),
    {
        match line {
            Line::Row => self.field[r][c + t],
            Line::Column => self.field[r + t][c],
            Line::Diagonal => self.field[r + t][c + t],
            Line::AntiDiagonal => self.field[r + t][c - t],
        }
    }

    /// Walks `criteria` cells along `line` from `(r, c)` and returns the mark
    /// that fills all of them, if one does.
    fn line_winner(&self, line: Line, r: usize, c: usize) -> (q: Option<Cell>)
        requires
            self.wf(),
            self@.line_fits(line, r as int, c as int),
        ensures
            q == self@.line_mark(line, r as int, c as int),
    {
        if self.criteria == 0 {
            return None;
        }
        assert(self@.covers(line, r as int, c as int, 0));
        let m = match self.cell_at(line, r, c, 0) {
            Some(m) => m,
            None => {
                assert(!self@.holds(line, r as int, c as int, 0, Cell::X));
                assert(!self@.holds(line, r as int, c as int, 0, Cell::O));
                return None;
            },
        };
        assert(self@.holds(line, r as int, c as int, 0, m));
        let mut t: usize = 1;
        while t < self.criteria
            invariant
                self.wf(),
                self@.line_fits(line, r as int, c as int),
                1 <= t <= self.criteria,
                forall|u: int| 0 <= u < t ==> #[trigger] self@.holds(line, r as int, c as int, u, m),
            decreases self.criteria - t,
        {
            assert(self@.covers(line, r as int, c as int, t as int));
            let same = match self.cell_at(line, r, c, t) {
                Some(other) => other == m,
                None => false,
            };
            if !same {
                assert(!self@.holds(line, r as int, c as int, t as int, m));
                assert(self@.holds(line, r as int, c as int, 0, m));
                assert(!self@.holds(line, r as int, c as int, 0, m.flipped()));
                return None;
            }
            t += 1;
        }
        assert(!self@.holds(line, r as int, c as int, 0, m.flipped()));
        Some(m)
    }

    /// Scans the window of side `criteria` whose top-left corner is `(x, y)`:
    /// its rows, its columns, its diagonal and its anti-diagonal, in this
    /// order, and returns the mark of the first line that holds a run.
    pub fn check_span_for_winner(&self, x: usize, y: usize) -> (w: Option<Cell>)
        requires
            self.wf(),
            x + self.criteria <= self.size,
            y + self.criteria <= self.size,
        ensures
            self@.is_window_winner(x as int, y as int, w),
    {
        let k = self.criteria;
        if k == 0 {
            return None;
        }
        let mut i: usize = 0;
        while i < k
            invariant
                self.wf(),
                k == self.criteria,
                x + k <= self.size,
                y + k <= self.size,
                i <= k,
                self@.lines_clear_before(x as int, y as int, i as int),
            decreases k - i,
        {
            assert(self@.window_line(x as int, y as int, i as int) == (Line::Row, x + i, y as int));
            let q = self.line_winner(Line::Row, x + i, y);
            assert(self@.window_mark(x as int, y as int, i as int) == q);
            if q.is_some() {
                return q;
            }
            i += 1;
        }
        let mut i: usize = 0;
        while i < k
            invariant
                self.wf(),
                k == self.criteria,
                x + k <= self.size,
                y + k <= self.size,
                i <= k,
                self@.lines_clear_before(x as int, y as int, k + i),
            decreases k - i,
        {
            assert(self@.window_line(x as int, y as int, k + i) == (Line::Column, x as int, y + i));
            let q = self.line_winner(Line::Column, x, y + i);
            assert(self@.window_mark(x as int, y as int, k + i) == q);
            if q.is_some() {
                return q;
            }
            i += 1;
        }
        assert(self@.window_line(x as int, y as int, 2 * k) == (Line::Diagonal, x as int, y as int));
        let q = self.line_winner(Line::Diagonal, x, y);
        assert(self@.window_mark(x as int, y as int, 2 * k) == q);
        if q.is_some() {
            return q;
        }
        assert(self@.window_line(x as int, y as int, 2 * k + 1) == (
            Line::AntiDiagonal,
            x as int,
            y + k - 1,
        ));
        let q = self.line_winner(Line::AntiDiagonal, x, y + k - 1);
        assert(self@.window_mark(x as int, y as int, 2 * k + 1) == q);
        if q.is_some() {
            return q;
        }
        None
    }

    /// Scans the whole board for a run: every window of side `criteria`, in
    /// reading order. Returns the first mark found.
    pub fn check_field_for_winner(&self) -> (w: Option<Cell>)
        requires
            self.wf(),
        ensures
            self@.is_field_winner(w),
            w is Some <==> self@.has_any_run(),
            w matches Some(m) ==> self@.has_run(m),
    {
        let span = self.size - self.criteria + 1;
        for i in 0..span
            invariant
                self.wf(),
                span == self@.windows(),
                self@.windows_clear_before(i as int, 0),
        {
            for j in 0..span
                invariant
                    self.wf(),
                    span == self@.windows(),
                    i < span,
                    self@.windows_clear_before(i as int, j as int),
            {
                let x = self.check_span_for_winner(i, j);
                if x.is_some() {
                    proof {
                        lemma_field_winner_runs(self@, x);
                    }
                    return x;
                }
            }
        }
        proof {
            lemma_field_winner_runs(self@, None);
        }
        None
    }

    /// Whether every cell holds a mark.
    fn check_draw(&self) -> (full: bool)
        requires
            self.wf(),
        ensures
            full == self@.is_full(),
    {
        for r in 0..self.size
            invariant
                self.wf(),
                forall|i: int, j: int|
                    0 <= i < r && 0 <= j < self.size ==> (#[trigger] self@.at(i, j)) is Some,
        {
            for c in 0..self.size
                invariant
                    self.wf(),
                    r < self.size,
                    forall|i: int, j: int|
                        0 <= i < r && 0 <= j < self.size ==> (#[trigger] self@.at(i, j)) is Some,
                    forall|j: int| 0 <= j < c ==> (#[trigger] self@.at(r as int, j)) is Some,
            {
                if self.field[r][c].is_none() {
                    assert(self@.on_board(r as int, c as int) && self@.at(r as int, c as int) is None);
                    return false;
                }
            }
        }
        true
    }

    /// Makes the move of the player whose turn it is to the cell `(x, y)`.
    ///
    /// Nothing happens, and `None` is returned, if the game is over, if the
    /// cell is not on the board, or if it is taken. Otherwise the mark is
    /// written; if that completes a run the mover is the winner and is
    /// returned.
    pub fn turn(&mut self, x: usize, y: usize) -> (r: Option<Cell>)
        requires
            old(self).wf(),
        ensures
            final(self).wf(),
            final(self)@ == old(self)@.play(x as int, y as int),
            r == old(self)@.play_result(x as int, y as int),
            !old(self)@.accepts(x as int, y as int) ==> *final(self) == *old(self),
    {
        if self.winner.is_some() || self.draw {
            return None;
        }
        let mover = match self.current_player {
            Some(m) => m,
            None => {
                return None;
            },
        };
        if x >= self.size || y >= self.size {
            return None;
        }
        if self.field[x][y].is_some() {
            return None;
        }
        self.field[x][y] = Some(mover);
        assert(self@.cells =~= old(self)@.place(x as int, y as int, mover).cells);
        let winner = self.check_field_for_winner();
        if winner.is_some() {
            self.winner = Some(mover);
            self.current_player = None;
            return self.winner;
        }
        let full = self.check_draw();
        self.current_player = Some(mover.flip());
        self.draw = full;
        None
    }
}

/// A run fills a line of some window: the one returned, as the window's
/// corner and the line's number.
pub proof fn lemma_run_in_window(b: Board, line: Line, r: int, c: int, m: Cell) -> (w: (
    int,
    int,
    int,
))
    requires
        b.wf(),
        b.is_run(line, r, c, m),
    ensures
        0 <= w.0 < b.windows(),
        0 <= w.1 < b.windows(),
        0 <= w.2 < b.window_lines(),
        b.window_line(w.0, w.1, w.2) == (line, r, c),
        b.window_mark(w.0, w.1, w.2) == Some(m),
{
    let k = b.criteria;
    let n = b.size;
    assert(b.holds(line, r, c, 0, m));
    assert(b.holds(line, r, c, k - 1, m));
    assert(!b.holds(line, r, c, 0, m.flipped()));
    match line {
        Line::Row => {
            let i = if r <= n - k {
                r
            } else {
                n - k
            };
            (i, c, r - i)
        },
        Line::Column => {
            let j = if c <= n - k {
                c
            } else {
                n - k
            };
            (r, j, k + (c - j))
        },
        Line::Diagonal => (r, c, 2 * k),
        Line::AntiDiagonal => (r, c - k + 1, 2 * k + 1),
    }
}

/// The scan of the board finds a mark exactly when the board holds a run, and
/// the mark that it finds has one.
pub proof fn lemma_field_winner_runs(b: Board, w: Option<Cell>)
    requires
        b.wf(),
        b.is_field_winner(w),
    ensures
        w is Some <==> b.has_any_run(),
        w matches Some(m) ==> b.has_run(m),
{
    match w {
        Some(m) => {
            let (i, j) = choose|i: int, j: int|
                0 <= i < b.windows() && 0 <= j < b.windows() && b.windows_clear_before(i, j)
                    && #[trigger] b.is_window_winner(i, j, Some(m));
            let l = choose|l: int|
                0 <= l < b.window_lines() && b.lines_clear_before(i, j, l)
                    && #[trigger] b.window_mark(i, j, l) == Some(m);
            let (line, r, c) = b.window_line(i, j, l);
            assert(b.line_mark(line, r, c) == Some(m));
            assert(b.is_run(line, r, c, m));
        },
        None => {
            if b.has_any_run() {
                let m = if b.has_run(Cell::X) {
                    Cell::X
                } else {
                    Cell::O
                };
                let (line, r, c) = choose|line: Line, r: int, c: int| b.is_run(line, r, c, m);
                let at = lemma_run_in_window(b, line, r, c, m);
                assert(b.is_window_winner(at.0, at.1, None));
                assert(b.window_mark(at.0, at.1, at.2) is None);
            }
        },
    }
}

} // verus!
