//! The board: a fixed 15 x 15 grid of cells, each empty or holding one
//! side's piece.  The board is the sole owner of the grid; `place` is its
//! only mutation path.

use vstd::pervasive::VecAdditionalExecFns;
use vstd::prelude::*;

verus! {

/// Side length of the square board.
pub const N: usize = 15;

/// Contents of one grid cell.
#[derive(Clone, Copy, PartialEq, Eq, Structural, Debug)]
pub enum Cell {
    Empty,
    Black,
    White,
}

/// One of the two players.  Black always moves first in a fresh game.
#[derive(Clone, Copy, PartialEq, Eq, Structural, Debug)]
pub enum Side {
    Black,
    White,
}

/// The ways an operation on the game can fail.  No failure is fatal: every
/// rejected operation leaves the state exactly as it was.
#[derive(Clone, Copy, PartialEq, Eq, Structural, Debug)]
pub enum GameError {
    /// A placement on an out-of-range coordinate or an occupied cell.
    Rejected,
    /// An operation that the current state of the session does not admit.
    InvalidTransition,
    /// A move was requested but the board holds no empty cell.
    NoMovesAvailable,
}

/// The piece a side plays.
pub open spec fn piece(s: Side) -> Cell {
    match s {
        Side::Black => Cell::Black,
        Side::White => Cell::White,
    }
}

/// The opponent of a side.
pub open spec fn other(s: Side) -> Side {
    match s {
        Side::Black => Side::White,
        Side::White => Side::Black,
    }
}

/// Executable counterpart of [`other`].
pub fn opposite(s: Side) -> (r: Side)
    ensures
        r == other(s),
{
    match s {
        Side::Black => Side::White,
        Side::White => Side::Black,
    }
}

/// Executable counterpart of [`piece`].
pub fn piece_of(s: Side) -> (r: Cell)
    ensures
        r == piece(s),
{
    match s {
        Side::Black => Cell::Black,
        Side::White => Cell::White,
    }
}

/// Whether (r, c) lies on the board.
pub open spec fn in_range(r: int, c: int) -> bool {
    0 <= r < N && 0 <= c < N
}

/// `after` is `before` with `v` put at (r, c) and nothing else changed.
pub open spec fn placed(before: Board, after: Board, r: int, c: int, v: Cell) -> bool {
    forall|r2: int, c2: int|
        in_range(r2, c2) ==> #[trigger] after.at(r2, c2) == (if r2 == r && c2 == c {
            v
        } else {
            before.at(r2, c2)
        })
}

/// The 15 x 15 grid, stored row-major.
pub struct Board {
    pub cells: Vec<Cell>,
}

impl Board {
    /// The grid holds exactly one cell value per coordinate.
    pub open spec fn wf(self) -> bool {
        self.cells@.len() == N * N
    }

    /// The cell at (r, c), for in-range coordinates.
    pub open spec fn at(self, r: int, c: int) -> Cell {
        self.cells@[r * (N as int) + c]
    }

    /// Every cell is empty.
    pub open spec fn all_empty(self) -> bool {
        forall|r: int, c: int| in_range(r, c) ==> self.at(r, c) == Cell::Empty
    }

    /// No cell is empty.
    pub open spec fn full(self) -> bool {
        forall|r: int, c: int| in_range(r, c) ==> self.at(r, c) != Cell::Empty
    }

    /// A fresh, entirely empty board.
    pub fn new() -> (b: Board)
        ensures
            b.wf(),
            b.all_empty(),
    {
        let mut cells: Vec<Cell> = Vec::new();
        let mut i: usize = 0;
        while i < N * N
            invariant
                i <= N * N,
                cells@.len() == i,
                forall|j: int| 0 <= j < i ==> cells@[j] == Cell::Empty,
            decreases N * N - i,
        {
            cells.push(Cell::Empty);
            i = i + 1;
        }
        let b = Board { cells };
        proof {
            assert forall|r: int, c: int| in_range(r, c) implies b.at(r, c) == Cell::Empty by {
                assert(0 <= r * (N as int) + c < N * N);
            }
        }
        b
    }

    /// Pure read of the cell at (row, col).
    pub fn get(&self, row: usize, col: usize) -> (r: Cell)
        requires
            self.wf(),
            in_range(row as int, col as int),
        ensures
            r == self.at(row as int, col as int),
    {
        self.cells[row * N + col]
    }

    /// Whether the cell at (row, col) is empty.
    pub fn is_empty(&self, row: usize, col: usize) -> (r: bool)
        requires
            self.wf(),
            in_range(row as int, col as int),
        ensures
            r == (self.at(row as int, col as int) == Cell::Empty),
    {
        matches!(self.get(row, col), Cell::Empty)
    }

    /// Whether no empty cell remains anywhere on the board.
    pub fn is_full(&self) -> (r: bool)
        requires
            self.wf(),
        ensures
            r == self.full(),
    {
        let mut row: usize = 0;
        while row < N
            invariant
                self.wf(),
                row <= N,
                forall|r2: int, c2: int|
                    0 <= r2 < row && 0 <= c2 < N ==> self.at(r2, c2) != Cell::Empty,
            decreases N - row,
        {
            let mut col: usize = 0;
            while col < N
                invariant
                    self.wf(),
                    row < N,
                    col <= N,
                    forall|r2: int, c2: int|
                        0 <= r2 < row && 0 <= c2 < N ==> self.at(r2, c2) != Cell::Empty,
                    forall|c2: int| 0 <= c2 < col ==> self.at(row as int, c2) != Cell::Empty,
                decreases N - col,
            {
                if self.is_empty(row, col) {
                    proof {
                        assert(in_range(row as int, col as int));
                        assert(self.at(row as int, col as int) == Cell::Empty);
                    }
                    return false;
                }
                col = col + 1;
            }
            row = row + 1;
        }
        true
    }

    /// Sets the cell at (row, col) to `side`'s piece.  Fails with
    /// `Rejected`, touching nothing, when the coordinate is out of range or
    /// the cell is already occupied; a cell therefore goes from empty to
    /// occupied at most once and is never overwritten.
    pub fn place(&mut self, row: usize, col: usize, side: Side) -> (r: Result<(), GameError>)
        requires
            old(self).wf(),
        ensures
            final(self).wf(),
            (r is Ok) <==> (in_range(row as int, col as int) && old(self).at(
                row as int,
                col as int,
            ) == Cell::Empty),
            r is Err ==> *final(self) == *old(self) && r == Err::<(), GameError>(
                GameError::Rejected,
            ),
            r is Ok ==> placed(*old(self), *final(self), row as int, col as int, piece(side)),
    {
        if row >= N || col >= N {
            return Err(GameError::Rejected);
        }
        if !self.is_empty(row, col) {
            return Err(GameError::Rejected);
        }
        let idx = row * N + col;
        self.cells.set(idx, piece_of(side));
        proof {
            assert forall|r2: int, c2: int| in_range(r2, c2) && !(r2 == row as int && c2
                == col as int) implies self.at(r2, c2) == old(self).at(r2, c2) by {
                assert(r2 * (N as int) + c2 != idx as int);
            }
        }
        Ok(())
    }
}

} // verus!
