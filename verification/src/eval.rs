//! The computer opponent: a greedy one-ply positional evaluator.  Every
//! empty cell is scored and the highest-scoring one is chosen, ties broken
//! by the row-major scan order (the first maximum encountered wins), which
//! makes the choice deterministic and reproducible.
//!
//! A candidate cell's score sums, over the four axes, a potential for the
//! computer's own side (weighted 10) and for the opponent (weighted 8), and
//! adds a centrality bonus.  The potential of an axis maps the number of
//! contiguous same-side pieces next to the candidate and the number of
//! blocked ends to a point value.  There is no look-ahead.

use crate::board::{in_range, piece, Board, Cell, GameError, Side, N};
use crate::win::{blocked, run_len};
use vstd::prelude::*;

verus! {

/// Points an axis is worth, from the count of contiguous same-side pieces
/// adjoining the candidate along it and the number of blocked ends (0, 1
/// or 2).  A count of four means the placement completes five in a row.
pub open spec fn dir_points(count: int, blk: int) -> int {
    if count == 4 {
        10000
    } else if count == 3 {
        if blk == 0 {
            1000
        } else {
            100
        }
    } else if count == 2 {
        if blk == 0 {
            100
        } else {
            10
        }
    } else if count == 1 {
        if blk == 0 {
            10
        } else {
            1
        }
    } else {
        0
    }
}

/// Contiguous pieces of `v` adjoining (r, c) along both directions of the
/// axis (dr, dc), the candidate cell itself not counted.
pub open spec fn axis_count(b: Board, r: int, c: int, dr: int, dc: int, v: Cell) -> int {
    run_len(b, r, c, dr, dc, v, 1) + run_len(b, r, c, -dr, -dc, v, 1)
}

/// Blocked ends of the stretch of `v` through (r, c) along (dr, dc).
pub open spec fn axis_blocked(b: Board, r: int, c: int, dr: int, dc: int, v: Cell) -> int {
    blocked(b, r, c, dr, dc, v, 1) + blocked(b, r, c, -dr, -dc, v, 1)
}

/// Points one axis contributes for side `v` at candidate (r, c).
pub open spec fn axis_points(b: Board, r: int, c: int, dr: int, dc: int, v: Cell) -> int {
    dir_points(axis_count(b, r, c, dr, dc, v), axis_blocked(b, r, c, dr, dc, v))
}

/// Manhattan distance of (r, c) from the board's center cell (7, 7).
pub open spec fn center_dist(r: int, c: int) -> int {
    (if r >= 7 {
        r - 7
    } else {
        7 - r
    }) + (if c >= 7 {
        c - 7
    } else {
        7 - c
    })
}

/// The full score of placing `mine` at the empty candidate (r, c):
/// offensive axis points weighted 10, defensive (opponent) axis points
/// weighted 8, plus a bonus rewarding cells nearer the center.
#[verifier::opaque]
pub open spec fn position_score(b: Board, r: int, c: int, mine: Cell, theirs: Cell) -> int {
    axis_points(b, r, c, 0, 1, mine) * 10 + axis_points(b, r, c, 0, 1, theirs) * 8 + axis_points(
        b,
        r,
        c,
        1,
        0,
        mine,
    ) * 10 + axis_points(b, r, c, 1, 0, theirs) * 8 + axis_points(b, r, c, 1, 1, mine) * 10
        + axis_points(b, r, c, 1, 1, theirs) * 8 + axis_points(b, r, c, 1, -1, mine) * 10
        + axis_points(b, r, c, 1, -1, theirs) * 8 + (2 * (N - 1) - center_dist(r, c)) * 2
}

/// (r1, c1) comes strictly before (r2, c2) in the row-major scan that
/// iterates rows, then columns, ascending.
pub open spec fn scan_before(r1: int, c1: int, r2: int, c2: int) -> bool {
    r1 < r2 || (r1 == r2 && c1 < c2)
}

/// (r, c) is the cell `select_move` must pick for `mine` against
/// `theirs`: an empty cell no other empty cell out-scores, and the first
/// of the top-scoring ones in scan order.
pub open spec fn is_best_move(b: Board, mine: Cell, theirs: Cell, r: int, c: int) -> bool {
    &&& in_range(r, c)
    &&& b.at(r, c) == Cell::Empty
    &&& forall|r2: int, c2: int|
        in_range(r2, c2) && #[trigger] b.at(r2, c2) == Cell::Empty ==> position_score(
            b,
            r2,
            c2,
            mine,
            theirs,
        ) <= position_score(b, r, c, mine, theirs)
    &&& forall|r2: int, c2: int|
        in_range(r2, c2) && #[trigger] b.at(r2, c2) == Cell::Empty && scan_before(r2, c2, r, c)
            ==> position_score(b, r2, c2, mine, theirs) < position_score(b, r, c, mine, theirs)
}

/// Executable counterpart of [`dir_points`].
fn dir_points_of(count: u8, blk: u8) -> (p: i64)
    ensures
        p as int == dir_points(count as int, blk as int),
        0 <= p <= 10000,
{
    if count == 4 {
        10000
    } else if count == 3 {
        if blk == 0 {
            1000
        } else {
            100
        }
    } else if count == 2 {
        if blk == 0 {
            100
        } else {
            10
        }
    } else if count == 1 {
        if blk == 0 {
            10
        } else {
            1
        }
    } else {
        0
    }
}

/// Points both directions of one axis contribute for piece `v`.
fn eval_axis(b: &Board, row: usize, col: usize, dr: i64, dc: i64, v: Cell) -> (p: i64)
    requires
        b.wf(),
        in_range(row as int, col as int),
        -1 <= dr <= 1,
        -1 <= dc <= 1,
    ensures
        p as int == axis_points(*b, row as int, col as int, dr as int, dc as int, v),
        0 <= p <= 10000,
{
    let (cf, bf) = crate::win::scan_dir(b, row, col, dr, dc, v);
    let (cb, bb) = crate::win::scan_dir(b, row, col, -dr, -dc, v);
    dir_points_of(cf + cb, bf + bb)
}

/// Scores the empty candidate cell (row, col) for the side playing
/// `mine`, exactly as [`position_score`] states.
#[verifier::rlimit(100)]
pub fn evaluate_position(b: &Board, row: usize, col: usize, mine: Side, theirs: Side) -> (s: i64)
    requires
        b.wf(),
        in_range(row as int, col as int),
    ensures
        s as int == position_score(*b, row as int, col as int, piece(mine), piece(theirs)),
        0 <= s <= 720056,
{
    proof {
        reveal(position_score);
    }
    let mp = crate::board::piece_of(mine);
    let tp = crate::board::piece_of(theirs);
    let mut s: i64 = 0;
    s = s + eval_axis(b, row, col, 0, 1, mp) * 10;
    s = s + eval_axis(b, row, col, 0, 1, tp) * 8;
    s = s + eval_axis(b, row, col, 1, 0, mp) * 10;
    s = s + eval_axis(b, row, col, 1, 0, tp) * 8;
    s = s + eval_axis(b, row, col, 1, 1, mp) * 10;
    s = s + eval_axis(b, row, col, 1, 1, tp) * 8;
    s = s + eval_axis(b, row, col, 1, -1, mp) * 10;
    s = s + eval_axis(b, row, col, 1, -1, tp) * 8;
    let dist = center_dist_of(row, col);
    s = s + (2 * (N as i64 - 1) - dist) * 2;
    s
}

/// Executable counterpart of [`center_dist`].
fn center_dist_of(row: usize, col: usize) -> (d: i64)
    requires
        in_range(row as int, col as int),
    ensures
        d as int == center_dist(row as int, col as int),
        0 <= d <= 28,
{
    let dr: i64 = if row >= 7 {
        row as i64 - 7
    } else {
        7 - row as i64
    };
    let dc: i64 = if col >= 7 {
        col as i64 - 7
    } else {
        7 - col as i64
    };
    dr + dc
}

/// Picks the computer's move: the highest-scoring empty cell, first in
/// row-major scan order among equals.  Fails with `NoMovesAvailable`
/// exactly when the board holds no empty cell.  On an entirely empty
/// board the choice is the center cell (7, 7): with no pieces present
/// every cell scores only its centrality bonus, which is greatest there.
#[verifier::rlimit(60)]
pub fn select_move(b: &Board, me: Side, opp: Side) -> (r: Result<(usize, usize), GameError>)
    requires
        b.wf(),
    ensures
        (r is Err) <==> b.full(),
        r is Err ==> r == Err::<(usize, usize), GameError>(GameError::NoMovesAvailable),
        r is Ok ==> is_best_move(
            *b,
            piece(me),
            piece(opp),
            r->Ok_0.0 as int,
            r->Ok_0.1 as int,
        ),
        b.all_empty() ==> r == Ok::<(usize, usize), GameError>((7, 7)),
{
    let mut best_row: usize = 0;
    let mut best_col: usize = 0;
    let mut best_score: i64 = 0;
    let mut found: bool = false;
    let mut row: usize = 0;
    while row < N
        invariant
            b.wf(),
            row <= N,
            !found ==> forall|r2: int, c2: int|
                0 <= r2 < row && 0 <= c2 < N ==> #[trigger] b.at(r2, c2) != Cell::Empty,
            found ==> {
                &&& in_range(best_row as int, best_col as int)
                &&& scan_before(best_row as int, best_col as int, row as int, 0)
                &&& b.at(best_row as int, best_col as int) == Cell::Empty
                &&& best_score as int == position_score(
                    *b,
                    best_row as int,
                    best_col as int,
                    piece(me),
                    piece(opp),
                )
                &&& forall|r2: int, c2: int|
                    0 <= r2 < row && 0 <= c2 < N && #[trigger] b.at(r2, c2) == Cell::Empty
                        ==> position_score(*b, r2, c2, piece(me), piece(opp)) <= best_score as int
                &&& forall|r2: int, c2: int|
                    0 <= r2 < row && 0 <= c2 < N && #[trigger] b.at(r2, c2) == Cell::Empty
                        && scan_before(r2, c2, best_row as int, best_col as int)
                        ==> position_score(*b, r2, c2, piece(me), piece(opp)) < best_score as int
            },
        decreases N - row,
    {
        let mut col: usize = 0;
        while col < N
            invariant
                b.wf(),
                row < N,
                col <= N,
                !found ==> forall|r2: int, c2: int|
                    (0 <= r2 < row && 0 <= c2 < N) || (r2 == row as int && 0 <= c2 < col)
                        ==> #[trigger] b.at(r2, c2) != Cell::Empty,
                found ==> {
                    &&& in_range(best_row as int, best_col as int)
                    &&& scan_before(best_row as int, best_col as int, row as int, col as int)
                    &&& b.at(best_row as int, best_col as int) == Cell::Empty
                    &&& best_score as int == position_score(
                        *b,
                        best_row as int,
                        best_col as int,
                        piece(me),
                        piece(opp),
                    )
                    &&& forall|r2: int, c2: int|
                        ((0 <= r2 < row && 0 <= c2 < N) || (r2 == row as int && 0 <= c2 < col))
                            && #[trigger] b.at(r2, c2) == Cell::Empty ==> position_score(
                            *b,
                            r2,
                            c2,
                            piece(me),
                            piece(opp),
                        ) <= best_score as int
                    &&& forall|r2: int, c2: int|
                        ((0 <= r2 < row && 0 <= c2 < N) || (r2 == row as int && 0 <= c2 < col))
                            && #[trigger] b.at(r2, c2) == Cell::Empty && scan_before(
                            r2,
                            c2,
                            best_row as int,
                            best_col as int,
                        ) ==> position_score(*b, r2, c2, piece(me), piece(opp)) < best_score as int
                },
            decreases N - col,
        {
            if b.is_empty(row, col) {
                let s = evaluate_position(b, row, col, me, opp);
                if !found || s > best_score {
                    best_row = row;
                    best_col = col;
                    best_score = s;
                    found = true;
                }
            }
            col = col + 1;
        }
        row = row + 1;
    }
    if !found {
        proof {
            if b.all_empty() {
                assert(in_range(0, 0));
                assert(b.at(0, 0) == Cell::Empty);
            }
        }
        return Err(GameError::NoMovesAvailable);
    }
    proof {
        if b.all_empty() {
            lemma_center_on_empty(*b, piece(me), piece(opp));
            if !(best_row as int == 7 && best_col as int == 7) {
                assert(position_score(*b, 7, 7, piece(me), piece(opp)) <= best_score as int);
                assert(false);
            }
        }
    }
    Ok((best_row, best_col))
}

/// The evaluator's choice is a deterministic contract, not a chance of
/// the implementation: at most one cell is the first maximum in scan
/// order, so any two cells satisfying [`is_best_move`] are the same cell.
pub proof fn lemma_best_move_unique(
    b: Board,
    mine: Cell,
    theirs: Cell,
    r1: int,
    c1: int,
    r2: int,
    c2: int,
)
    requires
        is_best_move(b, mine, theirs, r1, c1),
        is_best_move(b, mine, theirs, r2, c2),
    ensures
        r1 == r2 && c1 == c2,
{
    if !(r1 == r2 && c1 == c2) {
        if scan_before(r1, c1, r2, c2) {
            assert(position_score(b, r1, c1, mine, theirs) < position_score(b, r2, c2, mine, theirs));
            assert(position_score(b, r2, c2, mine, theirs) <= position_score(b, r1, c1, mine, theirs));
        } else {
            assert(scan_before(r2, c2, r1, c1));
            assert(position_score(b, r2, c2, mine, theirs) < position_score(b, r1, c1, mine, theirs));
            assert(position_score(b, r1, c1, mine, theirs) <= position_score(b, r2, c2, mine, theirs));
        }
    }
}

/// On an empty board every cell's score is exactly its centrality bonus,
/// so the center cell (7, 7) out-scores every other cell: the evaluator's
/// opening move is always the center.
pub proof fn lemma_center_on_empty(b: Board, mine: Cell, theirs: Cell)
    requires
        b.wf(),
        b.all_empty(),
        mine != Cell::Empty,
        theirs != Cell::Empty,
    ensures
        forall|r: int, c: int|
            in_range(r, c) ==> #[trigger] position_score(b, r, c, mine, theirs) == (2 * (N - 1)
                - center_dist(r, c)) * 2,
        forall|r: int, c: int|
            in_range(r, c) && !(r == 7 && c == 7) ==> #[trigger] position_score(b, r, c, mine, theirs)
                < position_score(b, 7, 7, mine, theirs),
        is_best_move(b, mine, theirs, 7, 7),
{
    assert forall|r: int, c: int| in_range(r, c) implies #[trigger] position_score(
        b,
        r,
        c,
        mine,
        theirs,
    ) == (2 * (N - 1) - center_dist(r, c)) * 2 by {
        reveal(position_score);
        lemma_empty_axis(b, r, c, 0, 1, mine);
        lemma_empty_axis(b, r, c, 0, 1, theirs);
        lemma_empty_axis(b, r, c, 1, 0, mine);
        lemma_empty_axis(b, r, c, 1, 0, theirs);
        lemma_empty_axis(b, r, c, 1, 1, mine);
        lemma_empty_axis(b, r, c, 1, 1, theirs);
        lemma_empty_axis(b, r, c, 1, -1, mine);
        lemma_empty_axis(b, r, c, 1, -1, theirs);
    }
    assert(in_range(7, 7));
    assert(b.at(7, 7) == Cell::Empty);
    assert(center_dist(7, 7) == 0);
    assert(position_score(b, 7, 7, mine, theirs) == 2 * (N - 1) * 2);
    assert forall|r: int, c: int| in_range(r, c) && !(r == 7 && c == 7) implies #[trigger] position_score(
        b,
        r,
        c,
        mine,
        theirs,
    ) < position_score(b, 7, 7, mine, theirs) by {
        assert(position_score(b, r, c, mine, theirs) == (2 * (N - 1) - center_dist(r, c)) * 2);
        assert(center_dist(r, c) >= 1);
    }
    assert forall|r2: int, c2: int|
        in_range(r2, c2) && #[trigger] b.at(r2, c2) == Cell::Empty implies position_score(
        b,
        r2,
        c2,
        mine,
        theirs,
    ) <= position_score(b, 7, 7, mine, theirs) by {
        if !(r2 == 7 && c2 == 7) {
            assert(position_score(b, r2, c2, mine, theirs) < position_score(b, 7, 7, mine, theirs));
        }
    }
}

/// With no piece on the board an axis contributes nothing: the very first
/// scanned cell is empty or off the board, so the count is zero.
proof fn lemma_empty_axis(b: Board, r: int, c: int, dr: int, dc: int, v: Cell)
    requires
        b.wf(),
        b.all_empty(),
        in_range(r, c),
        v != Cell::Empty,
    ensures
        axis_points(b, r, c, dr, dc, v) == 0,
{
    lemma_empty_run(b, r, c, dr, dc, v);
    lemma_empty_run(b, r, c, -dr, -dc, v);
}

/// One direction of a scan over an empty board counts nothing.
proof fn lemma_empty_run(b: Board, r: int, c: int, dr: int, dc: int, v: Cell)
    requires
        b.wf(),
        b.all_empty(),
        v != Cell::Empty,
    ensures
        run_len(b, r, c, dr, dc, v, 1) == 0,
{
    if in_range(r + 1 * dr, c + 1 * dc) {
        assert(b.at(r + 1 * dr, c + 1 * dc) == Cell::Empty);
    }
    assert(!crate::win::hit(b, r, c, dr, dc, 1, v));
}

} // verus!
