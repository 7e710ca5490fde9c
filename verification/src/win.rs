//! Win detection: whether the piece just placed at a cell completes a run
//! of five or more identical, consecutive pieces along one of the four
//! axes (horizontal, vertical, diagonal, anti-diagonal).
//!
//! The scan walks at most four steps outward from the placed cell in each
//! direction, so a check is bounded work, never a full-board scan: a
//! winning run must pass through the last-placed cell.

use crate::board::{in_range, Board, Cell, N};
use vstd::prelude::*;

verus! {

/// The cell `j` steps from (r, c) along direction (dr, dc) is on the board
/// and holds `v`.
pub open spec fn hit(b: Board, r: int, c: int, dr: int, dc: int, j: int, v: Cell) -> bool {
    in_range(r + j * dr, c + j * dc) && b.at(r + j * dr, c + j * dc) == v
}

/// Offsets `lo..=hi` from (r, c) along (dr, dc) all hold `v`.
pub open spec fn run_at(
    b: Board,
    r: int,
    c: int,
    dr: int,
    dc: int,
    v: Cell,
    lo: int,
    hi: int,
) -> bool {
    forall|j: int| lo <= j <= hi ==> hit(b, r, c, dr, dc, j, v)
}

/// The five offsets `k..=k + 4` from (r, c) along (dr, dc) all hold `v`.
pub open spec fn win_window(b: Board, r: int, c: int, dr: int, dc: int, v: Cell, k: int) -> bool {
    run_at(b, r, c, dr, dc, v, k, k + 4)
}

/// Five consecutive cells holding `v` lie along (dr, dc) through (r, c):
/// some window of five offsets containing offset 0 is all `v`.
pub open spec fn line_win(b: Board, r: int, c: int, dr: int, dc: int, v: Cell) -> bool {
    exists|k: int| -4 <= k <= 0 && #[trigger] win_window(b, r, c, dr, dc, v, k)
}

/// The placement at (r, c) completes five or more in a row on some axis.
/// The four axes count independently: a run cannot borrow length across
/// axes.
pub open spec fn wins_at(b: Board, r: int, c: int) -> bool {
    let v = b.at(r, c);
    v != Cell::Empty && (line_win(b, r, c, 0, 1, v) || line_win(b, r, c, 1, 0, v) || line_win(
        b,
        r,
        c,
        1,
        1,
        v,
    ) || line_win(b, r, c, 1, -1, v))
}

/// Number of consecutive cells holding `v` at offsets `i`, `i + 1`, ...
/// along (dr, dc), scanning no further than offset 4.
pub open spec fn run_len(b: Board, r: int, c: int, dr: int, dc: int, v: Cell, i: int) -> int
    decreases 5 - i,
{
    if i >= 5 {
        0
    } else if hit(b, r, c, dr, dc, i, v) {
        1 + run_len(b, r, c, dr, dc, v, i + 1)
    } else {
        0
    }
}

/// Whether the scan along (dr, dc) starting at offset `i` ends blocked:
/// it runs over cells holding `v` and stops at the board edge or at a cell
/// of another piece (1), or stops at an empty cell or after four steps
/// (0).
pub open spec fn blocked(b: Board, r: int, c: int, dr: int, dc: int, v: Cell, i: int) -> int
    decreases 5 - i,
{
    if i >= 5 {
        0
    } else if !in_range(r + i * dr, c + i * dc) {
        1
    } else if b.at(r + i * dr, c + i * dc) == v {
        blocked(b, r, c, dr, dc, v, i + 1)
    } else if b.at(r + i * dr, c + i * dc) == Cell::Empty {
        0
    } else {
        1
    }
}

/// A scan never counts more than the steps left before offset 5.
proof fn lemma_run_len_bounds(b: Board, r: int, c: int, dr: int, dc: int, v: Cell, i: int)
    requires
        i <= 5,
    ensures
        0 <= run_len(b, r, c, dr, dc, v, i) <= 5 - i,
    decreases 5 - i,
{
    if i < 5 && hit(b, r, c, dr, dc, i, v) {
        lemma_run_len_bounds(b, r, c, dr, dc, v, i + 1);
    }
}

/// Shifting the start of a scan past already-matched offsets only drops
/// their count and keeps the blocked end.
proof fn lemma_scan_shift(b: Board, r: int, c: int, dr: int, dc: int, v: Cell, i: int)
    requires
        1 <= i <= 5,
        forall|j: int| 1 <= j < i ==> hit(b, r, c, dr, dc, j, v),
    ensures
        run_len(b, r, c, dr, dc, v, 1) == i - 1 + run_len(b, r, c, dr, dc, v, i),
        blocked(b, r, c, dr, dc, v, 1) == blocked(b, r, c, dr, dc, v, i),
    decreases i,
{
    if i > 1 {
        lemma_scan_shift(b, r, c, dr, dc, v, i - 1);
        assert(hit(b, r, c, dr, dc, i - 1, v));
        assert(run_len(b, r, c, dr, dc, v, i - 1) == 1 + run_len(b, r, c, dr, dc, v, i));
        assert(blocked(b, r, c, dr, dc, v, i - 1) == blocked(b, r, c, dr, dc, v, i));
    }
}

/// Every offset a scan counted does hold `v`.
proof fn lemma_run_hits(b: Board, r: int, c: int, dr: int, dc: int, v: Cell, i: int)
    requires
        i <= 5,
    ensures
        forall|j: int|
            i <= j < i + run_len(b, r, c, dr, dc, v, i) ==> hit(b, r, c, dr, dc, j, v),
    decreases 5 - i,
{
    if i < 5 && hit(b, r, c, dr, dc, i, v) {
        lemma_run_hits(b, r, c, dr, dc, v, i + 1);
        assert forall|j: int|
            i <= j < i + run_len(b, r, c, dr, dc, v, i) implies hit(b, r, c, dr, dc, j, v) by {
            if j > i {
                assert(i + 1 <= j < i + 1 + run_len(b, r, c, dr, dc, v, i + 1));
            }
        }
    }
}

/// A scan counts at least every unbroken stretch of `v` ahead of it.
proof fn lemma_hits_run(b: Board, r: int, c: int, dr: int, dc: int, v: Cell, i: int, m: int)
    requires
        1 <= i <= 5,
        i - 1 <= m <= 4,
        forall|j: int| i <= j <= m ==> hit(b, r, c, dr, dc, j, v),
    ensures
        run_len(b, r, c, dr, dc, v, i) >= m - i + 1,
    decreases 5 - i,
{
    if i <= m {
        assert(hit(b, r, c, dr, dc, i, v));
        lemma_hits_run(b, r, c, dr, dc, v, i + 1, m);
        assert(run_len(b, r, c, dr, dc, v, i) == 1 + run_len(b, r, c, dr, dc, v, i + 1));
    } else {
        lemma_run_len_bounds(b, r, c, dr, dc, v, i);
    }
}

/// The outward two-direction scan finds five in a row exactly when a
/// five-cell window of `v` through (r, c) lies on the axis.
proof fn lemma_axis_iff(b: Board, r: int, c: int, dr: int, dc: int, v: Cell)
    requires
        in_range(r, c),
        b.at(r, c) == v,
    ensures
        (run_len(b, r, c, dr, dc, v, 1) + run_len(b, r, c, -dr, -dc, v, 1) + 1 >= 5) <==> line_win(
            b,
            r,
            c,
            dr,
            dc,
            v,
        ),
{
    let p = run_len(b, r, c, dr, dc, v, 1);
    let n = run_len(b, r, c, -dr, -dc, v, 1);
    lemma_run_len_bounds(b, r, c, dr, dc, v, 1);
    lemma_run_len_bounds(b, r, c, -dr, -dc, v, 1);
    if p + n + 1 >= 5 {
        lemma_run_hits(b, r, c, dr, dc, v, 1);
        lemma_run_hits(b, r, c, -dr, -dc, v, 1);
        assert forall|j: int| -n <= j <= -1 implies hit(b, r, c, dr, dc, j, v) by {
            assert(hit(b, r, c, -dr, -dc, -j, v));
            assert(r + (-j) * (-dr) == r + j * dr) by (nonlinear_arith);
            assert(c + (-j) * (-dc) == c + j * dc) by (nonlinear_arith);
        }
        assert(hit(b, r, c, dr, dc, 0, v));
        let k: int = if n >= 4 {
            -4
        } else {
            -n
        };
        assert forall|j: int| k <= j <= k + 4 implies hit(b, r, c, dr, dc, j, v) by {
            if j >= 1 {
                assert(1 <= j < 1 + p);
            }
        }
        assert(win_window(b, r, c, dr, dc, v, k));
        assert(line_win(b, r, c, dr, dc, v));
    }
    if line_win(b, r, c, dr, dc, v) {
        let k = choose|k: int| -4 <= k <= 0 && #[trigger] win_window(b, r, c, dr, dc, v, k);
        if k + 4 >= 1 {
            lemma_hits_run(b, r, c, dr, dc, v, 1, k + 4);
        }
        if k <= -1 {
            let ndr: int = -dr;
            let ndc: int = -dc;
            assert forall|j: int| 1 <= j <= -k implies hit(b, r, c, ndr, ndc, j, v) by {
                assert(hit(b, r, c, dr, dc, -j, v));
                assert(r + (-j) * dr == r + j * ndr) by (nonlinear_arith)
                    requires
                        ndr == -dr,
                ;
                assert(c + (-j) * dc == c + j * ndc) by (nonlinear_arith)
                    requires
                        ndc == -dc,
                ;
            }
            lemma_hits_run(b, r, c, -dr, -dc, v, 1, -k);
        }
        assert(p + n >= 4);
    }
}

/// Counts the consecutive cells holding `v` outward from (row, col) along
/// (dr, dc), up to four steps, and whether the scan ended blocked by the
/// board edge or an opposing piece.
pub(crate) fn scan_dir(b: &Board, row: usize, col: usize, dr: i64, dc: i64, v: Cell) -> (r: (u8, u8))
    requires
        b.wf(),
        in_range(row as int, col as int),
        -1 <= dr <= 1,
        -1 <= dc <= 1,
    ensures
        r.0 as int == run_len(*b, row as int, col as int, dr as int, dc as int, v, 1),
        r.1 as int == blocked(*b, row as int, col as int, dr as int, dc as int, v, 1),
        r.0 <= 4,
        r.1 <= 1,
{
    let ghost br: int = row as int;
    let ghost bc: int = col as int;
    let ghost gdr: int = dr as int;
    let ghost gdc: int = dc as int;
    let mut count: u8 = 0;
    let mut i: u8 = 1;
    loop
        invariant
            b.wf(),
            in_range(br, bc),
            br == row as int,
            bc == col as int,
            gdr == dr as int,
            gdc == dc as int,
            -1 <= dr <= 1,
            -1 <= dc <= 1,
            1 <= i <= 5,
            count == i - 1,
            forall|j: int| 1 <= j < i ==> hit(*b, br, bc, gdr, gdc, j, v),
        decreases 5 - i,
    {
        proof {
            lemma_scan_shift(*b, br, bc, gdr, gdc, v, i as int);
        }
        if i >= 5 {
            return (count, 0);
        }
        proof {
            assert(-5 <= (i as int) * (dr as int) <= 5) by (nonlinear_arith)
                requires
                    -1 <= dr as int <= 1,
                    0 <= i as int <= 5,
            ;
            assert(-5 <= (i as int) * (dc as int) <= 5) by (nonlinear_arith)
                requires
                    -1 <= dc as int <= 1,
                    0 <= i as int <= 5,
            ;
        }
        let nr: i64 = row as i64 + (i as i64) * dr;
        let nc: i64 = col as i64 + (i as i64) * dc;
        if nr < 0 || nr >= N as i64 || nc < 0 || nc >= N as i64 {
            proof {
                assert(!in_range(br + (i as int) * gdr, bc + (i as int) * gdc));
            }
            return (count, 1);
        }
        let cur = b.get(nr as usize, nc as usize);
        if cur == v {
            proof {
                assert(nr as int == row as int + (i as int) * (dr as int));
                assert(nc as int == col as int + (i as int) * (dc as int));
                assert(hit(*b, br, bc, gdr, gdc, i as int, v));
            }
            count = count + 1;
            i = i + 1;
        } else if matches!(cur, Cell::Empty) {
            proof {
                assert(!hit(*b, br, bc, gdr, gdc, i as int, v));
            }
            return (count, 0);
        } else {
            proof {
                assert(!hit(*b, br, bc, gdr, gdc, i as int, v));
            }
            return (count, 1);
        }
    }
}

/// Given the cell that was just occupied, returns whether that placement
/// creates a run of five or more identical consecutive pieces through
/// (row, col) along at least one of the four axes.  Pure: the board is
/// only read.
pub fn check(b: &Board, row: usize, col: usize) -> (r: bool)
    requires
        b.wf(),
        in_range(row as int, col as int),
        b.at(row as int, col as int) != Cell::Empty,
    ensures
        r == wins_at(*b, row as int, col as int),
{
    let v = b.get(row, col);
    let (p0, _b0) = scan_dir(b, row, col, 0, 1, v);
    let (n0, _b1) = scan_dir(b, row, col, 0, -1, v);
    proof {
        lemma_axis_iff(*b, row as int, col as int, 0, 1, v);
    }
    if p0 + n0 + 1 >= 5 {
        return true;
    }
    let (p1, _b2) = scan_dir(b, row, col, 1, 0, v);
    let (n1, _b3) = scan_dir(b, row, col, -1, 0, v);
    proof {
        lemma_axis_iff(*b, row as int, col as int, 1, 0, v);
    }
    if p1 + n1 + 1 >= 5 {
        return true;
    }
    let (p2, _b4) = scan_dir(b, row, col, 1, 1, v);
    let (n2, _b5) = scan_dir(b, row, col, -1, -1, v);
    proof {
        lemma_axis_iff(*b, row as int, col as int, 1, 1, v);
    }
    if p2 + n2 + 1 >= 5 {
        return true;
    }
    let (p3, _b6) = scan_dir(b, row, col, 1, -1, v);
    let (n3, _b7) = scan_dir(b, row, col, -1, 1, v);
    proof {
        lemma_axis_iff(*b, row as int, col as int, 1, -1, v);
    }
    if p3 + n3 + 1 >= 5 {
        return true;
    }
    false
}

} // verus!
