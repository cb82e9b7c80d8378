//! The static star-shaped board: 21 rows of cells, each cell with a fixed
//! home color, and the complementary pairing of the six player colors.

use vstd::prelude::*;

verus! {

pub const NEUTRAL: usize = 0;

pub const PURPLE: usize = 1;

pub const GREEN: usize = 2;

pub const ORANGE: usize = 3;

pub const YELLOW: usize = 4;

pub const RED: usize = 5;

pub const BLUE: usize = 6;

/// How many cells row `row` holds. The five central rows (5..=10 going down,
/// widening again to row 15) form the hexagon; the triangular tips taper
/// from 5 cells down to 1.
pub open spec fn point_count(row: int) -> int {
    if 0 <= row <= 4 {
        row + 1
    } else if 5 <= row <= 10 {
        21 - row
    } else if 11 <= row <= 15 {
        row + 1
    } else if 16 <= row <= 20 {
        21 - row
    } else {
        0
    }
}

/// A coordinate pair addresses a cell of the board.
pub open spec fn in_bounds(row: int, col: int) -> bool {
    0 <= row <= 20 && 0 <= col < point_count(row)
}

/// The immutable home color of a cell: the six 15-cell triangles at the
/// star's points, neutral everywhere else.
pub open spec fn home_color(row: int, col: int) -> usize {
    if row <= 4 {
        PURPLE
    } else if row >= 16 {
        YELLOW
    } else if row <= 9 {
        if col < 10 - row {
            BLUE
        } else if col >= 11 {
            GREEN
        } else {
            NEUTRAL
        }
    } else if row == 10 {
        NEUTRAL
    } else {
        if col < row - 10 {
            RED
        } else if col >= 11 {
            ORANGE
        } else {
            NEUTRAL
        }
    }
}

/// The color of the home triangle diagonally opposite a color's own home.
pub open spec fn spec_complement(color: usize) -> usize {
    if color == PURPLE {
        YELLOW
    } else if color == GREEN {
        RED
    } else if color == ORANGE {
        BLUE
    } else if color == YELLOW {
        PURPLE
    } else if color == RED {
        GREEN
    } else if color == BLUE {
        ORANGE
    } else {
        NEUTRAL
    }
}

pub fn point_count_at(row: usize) -> (n: usize)
    requires
        row <= 20,
    ensures
        n == point_count(row as int),
{
    if row <= 4 {
        row + 1
    } else if row <= 10 {
        21 - row
    } else if row <= 15 {
        row + 1
    } else {
        21 - row
    }
}

/// The home color of an in-bounds cell, as a table lookup.
pub fn board_color_at(row: usize, col: usize) -> (c: usize)
    requires
        in_bounds(row as int, col as int),
    ensures
        c == home_color(row as int, col as int),
{
    if row <= 4 {
        PURPLE
    } else if row >= 16 {
        YELLOW
    } else if row <= 9 {
        if col < 10 - row {
            BLUE
        } else if col >= 11 {
            GREEN
        } else {
            NEUTRAL
        }
    } else if row == 10 {
        NEUTRAL
    } else {
        if col < row - 10 {
            RED
        } else if col >= 11 {
            ORANGE
        } else {
            NEUTRAL
        }
    }
}

pub fn get_complementary(color: usize) -> (r: usize)
    ensures
        r == spec_complement(color),
{
    if color == PURPLE {
        YELLOW
    } else if color == GREEN {
        RED
    } else if color == ORANGE {
        BLUE
    } else if color == YELLOW {
        PURPLE
    } else if color == RED {
        GREEN
    } else if color == BLUE {
        ORANGE
    } else {
        NEUTRAL
    }
}

/// Complementing twice gives the original color back, for every player color.
pub proof fn lemma_complement_involution(color: usize)
    requires
        1 <= color <= 6,
    ensures
        spec_complement(spec_complement(color)) == color,
{
}

pub open spec fn abs_val(x: int) -> int {
    if x < 0 {
        -x
    } else {
        x
    }
}

/// The width difference between a row and the row above it (1 at the top edge).
pub open spec fn up_delta(row: int) -> int {
    if row < 20 {
        point_count(row + 1) - point_count(row)
    } else {
        1
    }
}

/// The width difference between a row and the row below it (1 at the bottom edge).
pub open spec fn down_delta(row: int) -> int {
    if row > 0 {
        point_count(row - 1) - point_count(row)
    } else {
        1
    }
}

/// The pair of column offsets used to reach the two diagonal neighbors in an
/// adjacent row, derived from the width difference `delta` between the rows.
/// A difference of magnitude 1 gives the usual triangular-grid pair; the
/// magnitude-11 jump between a home triangle and the hexagon maps to an offset
/// of magnitude 5, and `incr` (which half of the board the step bridges)
/// decides which side the second neighbor sits on.
pub open spec fn spec_shift(delta: int, incr: bool) -> (int, int) {
    let shift = if abs_val(delta) > 1 {
        (if delta < 0 {
            -1int
        } else {
            1int
        }) * ((abs_val(delta) - 1) / 2)
    } else {
        delta
    };
    if shift == -1 {
        (shift, shift + 1)
    } else if shift == 1 {
        (shift, shift - 1)
    } else if shift == -5 {
        if incr {
            (shift, shift + 1)
        } else {
            (shift, shift - 1)
        }
    } else if shift == 5 {
        if incr {
            (shift, shift + 1)
        } else {
            (shift, shift - 1)
        }
    } else {
        (-1, -1)
    }
}

/// Cell `(r, c)` is a neighbor of cell `(row, col)`: both are in bounds and
/// `(r, c)` is one of the up-to-six candidate cells around `(row, col)` — the
/// two beside it, and two in each adjacent row at the shifted columns. A
/// straight-up or straight-down candidate only counts when the row widths
/// differ by at most one, so that the step does not cross a notch of the
/// hexagon boundary.
pub open spec fn spec_is_neighbor(row: int, col: int, r: int, c: int) -> bool {
    let us = spec_shift(up_delta(row), row <= 10);
    let ds = spec_shift(down_delta(row), row >= 10);
    &&& in_bounds(row, col)
    &&& in_bounds(r, c)
    &&& {
        ||| (r == row && (c == col - 1 || c == col + 1))
        ||| (r == row - 1 && (c == col + ds.0 || c == col + ds.1) && (c != col || abs_val(
            down_delta(row),
        ) <= 1))
        ||| (r == row + 1 && (c == col + us.0 || c == col + us.1) && (c != col || abs_val(
            up_delta(row),
        ) <= 1))
    }
}

/// Cell `m` is the pivot of a jump from `f` to `t`: it neighbors `f` (in both
/// directions) and `t` neighbors it.
pub open spec fn is_pivot(fr: int, fc: int, tr: int, tc: int, mr: int, mc: int) -> bool {
    &&& spec_is_neighbor(fr, fc, mr, mc)
    &&& spec_is_neighbor(mr, mc, fr, fc)
    &&& spec_is_neighbor(mr, mc, tr, tc)
}

/// One direction of neighbor symmetry.
#[verifier::rlimit(100)]
#[verifier::spinoff_prover]
proof fn lemma_neighbor_symmetry_one(ar: int, ac: int, br: int, bc: int)
    requires
        in_bounds(ar, ac),
        in_bounds(br, bc),
        spec_is_neighbor(ar, ac, br, bc),
    ensures
        spec_is_neighbor(br, bc, ar, ac),
{
    if br == ar {
        assert(spec_is_neighbor(br, bc, ar, ac));
    } else if br == ar + 1 {
        assert(down_delta(br) == -up_delta(ar));
        let d = up_delta(ar);
        assert(d == 1 || d == -1 || d == 11 || d == -11);
        if d == 11 {
            assert(ar == 4);
            assert(spec_shift(11, true) == (5int, 6int));
            assert(spec_shift(-11, false) == (-5int, -6int));
            assert(spec_is_neighbor(br, bc, ar, ac));
        } else if d == -11 {
            assert(ar == 15);
            assert(spec_shift(-11, false) == (-5int, -6int));
            assert(spec_shift(11, true) == (5int, 6int));
            assert(spec_is_neighbor(br, bc, ar, ac));
        } else {
            assert(spec_is_neighbor(br, bc, ar, ac));
        }
    } else {
        assert(br == ar - 1);
        assert(up_delta(br) == -down_delta(ar));
        let d = down_delta(ar);
        assert(d == 1 || d == -1 || d == 11 || d == -11);
        if d == 11 {
            assert(ar == 16);
            assert(spec_shift(11, true) == (5int, 6int));
            assert(spec_shift(-11, false) == (-5int, -6int));
            assert(spec_is_neighbor(br, bc, ar, ac));
        } else if d == -11 {
            assert(ar == 5);
            assert(spec_shift(-11, false) == (-5int, -6int));
            assert(spec_shift(11, true) == (5int, 6int));
            assert(spec_is_neighbor(br, bc, ar, ac));
        } else {
            assert(spec_is_neighbor(br, bc, ar, ac));
        }
    }
}

/// Being neighbors is symmetric: for any two in-bounds cells, each lies in
/// the other's neighbor set.
pub proof fn lemma_neighbor_symmetry(ar: int, ac: int, br: int, bc: int)
    requires
        in_bounds(ar, ac),
        in_bounds(br, bc),
    ensures
        spec_is_neighbor(ar, ac, br, bc) <==> spec_is_neighbor(br, bc, ar, ac),
{
    if spec_is_neighbor(ar, ac, br, bc) {
        lemma_neighbor_symmetry_one(ar, ac, br, bc);
    }
    if spec_is_neighbor(br, bc, ar, ac) {
        lemma_neighbor_symmetry_one(br, bc, ar, ac);
    }
}

/// The number of cells in rows `0..rows`.
pub open spec fn total_points_upto(rows: int) -> int
    decreases rows,
{
    if rows <= 0 {
        0
    } else {
        total_points_upto(rows - 1) + point_count(rows - 1)
    }
}

/// The whole board holds 181 cells: the row widths 1..=5, 16 down to 11,
/// back up to 16, and 5 down to 1 sum to 181.
#[verifier::rlimit(100)]
pub proof fn lemma_cell_count()
    ensures
        total_points_upto(21) == 181,
{
    reveal_with_fuel(total_points_upto, 25);
}

/// How many cells of row `row`, among columns `0..cols`, have home color `color`.
pub open spec fn home_cells_in_row(color: usize, row: int, cols: int) -> int
    decreases cols,
{
    if cols <= 0 {
        0
    } else {
        home_cells_in_row(color, row, cols - 1) + if home_color(row, cols - 1) == color {
            1int
        } else {
            0int
        }
    }
}

/// How many cells of rows `0..rows` have home color `color`.
pub open spec fn home_cell_count_upto(color: usize, rows: int) -> int
    decreases rows,
{
    if rows <= 0 {
        0
    } else {
        home_cell_count_upto(color, rows - 1) + home_cells_in_row(color, rows - 1, point_count(rows - 1))
    }
}

/// Every player color has a home triangle of exactly 15 cells.
#[verifier::rlimit(100)]
pub proof fn lemma_home_sizes(color: usize)
    requires
        1 <= color <= 6,
    ensures
        home_cell_count_upto(color, 21) == 15,
{
    reveal_with_fuel(home_cell_count_upto, 22);
    reveal_with_fuel(home_cells_in_row, 17);
}

} // verus!
