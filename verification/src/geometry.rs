//! The shape of the board: rows, columns, the eight ray directions with
//! their distances to the edge, and the eight knight jumps.
//!
//! Squares are numbered row by row from the top-left corner, so square `sq`
//! lies in row `sq / 8` and column `sq % 8`. All of this depends on the
//! board's size alone and on no position.

use vstd::prelude::*;

verus! {

/// Towards row 0.
pub const NORTH: usize = 0;

/// Towards column 7.
pub const EAST: usize = 1;

/// Towards row 7.
pub const SOUTH: usize = 2;

/// Towards column 0.
pub const WEST: usize = 3;

/// Towards row 0 and column 0.
pub const NORTH_WEST: usize = 4;

/// Towards row 0 and column 7.
pub const NORTH_EAST: usize = 5;

/// Towards row 7 and column 0.
pub const SOUTH_WEST: usize = 6;

/// Towards row 7 and column 7.
pub const SOUTH_EAST: usize = 7;

/// Whether `sq` is the index of a square.
pub open spec fn on_board(sq: int) -> bool {
    0 <= sq < 64
}

/// The row of a square, 0 at the top.
pub open spec fn row_of(sq: int) -> int {
    sq / 8
}

/// The column of a square, 0 at the left.
pub open spec fn col_of(sq: int) -> int {
    sq % 8
}

/// How the row changes with one step in a direction.
pub open spec fn row_step(dir: int) -> int {
    if dir == NORTH || dir == NORTH_WEST || dir == NORTH_EAST {
        -1
    } else if dir == SOUTH || dir == SOUTH_WEST || dir == SOUTH_EAST {
        1
    } else {
        0
    }
}

/// How the column changes with one step in a direction.
pub open spec fn col_step(dir: int) -> int {
    if dir == WEST || dir == NORTH_WEST || dir == SOUTH_WEST {
        -1
    } else if dir == EAST || dir == NORTH_EAST || dir == SOUTH_EAST {
        1
    } else {
        0
    }
}

/// How the index changes with one step in a direction.
pub open spec fn direction_offset(dir: int) -> int {
    8 * row_step(dir) + col_step(dir)
}

/// The smaller of two numbers.
pub open spec fn least(a: int, b: int) -> int {
    if a <= b {
        a
    } else {
        b
    }
}

/// How many steps lead from `sq` in direction `dir` before the edge.
pub open spec fn edge_distance(sq: int, dir: int) -> int {
    let north = row_of(sq);
    let south = 7 - row_of(sq);
    let west = col_of(sq);
    let east = 7 - col_of(sq);
    if dir == NORTH {
        north
    } else if dir == EAST {
        east
    } else if dir == SOUTH {
        south
    } else if dir == WEST {
        west
    } else if dir == NORTH_WEST {
        least(north, west)
    } else if dir == NORTH_EAST {
        least(north, east)
    } else if dir == SOUTH_WEST {
        least(south, west)
    } else {
        least(south, east)
    }
}

/// The square reached from `sq` after `steps` steps in direction `dir`.
pub open spec fn ray_square(sq: int, dir: int, steps: int) -> int {
    sq + steps * direction_offset(dir)
}

/// How the row changes with knight jump `jump`, one of eight.
pub open spec fn knight_row_step(jump: int) -> int {
    if jump == 0 || jump == 7 {
        -2
    } else if jump == 1 || jump == 6 {
        -1
    } else if jump == 2 || jump == 5 {
        1
    } else {
        2
    }
}

/// How the column changes with knight jump `jump`.
pub open spec fn knight_col_step(jump: int) -> int {
    if jump == 0 || jump == 3 {
        1
    } else if jump == 1 || jump == 2 {
        2
    } else if jump == 4 || jump == 7 {
        -1
    } else {
        -2
    }
}

/// How the index changes with knight jump `jump`.
pub open spec fn knight_offset(jump: int) -> int {
    8 * knight_row_step(jump) + knight_col_step(jump)
}

/// Whether knight jump `jump` from `sq` lands on the board.
pub open spec fn knight_jump_fits(sq: int, jump: int) -> bool {
    &&& 0 <= row_of(sq) + knight_row_step(jump) < 8
    &&& 0 <= col_of(sq) + knight_col_step(jump) < 8
}

/// The squares that the first `n` knight jumps from `sq` reach, in the
/// order of the jumps, without those that leave the board.
pub open spec fn knight_targets_upto(sq: int, n: int) -> Seq<int>
    decreases n,
{
    if n <= 0 {
        Seq::empty()
    } else if knight_jump_fits(sq, n - 1) {
        knight_targets_upto(sq, n - 1).push(sq + knight_offset(n - 1))
    } else {
        knight_targets_upto(sq, n - 1)
    }
}

/// The squares a knight on `sq` can jump to.
pub open spec fn knight_targets(sq: int) -> Seq<int> {
    knight_targets_upto(sq, 8)
}

/// The squares reached by one step from `sq` in the first `n` directions,
/// in the order of the directions, without those past the edge.
pub open spec fn neighbours_upto(sq: int, n: int) -> Seq<int>
    decreases n,
{
    if n <= 0 {
        Seq::empty()
    } else if edge_distance(sq, n - 1) >= 1 {
        neighbours_upto(sq, n - 1).push(ray_square(sq, n - 1, 1))
    } else {
        neighbours_upto(sq, n - 1)
    }
}

/// The squares next to `sq`.
pub open spec fn neighbours(sq: int) -> Seq<int> {
    neighbours_upto(sq, 8)
}

/// Walking along a ray up to the edge distance stays on the board and moves
/// row and column by the direction's steps, never wrapping from one side of
/// the board to the other; one step more leaves the board.
pub proof fn lemma_ray_on_board(sq: int, dir: int, steps: int)
    requires
        on_board(sq),
        0 <= dir < 8,
        0 <= steps <= edge_distance(sq, dir),
    ensures
        on_board(ray_square(sq, dir, steps)),
        row_of(ray_square(sq, dir, steps)) == row_of(sq) + steps * row_step(dir),
        col_of(ray_square(sq, dir, steps)) == col_of(sq) + steps * col_step(dir),
        0 <= edge_distance(sq, dir) <= 7,
        !(0 <= row_of(sq) + (edge_distance(sq, dir) + 1) * row_step(dir) < 8 && 0 <= col_of(sq)
            + (edge_distance(sq, dir) + 1) * col_step(dir) < 8),
{
    let dr = row_step(dir);
    let dc = col_step(dir);
    let far = edge_distance(sq, dir) + 1;
    assert(steps * (8 * dr + dc) == 8 * (steps * dr) + steps * dc) by (nonlinear_arith);
    assert(steps * dr == if dr == 0 {
        0
    } else if dr == 1 {
        steps
    } else {
        -steps
    }) by (nonlinear_arith)
        requires
            -1 <= dr <= 1,
    ;
    assert(steps * dc == if dc == 0 {
        0
    } else if dc == 1 {
        steps
    } else {
        -steps
    }) by (nonlinear_arith)
        requires
            -1 <= dc <= 1,
    ;
    assert(far * dr == if dr == 0 {
        0
    } else if dr == 1 {
        far
    } else {
        -far
    }) by (nonlinear_arith)
        requires
            -1 <= dr <= 1,
    ;
}

/// A knight jump that fits lands on the board, two rows and one column or
/// one row and two columns away.
pub proof fn lemma_knight_jump_on_board(sq: int, jump: int)
    requires
        on_board(sq),
        0 <= jump < 8,
        knight_jump_fits(sq, jump),
    ensures
        on_board(sq + knight_offset(jump)),
        row_of(sq + knight_offset(jump)) == row_of(sq) + knight_row_step(jump),
        col_of(sq + knight_offset(jump)) == col_of(sq) + knight_col_step(jump),
{
}

/// Every knight target is a square of the board, and there are at most
/// eight of them.
pub proof fn lemma_knight_targets_on_board(sq: int, n: int)
    requires
        on_board(sq),
        0 <= n <= 8,
    ensures
        knight_targets_upto(sq, n).len() <= n,
        forall|j: int|
            0 <= j < knight_targets_upto(sq, n).len() ==> on_board(
                #[trigger] knight_targets_upto(sq, n)[j],
            ),
    decreases n,
{
    if n > 0 {
        lemma_knight_targets_on_board(sq, n - 1);
    }
}

/// Every neighbour is a square of the board, and there are at most eight.
pub proof fn lemma_neighbours_on_board(sq: int, n: int)
    requires
        on_board(sq),
        0 <= n <= 8,
    ensures
        neighbours_upto(sq, n).len() <= n,
        forall|j: int|
            0 <= j < neighbours_upto(sq, n).len() ==> on_board(#[trigger] neighbours_upto(sq, n)[j]),
    decreases n,
{
    if n > 0 {
        lemma_neighbours_on_board(sq, n - 1);
    }
}

} // verus!
