//! The two interchangeable neighbour-counting strategies: immediate
//! adjacency and line of sight.

use crate::grid::cell_offset;
use crate::grid::grid_rows;
use crate::grid::grid_wf;
use crate::grid::is_occupied;
use crate::grid::lemma_offset_in_grid;
use crate::grid::lemma_row_len_le_len;
use crate::grid::on_grid;
use crate::grid::seat_at;
use vstd::prelude::*;

verus! {

/// Which neighbour-counting strategy drives a simulation pass.
#[derive(Clone, Copy, PartialEq, Eq, Structural, Debug)]
pub enum NeighbourRule {
    Adjacent,
    LineOfSight,
}

/// 1 when the position (`x`, `y`) lies on the grid and holds an occupied
/// seat, 0 otherwise.
pub open spec fn occ_at(seats: Seq<char>, row_len: int, x: int, y: int) -> nat {
    if on_grid(seats, row_len, x, y) && seats[cell_offset(x, y, row_len)] == '#' {
        1
    } else {
        0
    }
}

/// Number of occupied seats among the up-to-8 cells of the 3x3
/// neighbourhood of (`x`, `y`), the centre excluded.
pub open spec fn adjacent_count(seats: Seq<char>, row_len: int, x: int, y: int) -> nat {
    occ_at(seats, row_len, x - 1, y - 1) + occ_at(seats, row_len, x, y - 1) + occ_at(
        seats,
        row_len,
        x + 1,
        y - 1,
    ) + occ_at(seats, row_len, x - 1, y) + occ_at(seats, row_len, x + 1, y) + occ_at(
        seats,
        row_len,
        x - 1,
        y + 1,
    ) + occ_at(seats, row_len, x, y + 1) + occ_at(seats, row_len, x + 1, y + 1)
}

/// Counts the occupied seats among the grid-adjacent cells of (`x`, `y`),
/// skipping positions that would fall off the grid.
pub fn count_occupied_neighbours(x: usize, y: usize, seats: &Vec<char>, row_len: usize) -> (r:
    usize)
    requires
        grid_wf(seats@, row_len as int),
        on_grid(seats@, row_len as int, x as int, y as int),
    ensures
        r == adjacent_count(seats@, row_len as int, x as int, y as int),
{
    let len = seats.len();
    let rows = len / row_len;
    proof {
        lemma_offset_in_grid(len as int, row_len as int, x as int, y as int);
    }
    let mut occupied: usize = 0;
    // row above
    if y > 0 {
        if x > 0 {
            proof {
                lemma_offset_in_grid(len as int, row_len as int, x - 1, y - 1);
            }
            if is_occupied(seat_at(x - 1, y - 1, seats, row_len)) {
                occupied += 1;
            }
        }
        proof {
            lemma_offset_in_grid(len as int, row_len as int, x as int, y - 1);
        }
        if is_occupied(seat_at(x, y - 1, seats, row_len)) {
            occupied += 1;
        }
        if x < row_len - 1 {
            proof {
                lemma_offset_in_grid(len as int, row_len as int, x + 1, y - 1);
            }
            if is_occupied(seat_at(x + 1, y - 1, seats, row_len)) {
                occupied += 1;
            }
        }
    }
    // same row
    if x > 0 {
        proof {
            lemma_offset_in_grid(len as int, row_len as int, x - 1, y as int);
        }
        if is_occupied(seat_at(x - 1, y, seats, row_len)) {
            occupied += 1;
        }
    }
    if x < row_len - 1 {
        proof {
            lemma_offset_in_grid(len as int, row_len as int, x + 1, y as int);
        }
        if is_occupied(seat_at(x + 1, y, seats, row_len)) {
            occupied += 1;
        }
    }
    // row below
    if y < rows - 1 {
        if x > 0 {
            proof {
                lemma_offset_in_grid(len as int, row_len as int, x - 1, y + 1);
            }
            if is_occupied(seat_at(x - 1, y + 1, seats, row_len)) {
                occupied += 1;
            }
        }
        proof {
            lemma_offset_in_grid(len as int, row_len as int, x as int, y + 1);
        }
        if is_occupied(seat_at(x, y + 1, seats, row_len)) {
            occupied += 1;
        }
        if x < row_len - 1 {
            proof {
                lemma_offset_in_grid(len as int, row_len as int, x + 1, y + 1);
            }
            if is_occupied(seat_at(x + 1, y + 1, seats, row_len)) {
                occupied += 1;
            }
        }
    }
    occupied
}

/// 1 when (`x`, `y`) holds an occupied seat, given that it lies on a grid
/// with no occupied seat: always 0. Helper for the all-empty law.
proof fn lemma_occ_at_all_empty(seats: Seq<char>, row_len: int, x: int, y: int)
    requires
        grid_wf(seats, row_len),
        forall|i: int| 0 <= i < seats.len() ==> seats[i] != '#',
    ensures
        occ_at(seats, row_len, x, y) == 0,
{
    if on_grid(seats, row_len, x, y) {
        lemma_offset_in_grid(seats.len() as int, row_len, x, y);
    }
}

/// On a grid with no occupied seat anywhere, the adjacent-neighbour count is
/// zero at every position.
pub proof fn lemma_adjacent_count_all_empty(seats: Seq<char>, row_len: int, x: int, y: int)
    requires
        grid_wf(seats, row_len),
        forall|i: int| 0 <= i < seats.len() ==> seats[i] != '#',
    ensures
        adjacent_count(seats, row_len, x, y) == 0,
{
    lemma_occ_at_all_empty(seats, row_len, x - 1, y - 1);
    lemma_occ_at_all_empty(seats, row_len, x, y - 1);
    lemma_occ_at_all_empty(seats, row_len, x + 1, y - 1);
    lemma_occ_at_all_empty(seats, row_len, x - 1, y);
    lemma_occ_at_all_empty(seats, row_len, x + 1, y);
    lemma_occ_at_all_empty(seats, row_len, x - 1, y + 1);
    lemma_occ_at_all_empty(seats, row_len, x, y + 1);
    lemma_occ_at_all_empty(seats, row_len, x + 1, y + 1);
}

/// A direction vector moves one cell per step along at least one axis.
pub open spec fn valid_dir(dx: int, dy: int) -> bool {
    &&& -1 <= dx <= 1
    &&& -1 <= dy <= 1
    &&& !(dx == 0 && dy == 0)
}

/// A measure that shrinks as a walk moves in direction (`dx`, `dy`): the
/// distance to the grid edge along an axis the walk moves on.
pub open spec fn walk_measure(cx: int, cy: int, dx: int, dy: int, row_len: int, rows: int) -> int {
    if dx > 0 {
        row_len - cx
    } else if dx < 0 {
        cx + 1
    } else if dy > 0 {
        rows - cy
    } else {
        cy + 1
    }
}

/// Walking from (`cx`, `cy`) outward in direction (`dx`, `dy`): true when
/// the first seat reached is occupied. Floor cells are looked through; an
/// empty seat or the grid edge stops the walk with nothing seen.
pub open spec fn sees_occupied_from(
    seats: Seq<char>,
    row_len: int,
    cx: int,
    cy: int,
    dx: int,
    dy: int,
) -> bool
    decreases walk_measure(cx, cy, dx, dy, row_len, grid_rows(seats.len() as int, row_len))
        when valid_dir(dx, dy)
{
    if !on_grid(seats, row_len, cx, cy) {
        false
    } else if seats[cell_offset(cx, cy, row_len)] == 'L' {
        false
    } else if seats[cell_offset(cx, cy, row_len)] == '#' {
        true
    } else {
        sees_occupied_from(seats, row_len, cx + dx, cy + dy, dx, dy)
    }
}

/// 1 when the first seat visible from (`x`, `y`) in direction (`dx`, `dy`)
/// is occupied, 0 otherwise.
pub open spec fn dir_count(seats: Seq<char>, row_len: int, x: int, y: int, dx: int, dy: int) -> nat {
    if sees_occupied_from(seats, row_len, x + dx, y + dy, dx, dy) {
        1
    } else {
        0
    }
}

/// Number of the 8 compass directions in which the first seat visible from
/// (`x`, `y`) is occupied.
pub open spec fn far_count(seats: Seq<char>, row_len: int, x: int, y: int) -> nat {
    dir_count(seats, row_len, x, y, -1, -1) + dir_count(seats, row_len, x, y, 0, -1) + dir_count(
        seats,
        row_len,
        x,
        y,
        1,
        -1,
    ) + dir_count(seats, row_len, x, y, -1, 0) + dir_count(seats, row_len, x, y, 1, 0) + dir_count(
        seats,
        row_len,
        x,
        y,
        -1,
        1,
    ) + dir_count(seats, row_len, x, y, 0, 1) + dir_count(seats, row_len, x, y, 1, 1)
}

/// Walks outward from (`x`, `y`) one step at a time along the direction
/// (`step_x`, `step_y`); reports whether the first seat reached is occupied.
pub fn search(x: usize, y: usize, step_x: i64, step_y: i64, seats: &Vec<char>, row_len: usize) -> (r:
    bool)
    requires
        grid_wf(seats@, row_len as int),
        on_grid(seats@, row_len as int, x as int, y as int),
        valid_dir(step_x as int, step_y as int),
        seats@.len() < i64::MAX,
    ensures
        r == sees_occupied_from(
            seats@,
            row_len as int,
            x + step_x,
            y + step_y,
            step_x as int,
            step_y as int,
        ),
{
    let len = seats.len();
    let rows = len / row_len;
    proof {
        lemma_row_len_le_len(len as int, row_len as int);
    }
    let mut current_x: i64 = x as i64 + step_x;
    let mut current_y: i64 = y as i64 + step_y;
    while current_x >= 0 && current_x < row_len as i64 && current_y >= 0 && current_y
        < rows as i64
        invariant
            grid_wf(seats@, row_len as int),
            valid_dir(step_x as int, step_y as int),
            seats@.len() < i64::MAX,
            len == seats@.len(),
            row_len <= seats@.len(),
            rows == grid_rows(seats@.len() as int, row_len as int),
            rows <= seats@.len(),
            -1 <= current_x <= row_len,
            -1 <= current_y <= rows,
            sees_occupied_from(
                seats@,
                row_len as int,
                x + step_x,
                y + step_y,
                step_x as int,
                step_y as int,
            ) == sees_occupied_from(
                seats@,
                row_len as int,
                current_x as int,
                current_y as int,
                step_x as int,
                step_y as int,
            ),
        decreases walk_measure(
            current_x as int,
            current_y as int,
            step_x as int,
            step_y as int,
            row_len as int,
            rows as int,
        ),
    {
        proof {
            lemma_offset_in_grid(len as int, row_len as int, current_x as int, current_y as int);
        }
        let c = seat_at(current_x as usize, current_y as usize, seats, row_len);
        if c == 'L' {
            return false;
        }
        if c == '#' {
            return true;
        }
        current_x += step_x;
        current_y += step_y;
    }
    false
}

/// Counts the directions whose first visible seat from (`x`, `y`) is
/// occupied, over all 8 compass directions.
pub fn count_occupied_neighbours_far(x: usize, y: usize, seats: &Vec<char>, row_len: usize) -> (r:
    usize)
    requires
        grid_wf(seats@, row_len as int),
        on_grid(seats@, row_len as int, x as int, y as int),
        seats@.len() < i64::MAX,
    ensures
        r == far_count(seats@, row_len as int, x as int, y as int),
{
    let mut occupied: usize = 0;
    if search(x, y, -1, -1, seats, row_len) {
        occupied += 1;
    }
    if search(x, y, 0, -1, seats, row_len) {
        occupied += 1;
    }
    if search(x, y, 1, -1, seats, row_len) {
        occupied += 1;
    }
    if search(x, y, -1, 0, seats, row_len) {
        occupied += 1;
    }
    if search(x, y, 1, 0, seats, row_len) {
        occupied += 1;
    }
    if search(x, y, -1, 1, seats, row_len) {
        occupied += 1;
    }
    if search(x, y, 0, 1, seats, row_len) {
        occupied += 1;
    }
    if search(x, y, 1, 1, seats, row_len) {
        occupied += 1;
    }
    occupied
}

/// The occupied-neighbour count of (`x`, `y`) under the given rule.
pub open spec fn rule_count(
    rule: NeighbourRule,
    seats: Seq<char>,
    row_len: int,
    x: int,
    y: int,
) -> nat {
    match rule {
        NeighbourRule::Adjacent => adjacent_count(seats, row_len, x, y),
        NeighbourRule::LineOfSight => far_count(seats, row_len, x, y),
    }
}

/// Counts the occupied neighbours of (`x`, `y`) under the given rule.
pub fn count_for_rule(
    rule: NeighbourRule,
    x: usize,
    y: usize,
    seats: &Vec<char>,
    row_len: usize,
) -> (r: usize)
    requires
        grid_wf(seats@, row_len as int),
        on_grid(seats@, row_len as int, x as int, y as int),
        seats@.len() < i64::MAX,
    ensures
        r == rule_count(rule, seats@, row_len as int, x as int, y as int),
{
    match rule {
        NeighbourRule::Adjacent => count_occupied_neighbours(x, y, seats, row_len),
        NeighbourRule::LineOfSight => count_occupied_neighbours_far(x, y, seats, row_len),
    }
}

} // verus!
