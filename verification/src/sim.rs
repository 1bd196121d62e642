//! The seat-state step engine and the stabilization loop that iterates it to
//! a fixed point.

use crate::count::count_for_rule;
use crate::count::rule_count;
use crate::count::NeighbourRule;
use crate::grid::cell_offset;
use crate::grid::grid_wf;
use crate::grid::clone_grid;
use crate::grid::grids_equal;
use crate::grid::lemma_offset_in_grid;
use crate::grid::offset;
use crate::grid::seat_at;
use vstd::prelude::*;

verus! {

/// The state the cell at (`x`, `y`) takes after one synchronous step: an
/// empty seat with no occupied neighbour fills, an occupied seat with at
/// least `tolerance` occupied neighbours empties, everything else is kept.
pub open spec fn next_cell(
    seats: Seq<char>,
    row_len: int,
    tolerance: int,
    rule: NeighbourRule,
    x: int,
    y: int,
) -> char {
    let c = seats[cell_offset(x, y, row_len)];
    if c == 'L' {
        if rule_count(rule, seats, row_len, x, y) == 0 {
            '#'
        } else {
            'L'
        }
    } else if c == '#' {
        if rule_count(rule, seats, row_len, x, y) >= tolerance {
            'L'
        } else {
            '#'
        }
    } else {
        c
    }
}

/// One synchronous whole-grid step: every cell transitions at once, each
/// reading only the prior grid.
pub open spec fn step_grid(
    seats: Seq<char>,
    row_len: int,
    tolerance: int,
    rule: NeighbourRule,
) -> Seq<char> {
    Seq::new(seats.len(), |i: int| next_cell(seats, row_len, tolerance, rule, i % row_len, i / row_len))
}

/// `n` synchronous steps, applied in order.
pub open spec fn iterate_step(
    seats: Seq<char>,
    row_len: int,
    tolerance: int,
    rule: NeighbourRule,
    n: nat,
) -> Seq<char>
    decreases n,
{
    if n == 0 {
        seats
    } else {
        step_grid(iterate_step(seats, row_len, tolerance, rule, (n - 1) as nat), row_len, tolerance, rule)
    }
}

/// Applies the transition rules once across the whole grid, writing the new
/// states into `next` and reading only from `current`; returns the stepped
/// grid together with `current` for reuse as the next scratch buffer.
pub fn step(
    current: Vec<char>,
    next: Vec<char>,
    row_len: usize,
    tolerance: usize,
    rule: NeighbourRule,
) -> (r: (Vec<char>, Vec<char>))
    requires
        grid_wf(current@, row_len as int),
        next@.len() == current@.len(),
        current@.len() < i64::MAX,
    ensures
        r.0@ == step_grid(current@, row_len as int, tolerance as int, rule),
        r.1@ == current@,
{
    let len = current.len();
    let rows = len / row_len;
    let ghost target = step_grid(current@, row_len as int, tolerance as int, rule);
    let mut next = next;
    let mut y: usize = 0;
    while y < rows
        invariant
            grid_wf(current@, row_len as int),
            current@.len() < i64::MAX,
            len == current@.len(),
            rows == len as int / row_len as int,
            target == step_grid(current@, row_len as int, tolerance as int, rule),
            y <= rows,
            next@.len() == current@.len(),
            y * row_len <= len,
            forall|i: int| 0 <= i < y * row_len ==> next@[i] == target[i],
        decreases rows - y,
    {
        proof {
            assert((y + 1) * row_len == y * row_len + row_len) by (nonlinear_arith);
            assert((y + 1) * row_len <= len) by (nonlinear_arith)
                requires
                    y < rows,
                    rows == len as int / row_len as int,
                    row_len > 0,
                    len as int % row_len as int == 0,
            ;
        }
        let mut x: usize = 0;
        while x < row_len
            invariant
                grid_wf(current@, row_len as int),
                current@.len() < i64::MAX,
                len == current@.len(),
                rows == len as int / row_len as int,
                target == step_grid(current@, row_len as int, tolerance as int, rule),
                y < rows,
                x <= row_len,
                next@.len() == current@.len(),
                y * row_len + row_len <= len,
                forall|i: int| 0 <= i < y * row_len + x ==> next@[i] == target[i],
            decreases row_len - x,
        {
            proof {
                lemma_offset_in_grid(len as int, row_len as int, x as int, y as int);
            }
            let c = seat_at(x, y, &current, row_len);
            let new_c: char = if c == 'L' {
                if count_for_rule(rule, x, y, &current, row_len) == 0 {
                    '#'
                } else {
                    'L'
                }
            } else if c == '#' {
                if count_for_rule(rule, x, y, &current, row_len) >= tolerance {
                    'L'
                } else {
                    '#'
                }
            } else {
                c
            };
            let off = offset(x, y, row_len);
            next[off] = new_c;
            proof {
                vstd::arithmetic::div_mod::lemma_fundamental_div_mod_converse(
                    off as int,
                    row_len as int,
                    y as int,
                    x as int,
                );
                assert(target[off as int] == next_cell(
                    current@,
                    row_len as int,
                    tolerance as int,
                    rule,
                    x as int,
                    y as int,
                ));
                assert(next@[off as int] == new_c);
            }
            x += 1;
        }
        y += 1;
        proof {
            assert(y * row_len == (y - 1) * row_len + row_len) by (nonlinear_arith);
        }
    }
    proof {
        vstd::arithmetic::div_mod::lemma_fundamental_div_mod(len as int, row_len as int);
        assert(rows * row_len == len);
        assert(next@ =~= target);
    }
    (next, current)
}

/// Repeatedly applies `step` until the newly produced grid is cell-for-cell
/// identical to the grid it replaced, and returns that stable grid: applying
/// one more step to it changes nothing. Returns `None` only if no fixed
/// point is reached within `usize::MAX` steps, the non-convergence signal
/// for a pathological rule/grid combination.
#[verifier::loop_isolation(false)]
pub fn step_to_stable(
    current: Vec<char>,
    row_len: usize,
    tolerance: usize,
    rule: NeighbourRule,
) -> (r: Option<Vec<char>>)
    requires
        grid_wf(current@, row_len as int),
        current@.len() < i64::MAX,
    ensures
        match r {
            Some(stable) => {
                &&& step_grid(stable@, row_len as int, tolerance as int, rule) == stable@
                &&& exists|n: nat|
                    stable@ == iterate_step(current@, row_len as int, tolerance as int, rule, n)
            },
            None => forall|n: nat|
                n < usize::MAX ==> iterate_step(
                    current@,
                    row_len as int,
                    tolerance as int,
                    rule,
                    n + 1,
                ) != #[trigger] iterate_step(current@, row_len as int, tolerance as int, rule, n),
        },
{
    let ghost init = current@;
    let mut cur = current;
    let mut buf = clone_grid(&cur);
    let mut steps: usize = 0;
    while steps < usize::MAX
        invariant
            grid_wf(init, row_len as int),
            init.len() < i64::MAX,
            cur@.len() == init.len(),
            buf@.len() == init.len(),
            cur@ == iterate_step(init, row_len as int, tolerance as int, rule, steps as nat),
            forall|m: nat|
                m < steps ==> iterate_step(init, row_len as int, tolerance as int, rule, m + 1)
                    != #[trigger] iterate_step(init, row_len as int, tolerance as int, rule, m),
        decreases usize::MAX - steps,
    {
        let stepped = step(cur, buf, row_len, tolerance, rule);
        cur = stepped.0;
        buf = stepped.1;
        proof {
            assert(cur@ == iterate_step(
                init,
                row_len as int,
                tolerance as int,
                rule,
                (steps + 1) as nat,
            ));
        }
        if grids_equal(&cur, &buf) {
            proof {
                assert(step_grid(cur@, row_len as int, tolerance as int, rule) == cur@);
                let n = (steps + 1) as nat;
                assert(cur@ == iterate_step(init, row_len as int, tolerance as int, rule, n));
            }
            return Some(cur);
        }
        steps += 1;
    }
    None
}

} // verus!
