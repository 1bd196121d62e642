//! Flat-array grid model: offset arithmetic, bounds-aware accessors, parsing
//! of text rows, and whole-grid queries.

use vstd::prelude::*;

verus! {

/// A well-formed grid: a positive row length that evenly divides the number
/// of cells, so the grid is a whole number of rows.
pub open spec fn grid_wf(seats: Seq<char>, row_len: int) -> bool {
    &&& row_len > 0
    &&& seats.len() as int % row_len == 0
}

/// Number of rows of a grid of `len` cells with `row_len` cells per row.
pub open spec fn grid_rows(len: int, row_len: int) -> int {
    len / row_len
}

/// Linear offset of the cell at column `x`, row `y`.
pub open spec fn cell_offset(x: int, y: int, row_len: int) -> int {
    y * row_len + x
}

/// The position (`x`, `y`) lies on the grid.
pub open spec fn on_grid(seats: Seq<char>, row_len: int, x: int, y: int) -> bool {
    &&& 0 <= x < row_len
    &&& 0 <= y < grid_rows(seats.len() as int, row_len)
}

/// Every on-grid position maps to an offset inside the flat sequence.
pub proof fn lemma_offset_in_grid(len: int, row_len: int, x: int, y: int)
    requires
        row_len > 0,
        len % row_len == 0,
        0 <= x < row_len,
        0 <= y < len / row_len,
    ensures
        0 <= cell_offset(x, y, row_len) < len,
{
    let rows = len / row_len;
    vstd::arithmetic::div_mod::lemma_fundamental_div_mod(len, row_len);
    assert(len == rows * row_len);
    assert(0 <= y * row_len + x < rows * row_len) by (nonlinear_arith)
        requires
            row_len > 0,
            0 <= x < row_len,
            0 <= y < rows,
    ;
}

/// A well-formed grid with at least one row holds at least `row_len` cells.
pub proof fn lemma_row_len_le_len(len: int, row_len: int)
    requires
        row_len > 0,
        len % row_len == 0,
        len / row_len > 0,
    ensures
        row_len <= len,
{
    let rows = len / row_len;
    vstd::arithmetic::div_mod::lemma_fundamental_div_mod(len, row_len);
    assert(row_len <= rows * row_len) by (nonlinear_arith)
        requires
            row_len > 0,
            rows >= 1,
    ;
}

/// Maps the cell at column `x`, row `y` to its linear offset.
pub fn offset(x: usize, y: usize, row_len: usize) -> (r: usize)
    requires
        y * row_len + x <= usize::MAX,
    ensures
        r == cell_offset(x as int, y as int, row_len as int),
{
    y * row_len + x
}

/// Direct offset lookup of the cell at column `x`, row `y`; the caller is
/// responsible for staying inside the grid.
pub fn seat_at(x: usize, y: usize, seats: &Vec<char>, row_len: usize) -> (r: char)
    requires
        x < row_len,
        cell_offset(x as int, y as int, row_len as int) < seats@.len(),
    ensures
        r == seats@[cell_offset(x as int, y as int, row_len as int)],
{
    let n = seats.len();
    proof {
        assert(cell_offset(x as int, y as int, row_len as int) < n <= usize::MAX);
    }
    seats[offset(x, y, row_len)]
}

/// A cell character marks an occupied seat.
pub fn is_occupied(seat: char) -> (r: bool)
    ensures
        r == (seat == '#'),
{
    seat == '#'
}

/// The views of a sequence of text lines.
pub open spec fn line_views(lines: Seq<String>) -> Seq<Seq<char>> {
    lines.map_values(|s: String| s@)
}

/// All characters of all rows, concatenated in order.
pub open spec fn concat_rows(rows: Seq<Seq<char>>) -> Seq<char>
    decreases rows.len(),
{
    if rows.len() == 0 {
        Seq::empty()
    } else {
        concat_rows(rows.drop_last()) + rows.last()
    }
}

/// The length of the longest row.
pub open spec fn max_row_len(rows: Seq<Seq<char>>) -> nat
    decreases rows.len(),
{
    if rows.len() == 0 {
        0
    } else {
        let rest = max_row_len(rows.drop_last());
        if rows.last().len() > rest {
            rows.last().len()
        } else {
            rest
        }
    }
}

/// Concatenates the characters of all input lines into one flat grid and
/// reports the maximum observed line length. No validation is performed:
/// ragged input yields a grid that later stages cannot address coherently.
pub fn read_seats(input: &Vec<String>) -> (r: (Vec<char>, usize))
    ensures
        r.0@ == concat_rows(line_views(input@)),
        r.1 == max_row_len(line_views(input@)),
{
    let mut out: Vec<char> = Vec::new();
    let mut row_len: usize = 0;
    let mut i: usize = 0;
    while i < input.len()
        invariant
            i <= input@.len(),
            out@ == concat_rows(line_views(input@.subrange(0, i as int))),
            row_len == max_row_len(line_views(input@.subrange(0, i as int))),
        decreases input@.len() - i,
    {
        let line: &String = &input[i];
        let len = line.as_str().unicode_len();
        if len > row_len {
            row_len = len;
        }
        let ghost prefix = concat_rows(line_views(input@.subrange(0, i as int)));
        let mut j: usize = 0;
        while j < len
            invariant
                j <= len,
                len == line@.len(),
                line == input@[i as int],
                out@ == prefix + line@.subrange(0, j as int),
            decreases len - j,
        {
            out.push(line.as_str().get_char(j));
            proof {
                assert(line@.subrange(0, (j + 1) as int) =~= line@.subrange(0, j as int).push(
                    line@[j as int],
                ));
                assert(out@ =~= prefix + line@.subrange(0, (j + 1) as int));
            }
            j += 1;
        }
        proof {
            let pre = input@.subrange(0, i as int);
            let cur = input@.subrange(0, i + 1);
            assert(cur.drop_last() =~= pre);
            assert(line_views(cur).drop_last() =~= line_views(pre));
            assert(line_views(cur).last() == input@[i as int]@);
            assert(line@.subrange(0, len as int) =~= line@);
            assert(out@ == concat_rows(line_views(cur)));
        }
        i += 1;
    }
    proof {
        assert(input@.subrange(0, input@.len() as int) =~= input@);
    }
    (out, row_len)
}

/// Number of occupied seats in the whole grid.
pub open spec fn occupied_total(seats: Seq<char>) -> nat
    decreases seats.len(),
{
    if seats.len() == 0 {
        0
    } else {
        occupied_total(seats.drop_last()) + if seats.last() == '#' {
            1nat
        } else {
            0nat
        }
    }
}

/// Counts the occupied seats in the grid.
pub fn count_occupied(seats: &Vec<char>) -> (r: usize)
    ensures
        r == occupied_total(seats@),
{
    let mut count: usize = 0;
    let mut i: usize = 0;
    while i < seats.len()
        invariant
            i <= seats@.len(),
            count <= i,
            count == occupied_total(seats@.subrange(0, i as int)),
        decreases seats@.len() - i,
    {
        proof {
            assert(seats@.subrange(0, (i + 1) as int).drop_last() =~= seats@.subrange(
                0,
                i as int,
            ));
        }
        if seats[i] == '#' {
            count += 1;
        }
        i += 1;
    }
    proof {
        assert(seats@.subrange(0, seats@.len() as int) =~= seats@);
    }
    count
}

/// Copies a grid cell for cell.
pub fn clone_grid(seats: &Vec<char>) -> (r: Vec<char>)
    ensures
        r@ == seats@,
{
    let mut out: Vec<char> = Vec::new();
    let mut i: usize = 0;
    while i < seats.len()
        invariant
            i <= seats@.len(),
            out@ == seats@.subrange(0, i as int),
        decreases seats@.len() - i,
    {
        out.push(seats[i]);
        proof {
            assert(out@ =~= seats@.subrange(0, (i + 1) as int));
        }
        i += 1;
    }
    proof {
        assert(out@ =~= seats@);
    }
    out
}

/// Compares two grids cell for cell.
pub fn grids_equal(a: &Vec<char>, b: &Vec<char>) -> (r: bool)
    ensures
        r == (a@ == b@),
{
    if a.len() != b.len() {
        return false;
    }
    let mut i: usize = 0;
    while i < a.len()
        invariant
            i <= a@.len(),
            a@.len() == b@.len(),
            forall|k: int| 0 <= k < i ==> a@[k] == b@[k],
        decreases a@.len() - i,
    {
        if a[i] != b[i] {
            return false;
        }
        i += 1;
    }
    proof {
        assert(a@ =~= b@);
    }
    true
}

} // verus!
