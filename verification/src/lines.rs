//! The geometry of the board: nine squares in row-major order and the eight
//! lines of three through them.
//!
//! Everything here is generic in what a square holds, so the same definitions
//! serve a board of marks and a board of integer codes.

use vstd::prelude::*;

verus! {

/// Number of squares on the board.
pub const CELLS: usize = 9;

/// Number of squares in a row and in a column.
pub const SIDE: usize = 3;

/// Number of lines of three squares.
pub const LINES: usize = 8;

/// The squares of line `k`: the rows top to bottom (`k` in 0..3), then the
/// columns left to right (3..6), then the diagonal from the top left (6) and
/// the diagonal from the top right (7).
pub open spec fn line(k: int) -> (int, int, int) {
    if k < 3 {
        (3 * k, 3 * k + 1, 3 * k + 2)
    } else if k < 6 {
        (k - 3, k, k + 3)
    } else if k == 6 {
        (0, 4, 8)
    } else {
        (2, 4, 6)
    }
}

/// Line `k` is complete: its three squares hold the same value, and that
/// value is not `blank`.
pub open spec fn complete<T>(cells: Seq<T>, blank: T, k: int) -> bool {
    let (a, b, c) = line(k);
    cells[a] != blank && cells[a] == cells[b] && cells[b] == cells[c]
}

/// The first complete line at or after `from`, or `LINES` if there is none.
pub open spec fn first_complete<T>(cells: Seq<T>, blank: T, from: int) -> int
    decreases LINES - from,
{
    if from >= LINES {
        LINES as int
    } else if complete(cells, blank, from) {
        from
    } else {
        first_complete(cells, blank, from + 1)
    }
}

/// No square is `blank`.
pub open spec fn full<T>(cells: Seq<T>, blank: T) -> bool {
    forall|i: int| 0 <= i < CELLS ==> cells[i] != blank
}

/// `first_complete` is the least complete line: a line in range that is
/// complete while no earlier line from `from` on is, or `LINES` when no line
/// from `from` on is complete.
pub proof fn lemma_first_complete<T>(cells: Seq<T>, blank: T, from: int)
    requires
        0 <= from <= LINES,
    ensures
        from <= first_complete(cells, blank, from) <= LINES,
        first_complete(cells, blank, from) < LINES ==> complete(
            cells,
            blank,
            first_complete(cells, blank, from),
        ),
        forall|j: int|
            from <= j < first_complete(cells, blank, from) ==> !complete(cells, blank, j),
    decreases LINES - from,
{
    if from < LINES && !complete(cells, blank, from) {
        lemma_first_complete(cells, blank, from + 1);
    }
}

/// Where no line from `from` on is complete, `first_complete` finds none.
pub proof fn lemma_no_complete_line<T>(cells: Seq<T>, blank: T, from: int)
    requires
        0 <= from <= LINES,
        forall|j: int| from <= j < LINES ==> !complete(cells, blank, j),
    ensures
        first_complete(cells, blank, from) == LINES,
    decreases LINES - from,
{
    if from < LINES {
        lemma_no_complete_line(cells, blank, from + 1);
    }
}

/// A row and a column cross in one square, so where both are complete they
/// carry the same value: between a row and a column it makes no difference
/// which of the two is looked at first.
pub proof fn lemma_row_and_column_agree<T>(cells: Seq<T>, blank: T, row: int, column: int)
    requires
        0 <= row < SIDE,
        SIDE <= column < 2 * SIDE,
        complete(cells, blank, row),
        complete(cells, blank, column),
    ensures
        cells[line(row).0] == cells[line(column).0],
{
    let crossing = SIDE * row + (column - SIDE);
    assert(crossing == line(row).0 || crossing == line(row).1 || crossing == line(row).2);
    assert(crossing == line(column).0 || crossing == line(column).1 || crossing == line(
        column,
    ).2);
}

/// The index of the square in row `row` and column `col`, if the board has
/// such a square.
pub fn cell_index(row: usize, col: usize) -> (index: Option<usize>)
    ensures
        index == if row < SIDE && col < SIDE {
            Some((SIDE * row + col) as usize)
        } else {
            None
        },
        index matches Some(i) ==> i < CELLS,
{
    if row < SIDE && col < SIDE {
        Some(SIDE * row + col)
    } else {
        None
    }
}

/// The squares of line `k`, as indices into the board.
pub(crate) fn line_cells(k: usize) -> (t: (usize, usize, usize))
    requires
        k < LINES,
    ensures
        (t.0 as int, t.1 as int, t.2 as int) == line(k as int),
        t.0 < CELLS,
        t.1 < CELLS,
        t.2 < CELLS,
{
    if k < 3 {
        (3 * k, 3 * k + 1, 3 * k + 2)
    } else if k < 6 {
        (k - 3, k, k + 3)
    } else if k == 6 {
        (0, 4, 8)
    } else {
        (2, 4, 6)
    }
}

} // verus!
