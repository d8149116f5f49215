//! Who has won, on a board of integer codes.

use vstd::prelude::*;
use crate::lines::{complete, first_complete, full, line, line_cells, CELLS, LINES};

verus! {

/// The code of a square that holds no mark.
pub const BLANK: i32 = 0;

/// What `get_winner` answers when the board is full and no line is complete.
pub const DRAWN: i32 = -1;

/// The outcome of a board of codes: the code on the first complete line if
/// there is one; otherwise `DRAWN` when no square is blank, and `BLANK` while
/// one still is.
pub open spec fn winner_code(cells: Seq<i32>) -> i32 {
    let k = first_complete(cells, BLANK, 0);
    if k < LINES {
        cells[line(k).0]
    } else if full(cells, BLANK) {
        DRAWN
    } else {
        BLANK
    }
}

/// Scans the eight lines in order, then the squares.
pub fn get_winner(board: &[i32; 9]) -> (winner: i32)
    ensures
        winner == winner_code(board@),
{
    let mut k: usize = 0;
    while k < LINES
        invariant
            k <= LINES,
            first_complete(board@, BLANK, 0) == first_complete(board@, BLANK, k as int),
        decreases LINES - k,
    {
        let (a, b, c) = line_cells(k);
        if board[a] != BLANK && board[a] == board[b] && board[b] == board[c] {
            return board[a];
        }
        k += 1;
    }
    let mut i: usize = 0;
    while i < CELLS
        invariant
            i <= CELLS,
            first_complete(board@, BLANK, 0) == LINES,
            forall|j: int| 0 <= j < i ==> board@[j] != BLANK,
        decreases CELLS - i,
    {
        if board[i] == BLANK {
            return BLANK;
        }
        i += 1;
    }
    DRAWN
}

} // verus!
