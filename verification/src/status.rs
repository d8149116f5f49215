//! The outcome of a board of marks.

use vstd::prelude::*;
use crate::cell::{Cell, Player};
use crate::lines::{complete, first_complete, full, lemma_first_complete, line, CELLS, LINES};
use crate::winner::{get_winner, winner_code, BLANK, DRAWN};

verus! {

/// How a game stands. It is a function of the board and is never stored.
#[derive(Clone, Copy, Debug, PartialEq, Eq, Structural)]
pub enum Status {
    /// No line is complete and a square is still empty.
    InProgress,
    /// A line is complete, in this player's mark.
    Won(Player),
    /// Every square is marked and no line is complete.
    Draw,
}

impl Status {
    /// The integer that stands for this outcome on a board of codes: the
    /// winner's code, `DRAWN` for a draw, `BLANK` while the game goes on.
    pub open spec fn code(self) -> i32 {
        match self {
            Status::InProgress => BLANK,
            Status::Won(p) => p.spec_mark().spec_code(),
            Status::Draw => DRAWN,
        }
    }

    /// What to tell the players about this outcome, if anything.
    pub open spec fn spec_announcement(self) -> Option<Seq<char>> {
        match self {
            Status::InProgress => None,
            Status::Won(Player::X) => Some("X's have won the game!"@),
            Status::Won(Player::O) => Some("O's have won the game!"@),
            Status::Draw => Some("It's a fockin' draw lassie"@),
        }
    }

    /// What to tell the players about this outcome: who has won, or that the
    /// game is drawn; nothing while it is in progress.
    pub fn announcement(self) -> (text: Option<&'static str>)
        ensures
            text is Some <==> self != Status::InProgress,
            match text {
                Some(t) => self.spec_announcement() == Some(t@),
                None => self.spec_announcement() is None,
            },
    {
        match self {
            Status::InProgress => None,
            Status::Won(Player::X) => Some("X's have won the game!"),
            Status::Won(Player::O) => Some("O's have won the game!"),
            Status::Draw => Some("It's a fockin' draw lassie"),
        }
    }
}

/// Player `p` holds line `k`: all three of its squares carry `p`'s mark.
pub open spec fn holds(cells: Seq<Cell>, p: Player, k: int) -> bool {
    let (a, b, c) = line(k);
    cells[a] == p.spec_mark() && cells[b] == p.spec_mark() && cells[c] == p.spec_mark()
}

/// Player `p` holds at least one of the eight lines.
pub open spec fn has_line(cells: Seq<Cell>, p: Player) -> bool {
    exists|k: int| 0 <= k < LINES && holds(cells, p, k)
}

/// The outcome of a board: won by whoever holds the first complete line, if
/// a line is complete; otherwise a draw when no square is empty, and in
/// progress while one still is.
pub open spec fn status_of(cells: Seq<Cell>) -> Status {
    let k = first_complete(cells, Cell::Empty, 0);
    if k < LINES {
        if cells[line(k).0] == Cell::X {
            Status::Won(Player::X)
        } else {
            Status::Won(Player::O)
        }
    } else if full(cells, Cell::Empty) {
        Status::Draw
    } else {
        Status::InProgress
    }
}

/// The board of codes that stands for a board of marks.
pub open spec fn codes_of(cells: Seq<Cell>) -> Seq<i32> {
    Seq::new(cells.len(), |i: int| cells[i].spec_code())
}

/// Coding a board keeps its lines: from any line on, the first complete
/// line of the codes is the first complete line of the marks.
pub proof fn lemma_codes_keep_lines(cells: Seq<Cell>, from: int)
    requires
        cells.len() == CELLS,
        0 <= from <= LINES,
    ensures
        first_complete(codes_of(cells), BLANK, from) == first_complete(cells, Cell::Empty, from),
    decreases LINES - from,
{
    if from < LINES {
        assert(complete(codes_of(cells), BLANK, from) == complete(cells, Cell::Empty, from));
        lemma_codes_keep_lines(cells, from + 1);
    }
}

/// The outcome of the coded board is the code of the board's outcome.
pub proof fn lemma_codes_keep_outcome(cells: Seq<Cell>)
    requires
        cells.len() == CELLS,
    ensures
        winner_code(codes_of(cells)) == status_of(cells).code(),
{
    lemma_codes_keep_lines(cells, 0);
    lemma_first_complete(cells, Cell::Empty, 0);
    let codes = codes_of(cells);
    if full(cells, Cell::Empty) {
        assert forall|i: int| 0 <= i < CELLS implies codes[i] != BLANK by {
            assert(cells[i] != Cell::Empty);
        }
    } else {
        let i = choose|i: int| 0 <= i < CELLS && cells[i] == Cell::Empty;
        assert(codes[i] == BLANK);
    }
}

/// Computes the outcome of a board.
pub fn board_status(cells: &[Cell; 9]) -> (status: Status)
    ensures
        status == status_of(cells@),
{
    let mut codes: [i32; 9] = [BLANK; 9];
    let mut i: usize = 0;
    while i < CELLS
        invariant
            i <= CELLS,
            forall|j: int| 0 <= j < i ==> codes@[j] == cells@[j].spec_code(),
        decreases CELLS - i,
    {
        codes[i] = cells[i].code();
        i += 1;
    }
    proof {
        assert(codes@ =~= codes_of(cells@));
        lemma_codes_keep_outcome(cells@);
    }
    let winner = get_winner(&codes);
    if winner == Cell::X.code() {
        Status::Won(Player::X)
    } else if winner == Cell::O.code() {
        Status::Won(Player::O)
    } else if winner == DRAWN {
        Status::Draw
    } else {
        Status::InProgress
    }
}

} // verus!
