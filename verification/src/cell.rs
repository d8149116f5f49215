//! What a square of the board holds, and who plays.

use vstd::prelude::*;

verus! {

/// One square of the board.
#[derive(Clone, Copy, Debug, PartialEq, Eq, Structural)]
pub enum Cell {
    Empty,
    X,
    O,
}

/// One of the two players. `X` moves first.
#[derive(Clone, Copy, Debug, PartialEq, Eq, Structural)]
pub enum Player {
    X,
    O,
}

impl Cell {
    /// The integer that stands for this square on a board of codes.
    pub open spec fn spec_code(self) -> i32 {
        match self {
            Cell::Empty => 0,
            Cell::X => 1,
            Cell::O => 2,
        }
    }

    /// The integer that stands for this square on a board of codes.
    #[verifier::when_used_as_spec(spec_code)]
    pub fn code(self) -> (c: i32)
        ensures
            c == self.spec_code(),
    {
        match self {
            Cell::Empty => 0,
            Cell::X => 1,
            Cell::O => 2,
        }
    }

    /// The label of this square on the board.
    pub open spec fn spec_symbol(self) -> Seq<char> {
        match self {
            Cell::Empty => " - "@,
            Cell::X => "X"@,
            Cell::O => "O"@,
        }
    }

    /// The label of this square on the board.
    pub fn symbol(self) -> (label: &'static str)
        ensures
            label@ == self.spec_symbol(),
    {
        match self {
            Cell::Empty => " - ",
            Cell::X => "X",
            Cell::O => "O",
        }
    }
}

impl Player {
    /// The mark this player leaves on a square.
    pub open spec fn spec_mark(self) -> Cell {
        match self {
            Player::X => Cell::X,
            Player::O => Cell::O,
        }
    }

    /// The player who moves after this one.
    pub open spec fn spec_other(self) -> Player {
        match self {
            Player::X => Player::O,
            Player::O => Player::X,
        }
    }

    /// The mark this player leaves on a square.
    #[verifier::when_used_as_spec(spec_mark)]
    pub fn mark(self) -> (c: Cell)
        ensures
            c == self.spec_mark(),
    {
        match self {
            Player::X => Cell::X,
            Player::O => Cell::O,
        }
    }

    /// The player who moves after this one.
    #[verifier::when_used_as_spec(spec_other)]
    pub fn other(self) -> (p: Player)
        ensures
            p == self.spec_other(),
    {
        match self {
            Player::X => Player::O,
            Player::O => Player::X,
        }
    }
}

} // verus!
