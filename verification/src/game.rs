//! The game: a board, the player to move, and the three operations on them.

use vstd::prelude::*;
use crate::cell::{Cell, Player};
use crate::history::{play, reachable};
use crate::lines::CELLS;
use crate::status::{board_status, status_of, Status};

verus! {

/// Why a mark was not placed. None of these changes the game.
#[derive(Clone, Copy, Debug, PartialEq, Eq, Structural)]
pub enum MoveError {
    /// The index names no square of the board.
    InvalidIndex,
    /// The square already carries a mark.
    CellOccupied,
    /// The game is won or drawn.
    GameAlreadyDecided,
}

/// The mathematical state of a game: nine squares and the player to move.
pub struct GameState {
    pub cells: Seq<Cell>,
    pub active: Player,
}

impl GameState {
    /// The state every game starts from: an empty board, `X` to move.
    pub open spec fn fresh() -> GameState {
        GameState { cells: Seq::new(CELLS as nat, |i: int| Cell::Empty), active: Player::X }
    }

    /// The board has nine squares.
    pub open spec fn wf(self) -> bool {
        self.cells.len() == CELLS
    }

    /// The outcome of the board as it stands.
    pub open spec fn status(self) -> Status {
        status_of(self.cells)
    }

    /// What placing a mark at `index` answers. The index is judged first,
    /// then the square, then the state of the game.
    pub open spec fn verdict(self, index: int) -> Result<(), MoveError> {
        if !(0 <= index < CELLS) {
            Err(MoveError::InvalidIndex)
        } else if self.cells[index] != Cell::Empty {
            Err(MoveError::CellOccupied)
        } else if self.status() != Status::InProgress {
            Err(MoveError::GameAlreadyDecided)
        } else {
            Ok(())
        }
    }

    /// A mark can be placed at `index`: the square exists and is empty, and
    /// the game is in progress.
    pub open spec fn can_place(self, index: int) -> bool {
        &&& 0 <= index < CELLS
        &&& self.cells[index] == Cell::Empty
        &&& self.status() == Status::InProgress
    }

    /// The state after an attempt to place a mark at `index`: where a mark can
    /// be placed, the square takes the active player's mark and the turn
    /// passes; otherwise nothing changes.
    pub open spec fn place(self, index: int) -> GameState {
        if self.can_place(index) {
            GameState {
                cells: self.cells.update(index, self.active.spec_mark()),
                active: self.active.spec_other(),
            }
        } else {
            self
        }
    }
}

/// A game of tic-tac-toe.
#[derive(Clone, Copy, Debug, PartialEq, Eq)]
pub struct Game {
    board: [Cell; 9],
    active: Player,
}

impl View for Game {
    type V = GameState;

    closed spec fn view(&self) -> GameState {
        GameState { cells: self.board@, active: self.active }
    }
}

impl Default for Game {
    /// A game as `Game::new` starts it.
    fn default() -> (game: Game)
        ensures
            game@ == GameState::fresh(),
    {
        Game::new()
    }
}

impl Game {
    /// Every game is one that play has reached.
    #[verifier::type_invariant]
    spec fn inv(self) -> bool {
        reachable(self@)
    }

    /// Starts a game: an empty board, `X` to move.
    pub fn new() -> (game: Game)
        ensures
            game@ == GameState::fresh(),
            game@.status() == Status::InProgress,
            reachable(game@),
    {
        let board: [Cell; 9] = [Cell::Empty; 9];
        proof {
            assert(board@ =~= GameState::fresh().cells);
            assert(GameState::fresh() == play(Seq::empty()));
            lemma_fresh_in_progress();
        }
        Game { board, active: Player::X }
    }

    /// Every game has a board of nine squares.
    pub proof fn lemma_wf(self)
        ensures
            self@.wf(),
    {
    }

    /// The squares of the board, in row-major order.
    pub fn board(&self) -> (cells: &[Cell; 9])
        ensures
            cells@ == self@.cells,
            reachable(self@),
    {
        proof {
            use_type_invariant(self);
        }
        &self.board
    }

    /// What the square at `index` holds, if there is such a square.
    pub fn cell(&self, index: usize) -> (cell: Option<Cell>)
        ensures
            cell == if index < CELLS {
                Some(self@.cells[index as int])
            } else {
                None
            },
    {
        if index < CELLS {
            Some(self.board[index])
        } else {
            None
        }
    }

    /// The player to move.
    pub fn active_player(&self) -> (player: Player)
        ensures
            player == self@.active,
            reachable(self@),
    {
        proof {
            use_type_invariant(self);
        }
        self.active
    }

    /// The outcome of the board as it stands.
    pub fn current_status(&self) -> (status: Status)
        ensures
            status == self@.status(),
            reachable(self@),
    {
        proof {
            use_type_invariant(self);
        }
        board_status(&self.board)
    }

    /// Places the active player's mark at `index` and passes the turn, if the
    /// square exists and is empty and the game is in progress. Otherwise the
    /// game is left as it was and the answer says why.
    pub fn place_mark(&mut self, index: usize) -> (result: Result<(), MoveError>)
        ensures
            result == old(self)@.verdict(index as int),
            result is Ok <==> old(self)@.can_place(index as int),
            final(self)@ == old(self)@.place(index as int),
            result is Ok ==> final(self)@.cells == old(self)@.cells.update(
                index as int,
                old(self)@.active.spec_mark(),
            ) && final(self)@.active == old(self)@.active.spec_other(),
            result is Err ==> *final(self) == *old(self),
            reachable(final(self)@),
    {
        proof {
            use_type_invariant(&*self);
        }
        if index >= CELLS {
            return Err(MoveError::InvalidIndex);
        }
        if self.board[index] != Cell::Empty {
            return Err(MoveError::CellOccupied);
        }
        if self.current_status() != Status::InProgress {
            return Err(MoveError::GameAlreadyDecided);
        }
        proof {
            let moves = choose|moves: Seq<int>| self@ == play(moves);
            let longer = moves.push(index as int);
            assert(longer.drop_last() =~= moves);
            assert(reachable(play(longer)));
        }
        let mut board = self.board;
        board[index] = self.active.mark();
        *self = Game { board, active: self.active.other() };
        Ok(())
    }

    /// Clears the board and gives the move to `X`, whatever the game was.
    pub fn reset(&mut self)
        ensures
            final(self)@ == GameState::fresh(),
            final(self)@.status() == Status::InProgress,
            reachable(final(self)@),
    {
        *self = Game::new();
    }
}

/// On the empty board the game is in progress.
pub proof fn lemma_fresh_in_progress()
    ensures
        GameState::fresh().status() == Status::InProgress,
{
    let cells = GameState::fresh().cells;
    crate::lines::lemma_no_complete_line(cells, Cell::Empty, 0);
    assert(cells[0] == Cell::Empty);
}

} // verus!
