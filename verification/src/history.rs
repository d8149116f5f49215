//! Games as sequences of moves, and what holds of every board that play can
//! reach.

use vstd::prelude::*;
use crate::cell::{Cell, Player};
use crate::game::GameState;
use crate::lines::{complete, first_complete, full, lemma_first_complete, line, CELLS, LINES};
use crate::status::{has_line, holds, status_of, Status};

verus! {

/// The state after the attempts `moves`, made in order on a fresh game.
pub open spec fn play(moves: Seq<int>) -> GameState
    decreases moves.len(),
{
    if moves.len() == 0 {
        GameState::fresh()
    } else {
        play(moves.drop_last()).place(moves.last())
    }
}

/// Some sequence of attempts on a fresh game leads to `state`.
pub open spec fn reachable(state: GameState) -> bool {
    exists|moves: Seq<int>| state == play(moves)
}

/// How many of the attempts `moves` placed a mark.
pub open spec fn placements(moves: Seq<int>) -> nat
    decreases moves.len(),
{
    if moves.len() == 0 {
        0
    } else if play(moves.drop_last()).can_place(moves.last()) {
        placements(moves.drop_last()) + 1
    } else {
        placements(moves.drop_last())
    }
}

/// How many of the first `n` squares hold `mark`.
pub open spec fn marked(cells: Seq<Cell>, mark: Cell, n: int) -> nat
    decreases n,
{
    if n <= 0 {
        0
    } else if cells[n - 1] == mark {
        marked(cells, mark, n - 1) + 1
    } else {
        marked(cells, mark, n - 1)
    }
}

/// How many squares of the board hold `mark`.
pub open spec fn count(cells: Seq<Cell>, mark: Cell) -> nat {
    marked(cells, mark, CELLS as int)
}

/// The outcome is a function of the board alone: two states with the same
/// squares stand the same, whoever is to move, so asking again without a
/// placement in between gives the same answer.
pub proof fn lemma_status_of_board_alone(a: GameState, b: GameState)
    requires
        a.cells == b.cells,
    ensures
        a.status() == b.status(),
{
}

/// A line is complete exactly when one of the players holds it.
pub proof fn lemma_complete_is_held(cells: Seq<Cell>, k: int)
    ensures
        complete(cells, Cell::Empty, k) <==> holds(cells, Player::X, k) || holds(
            cells,
            Player::O,
            k,
        ),
{
}

/// The outcome of any board, case by case: it is won exactly when a player
/// holds a line, and then by a player who holds one; it is a draw exactly
/// when nobody holds a line and no square is empty; it is in progress
/// exactly when nobody holds a line and a square is empty.
pub proof fn lemma_status_cases(cells: Seq<Cell>)
    ensures
        status_of(cells) is Won <==> has_line(cells, Player::X) || has_line(cells, Player::O),
        forall|p: Player| status_of(cells) == Status::Won(p) ==> has_line(cells, p),
        status_of(cells) == Status::Draw <==> !has_line(cells, Player::X) && !has_line(
            cells,
            Player::O,
        ) && full(cells, Cell::Empty),
        status_of(cells) == Status::InProgress <==> !has_line(cells, Player::X) && !has_line(
            cells,
            Player::O,
        ) && !full(cells, Cell::Empty),
{
    lemma_first_complete(cells, Cell::Empty, 0);
    let k = first_complete(cells, Cell::Empty, 0);
    if k < LINES {
        lemma_complete_is_held(cells, k);
        if cells[line(k).0] == Cell::X {
            assert(holds(cells, Player::X, k));
        } else {
            assert(holds(cells, Player::O, k));
        }
    } else {
        assert forall|p: Player| !has_line(cells, p) by {
            if has_line(cells, p) {
                let j = choose|j: int| 0 <= j < LINES && holds(cells, p, j);
                lemma_complete_is_held(cells, j);
            }
        }
    }
}

/// Where only one player holds a line, that player has won, whichever line
/// is looked at first.
pub proof fn lemma_sole_line_holder_wins(cells: Seq<Cell>, p: Player)
    requires
        has_line(cells, p),
        !has_line(cells, p.spec_other()),
    ensures
        status_of(cells) == Status::Won(p),
{
    lemma_status_cases(cells);
}

/// Placing a mark changes one square and no other square; a square that
/// carries a mark keeps it through every attempt.
pub proof fn lemma_marks_stay(state: GameState, index: int, i: int)
    requires
        state.wf(),
        0 <= i < CELLS,
    ensures
        state.place(index).wf(),
        i != index ==> state.place(index).cells[i] == state.cells[i],
        state.cells[i] != Cell::Empty ==> state.place(index).cells[i] == state.cells[i],
{
}

/// After a mark is placed, only the player who placed it can hold a line.
pub proof fn lemma_placing_gives_no_line_to_other(state: GameState, index: int)
    requires
        state.wf(),
        state.can_place(index),
    ensures
        !has_line(state.place(index).cells, state.active.spec_other()),
{
    let other = state.active.spec_other();
    let after = state.place(index).cells;
    lemma_status_cases(state.cells);
    if has_line(after, other) {
        let k = choose|k: int| 0 <= k < LINES && holds(after, other, k);
        assert(holds(state.cells, other, k));
    }
}

/// Every state that play reaches has a board of nine squares.
pub proof fn lemma_play_wf(moves: Seq<int>)
    ensures
        play(moves).wf(),
    decreases moves.len(),
{
    if moves.len() > 0 {
        lemma_play_wf(moves.drop_last());
    }
}

/// Turns alternate: after the attempts `moves` on a fresh game it is `X` to
/// move if an even number of them placed a mark, and `O` if an odd number
/// did.
pub proof fn lemma_turns_alternate(moves: Seq<int>)
    ensures
        play(moves).active == if placements(moves) % 2 == 0 {
            Player::X
        } else {
            Player::O
        },
    decreases moves.len(),
{
    if moves.len() > 0 {
        lemma_turns_alternate(moves.drop_last());
    }
}

/// Writing `v` into square `i` moves one unit of count from what the square
/// held to `v`.
pub proof fn lemma_marked_update(cells: Seq<Cell>, i: int, v: Cell, mark: Cell, n: int)
    requires
        0 <= i < cells.len(),
        0 <= n <= cells.len(),
    ensures
        marked(cells.update(i, v), mark, n) + (if i < n && cells[i] == mark {
            1nat
        } else {
            0nat
        }) == marked(cells, mark, n) + (if i < n && v == mark {
            1nat
        } else {
            0nat
        }),
    decreases n,
{
    if n > 0 {
        lemma_marked_update(cells, i, v, mark, n - 1);
    }
}

/// On the fresh board every square is empty.
pub proof fn lemma_marked_fresh(mark: Cell, n: int)
    requires
        0 <= n <= CELLS,
    ensures
        marked(GameState::fresh().cells, mark, n) == if mark == Cell::Empty {
            n
        } else {
            0
        },
    decreases n,
{
    if n > 0 {
        lemma_marked_fresh(mark, n - 1);
    }
}

/// The marks on a reachable board are exactly the placements made: after
/// `n` placements `X` has made the first, third, ... of them and `O` the
/// others, and the remaining squares are empty.
pub proof fn lemma_marks_are_placements(moves: Seq<int>)
    ensures
        placements(moves) <= CELLS,
        count(play(moves).cells, Cell::X) == (placements(moves) + 1) / 2,
        count(play(moves).cells, Cell::O) == placements(moves) / 2,
        count(play(moves).cells, Cell::Empty) == CELLS - placements(moves),
    decreases moves.len(),
{
    if moves.len() == 0 {
        lemma_marked_fresh(Cell::X, CELLS as int);
        lemma_marked_fresh(Cell::O, CELLS as int);
        lemma_marked_fresh(Cell::Empty, CELLS as int);
    } else {
        let before = play(moves.drop_last());
        let index = moves.last();
        lemma_marks_are_placements(moves.drop_last());
        lemma_turns_alternate(moves.drop_last());
        lemma_play_wf(moves.drop_last());
        if before.can_place(index) {
            let v = before.active.spec_mark();
            lemma_marked_update(before.cells, index, v, Cell::X, CELLS as int);
            lemma_marked_update(before.cells, index, v, Cell::O, CELLS as int);
            lemma_marked_update(before.cells, index, v, Cell::Empty, CELLS as int);
        }
    }
}

/// On a board that play reaches at most one player holds a line, so the
/// outcome does not depend on the order in which the lines are looked at:
/// the game is won by `p` exactly when `p` holds a line.
pub proof fn lemma_one_winner(moves: Seq<int>)
    ensures
        !(has_line(play(moves).cells, Player::X) && has_line(play(moves).cells, Player::O)),
        forall|p: Player| play(moves).status() == Status::Won(p) <==> has_line(play(moves).cells, p),
    decreases moves.len(),
{
    if moves.len() == 0 {
        crate::game::lemma_fresh_in_progress();
    } else {
        let before = play(moves.drop_last());
        lemma_one_winner(moves.drop_last());
        lemma_play_wf(moves.drop_last());
        if before.can_place(moves.last()) {
            lemma_placing_gives_no_line_to_other(before, moves.last());
        }
    }
    lemma_status_cases(play(moves).cells);
}

/// On a reachable board the marks tell whose turn it is: `X` is to move
/// exactly when both players have placed the same number of marks, and
/// otherwise `X` has placed one more than `O`.
pub proof fn lemma_reachable_turn(state: GameState)
    requires
        reachable(state),
    ensures
        state.wf(),
        state.active == Player::X <==> count(state.cells, Cell::X) == count(state.cells, Cell::O),
        state.active == Player::O <==> count(state.cells, Cell::X) == count(state.cells, Cell::O)
            + 1,
{
    let moves = choose|moves: Seq<int>| state == play(moves);
    lemma_play_wf(moves);
    lemma_turns_alternate(moves);
    lemma_marks_are_placements(moves);
}

/// On a reachable board at most one player holds a line, and the game is won
/// by `p` exactly when `p` holds one.
pub proof fn lemma_reachable_one_winner(state: GameState)
    requires
        reachable(state),
    ensures
        !(has_line(state.cells, Player::X) && has_line(state.cells, Player::O)),
        forall|p: Player| state.status() == Status::Won(p) <==> has_line(state.cells, p),
{
    let moves = choose|moves: Seq<int>| state == play(moves);
    lemma_one_winner(moves);
}

} // verus!
