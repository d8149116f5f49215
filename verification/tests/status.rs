use tic_tac_toe::board_status;
use tic_tac_toe::get_winner;
use tic_tac_toe::{Cell, Player, Status};

const E: Cell = Cell::Empty;
const X: Cell = Cell::X;
const O: Cell = Cell::O;

fn codes(cells: &[Cell; 9]) -> [i32; 9] {
    let mut out = [0; 9];
    for i in 0..9 {
        out[i] = cells[i].code();
    }
    out
}

#[test]
fn codes_of_the_marks() {
    assert_eq!(Cell::Empty.code(), 0);
    assert_eq!(Cell::X.code(), 1);
    assert_eq!(Cell::O.code(), 2);
}

#[test]
fn labels_of_the_marks() {
    assert_eq!(Cell::Empty.symbol(), " - ");
    assert_eq!(Cell::X.symbol(), "X");
    assert_eq!(Cell::O.symbol(), "O");
}

#[test]
fn marks_of_the_players() {
    assert_eq!(Player::X.mark(), Cell::X);
    assert_eq!(Player::O.mark(), Cell::O);
}

#[test]
fn players_take_turns() {
    assert_eq!(Player::X.other(), Player::O);
    assert_eq!(Player::O.other(), Player::X);
    assert_eq!(Player::X.other().other(), Player::X);
}

#[test]
fn announcements() {
    assert_eq!(Status::InProgress.announcement(), None);
    assert_eq!(Status::Won(Player::X).announcement(), Some("X's have won the game!"));
    assert_eq!(Status::Won(Player::O).announcement(), Some("O's have won the game!"));
    assert_eq!(Status::Draw.announcement(), Some("It's a fockin' draw lassie"));
}

#[test]
fn announcement_names_the_winner_by_label() {
    for p in [Player::X, Player::O] {
        let expected = format!("{}'s have won the game!", p.mark().symbol());
        assert_eq!(Status::Won(p).announcement(), Some(expected.as_str()));
    }
}

#[test]
fn empty_board_status() {
    assert_eq!(board_status(&[E; 9]), Status::InProgress);
}

#[test]
fn every_line_wins_for_either_player() {
    let lines: [[usize; 3]; 8] = [
        [0, 1, 2],
        [3, 4, 5],
        [6, 7, 8],
        [0, 3, 6],
        [1, 4, 7],
        [2, 5, 8],
        [0, 4, 8],
        [2, 4, 6],
    ];
    for line in lines.iter() {
        for p in [Player::X, Player::O] {
            let mut cells = [E; 9];
            for &i in line.iter() {
                cells[i] = p.mark();
            }
            assert_eq!(board_status(&cells), Status::Won(p));
        }
    }
}

#[test]
fn full_board_without_line_is_draw() {
    let cells = [X, O, X, O, X, O, O, X, O];
    assert_eq!(board_status(&cells), Status::Draw);
    assert_eq!(get_winner(&codes(&cells)), -1);
}

#[test]
fn nearly_full_board_without_line_is_in_progress() {
    let cells = [X, O, X, O, X, O, O, X, E];
    assert_eq!(board_status(&cells), Status::InProgress);
}

#[test]
fn full_board_with_line_is_won() {
    let cells = [X, O, X, O, X, O, X, O, X];
    assert_eq!(board_status(&cells), Status::Won(Player::X));
}

#[test]
fn first_line_decides_on_a_board_with_two_winners() {
    assert_eq!(board_status(&[X, X, X, O, O, O, E, E, E]), Status::Won(Player::X));
    assert_eq!(board_status(&[O, O, O, X, X, X, E, E, E]), Status::Won(Player::O));
    assert_eq!(board_status(&[E, O, X, E, O, X, E, O, X]), Status::Won(Player::O));
}

#[test]
fn status_agrees_with_the_codes() {
    let boards: [[Cell; 9]; 6] = [
        [E; 9],
        [X, X, X, E, O, O, E, E, E],
        [O, X, X, E, O, X, E, E, O],
        [X, O, X, O, X, O, O, X, O],
        [X, O, E, E, E, E, E, E, E],
        [E, E, O, E, O, X, O, X, X],
    ];
    let expected = [0, 1, 2, -1, 0, 2];
    for (cells, want) in boards.iter().zip(expected.iter()) {
        assert_eq!(get_winner(&codes(cells)), *want);
        let status = board_status(cells);
        let code = match status {
            Status::InProgress => 0,
            Status::Won(p) => p.mark().code(),
            Status::Draw => -1,
        };
        assert_eq!(code, *want);
    }
}
