use tic_tac_toe::cell_index;
use tic_tac_toe::get_winner;
use tic_tac_toe::lines::{CELLS, LINES, SIDE};
use tic_tac_toe::winner::{BLANK, DRAWN};

const ALL_LINES: [[usize; 3]; 8] = [
    [0, 1, 2],
    [3, 4, 5],
    [6, 7, 8],
    [0, 3, 6],
    [1, 4, 7],
    [2, 5, 8],
    [0, 4, 8],
    [2, 4, 6],
];

#[test]
fn constants_describe_a_three_by_three_board() {
    assert_eq!(SIDE, 3);
    assert_eq!(CELLS, 9);
    assert_eq!(LINES, 8);
    assert_eq!(BLANK, 0);
    assert_eq!(DRAWN, -1);
}

#[test]
fn empty_codes_are_undecided() {
    assert_eq!(get_winner(&[0; 9]), 0);
}

#[test]
fn each_line_wins_for_each_code() {
    for line in ALL_LINES.iter() {
        for code in [1, 2] {
            let mut board = [0; 9];
            for &i in line.iter() {
                board[i] = code;
            }
            assert_eq!(get_winner(&board), code);
        }
    }
}

#[test]
fn two_in_a_line_is_no_win() {
    for line in ALL_LINES.iter() {
        for skip in 0..3 {
            let mut board = [0; 9];
            for (n, &i) in line.iter().enumerate() {
                if n != skip {
                    board[i] = 1;
                }
            }
            assert_eq!(get_winner(&board), 0);
        }
    }
}

#[test]
fn mixed_line_is_no_win() {
    assert_eq!(get_winner(&[1, 1, 2, 0, 0, 0, 0, 0, 0]), 0);
    assert_eq!(get_winner(&[1, 0, 0, 0, 2, 0, 0, 0, 1]), 0);
}

#[test]
fn full_codes_without_line_are_drawn() {
    assert_eq!(get_winner(&[1, 2, 1, 2, 1, 2, 2, 1, 2]), -1);
    assert_eq!(get_winner(&[1, 2, 1, 1, 2, 2, 2, 1, 1]), -1);
}

#[test]
fn full_codes_with_line_are_won() {
    assert_eq!(get_winner(&[1, 2, 1, 2, 1, 2, 1, 2, 1]), 1);
    assert_eq!(get_winner(&[2, 1, 1, 1, 2, 1, 1, 1, 2]), 2);
}

#[test]
fn one_blank_square_keeps_the_game_open() {
    for blank in 0..9 {
        let mut board = [1, 2, 1, 2, 1, 2, 2, 1, 2];
        board[blank] = 0;
        assert_eq!(get_winner(&board), 0);
    }
}

#[test]
fn earlier_line_decides_between_two_rows() {
    assert_eq!(get_winner(&[1, 1, 1, 2, 2, 2, 0, 0, 0]), 1);
    assert_eq!(get_winner(&[2, 2, 2, 1, 1, 1, 0, 0, 0]), 2);
    assert_eq!(get_winner(&[0, 0, 0, 2, 2, 2, 1, 1, 1]), 2);
}

#[test]
fn earlier_line_decides_between_two_columns() {
    assert_eq!(get_winner(&[2, 1, 0, 2, 1, 0, 2, 1, 0]), 2);
    assert_eq!(get_winner(&[0, 2, 1, 0, 2, 1, 0, 2, 1]), 2);
    assert_eq!(get_winner(&[1, 0, 2, 1, 0, 2, 1, 0, 2]), 1);
}

#[test]
fn any_code_but_blank_can_win() {
    assert_eq!(get_winner(&[7; 9]), 7);
    assert_eq!(get_winner(&[0, 0, -5, 0, -5, 0, -5, 0, 0]), -5);
    assert_eq!(get_winner(&[i32::MAX, 0, 0, i32::MAX, 0, 0, i32::MAX, 0, 0]), i32::MAX);
    assert_eq!(get_winner(&[-1, -1, -1, 0, 0, 0, 0, 0, 0]), -1);
}

#[test]
fn squares_are_numbered_row_by_row() {
    for row in 0..3 {
        for col in 0..3 {
            assert_eq!(cell_index(row, col), Some(3 * row + col));
        }
    }
    assert_eq!(cell_index(0, 0), Some(0));
    assert_eq!(cell_index(1, 1), Some(4));
    assert_eq!(cell_index(2, 1), Some(7));
    assert_eq!(cell_index(2, 2), Some(8));
}

#[test]
fn squares_off_the_board_have_no_index() {
    assert_eq!(cell_index(3, 0), None);
    assert_eq!(cell_index(0, 3), None);
    assert_eq!(cell_index(3, 3), None);
    assert_eq!(cell_index(usize::MAX, 0), None);
    assert_eq!(cell_index(0, usize::MAX), None);
    assert_eq!(cell_index(usize::MAX, usize::MAX), None);
}

#[test]
fn crossing_row_and_column_carry_one_code() {
    for row in 0..3 {
        for col in 0..3 {
            let mut board = [0; 9];
            for i in 0..3 {
                board[3 * row + i] = 2;
                board[3 * i + col] = 2;
            }
            assert_eq!(get_winner(&board), 2);
        }
    }
}
