use connect4::board::{find_four, is_top_full, landing_row, Cells};

fn with(cells: &[(usize, usize)], p: u8) -> Cells {
    let mut board: Cells = [[0; 7]; 6];
    for &(r, c) in cells {
        board[r][c] = p;
    }
    board
}

#[test]
fn finds_four_to_the_right() {
    let board = with(&[(5, 3), (5, 4), (5, 5), (5, 6)], 1);
    assert_eq!(find_four(&board, 1), Some([[5, 3], [5, 4], [5, 5], [5, 6]]));
    assert_eq!(find_four(&board, 2), None);
}

#[test]
fn finds_four_downwards() {
    let board = with(&[(2, 0), (3, 0), (4, 0), (5, 0)], 2);
    assert_eq!(find_four(&board, 2), Some([[2, 0], [3, 0], [4, 0], [5, 0]]));
    assert_eq!(find_four(&board, 1), None);
}

#[test]
fn finds_both_diagonals() {
    let down_right = with(&[(0, 0), (1, 1), (2, 2), (3, 3)], 1);
    assert_eq!(find_four(&down_right, 1), Some([[0, 0], [1, 1], [2, 2], [3, 3]]));
    let down_left = with(&[(2, 6), (3, 5), (4, 4), (5, 3)], 1);
    assert_eq!(find_four(&down_left, 1), Some([[2, 6], [3, 5], [4, 4], [5, 3]]));
}

#[test]
fn finds_the_first_of_several() {
    let mut board = with(&[(5, 0), (5, 1), (5, 2), (5, 3), (5, 4)], 1);
    assert_eq!(find_four(&board, 1), Some([[5, 0], [5, 1], [5, 2], [5, 3]]));
    for r in 1..5 {
        board[r][6] = 1;
    }
    assert_eq!(find_four(&board, 1), Some([[1, 6], [2, 6], [3, 6], [4, 6]]));
}

#[test]
fn rightwards_comes_before_downwards() {
    let board = with(&[(2, 0), (2, 1), (2, 2), (2, 3), (3, 0), (4, 0), (5, 0)], 1);
    assert_eq!(find_four(&board, 1), Some([[2, 0], [2, 1], [2, 2], [2, 3]]));
}

#[test]
fn three_are_not_four_and_lines_do_not_wrap() {
    assert_eq!(find_four(&with(&[(5, 0), (5, 1), (5, 2)], 1), 1), None);
    assert_eq!(find_four(&with(&[(3, 5), (3, 6), (4, 0), (4, 1)], 1), 1), None);
    assert_eq!(find_four(&with(&[(3, 2), (4, 1), (5, 0), (2, 2)], 1), 1), None);
}

#[test]
fn a_piece_lands_on_the_lowest_free_cell() {
    let mut board: Cells = [[0; 7]; 6];
    assert_eq!(landing_row(&board, 3), Some(5));
    board[5][3] = 1;
    assert_eq!(landing_row(&board, 3), Some(4));
    for row in board.iter_mut() {
        row[3] = 2;
    }
    assert_eq!(landing_row(&board, 3), None);
    assert_eq!(landing_row(&board, 4), Some(5));
}

#[test]
fn the_top_row_decides_whether_the_board_is_full() {
    let mut board: Cells = [[1; 7]; 6];
    assert!(is_top_full(&board));
    board[0][6] = 0;
    assert!(!is_top_full(&board));
}
