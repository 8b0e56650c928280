use tictactoe::board::{line_at, Board, CellState, MoveError, Player};

fn board_of(marks: &[(usize, Player)]) -> Board {
    let mut b = Board::new();
    for &(i, p) in marks {
        b.make_move(i, p);
    }
    b
}

#[test]
fn new_board_is_empty() {
    let b = Board::new();
    assert_eq!(b.available_moves(), vec![0, 1, 2, 3, 4, 5, 6, 7, 8]);
    assert!(!b.is_full());
    assert!(!b.check_win(Player::X));
}

#[test]
fn available_moves_are_ascending_and_free() {
    let b = board_of(&[(4, Player::X), (0, Player::O), (8, Player::X)]);
    assert_eq!(b.available_moves(), vec![1, 2, 3, 5, 6, 7]);
    assert_eq!(b.moves_by(Player::X), vec![4, 8]);
    assert_eq!(b.moves_by(Player::O), vec![0]);
}

#[test]
fn played_moves_by_side() {
    let b = board_of(&[(2, Player::Human), (5, Player::AI), (6, Player::Human)]);
    assert_eq!(b.hu_played_moves(), vec![2, 6]);
    assert_eq!(b.ai_played_moves(), vec![5]);
}

#[test]
fn full_board_has_no_moves() {
    let order = [0, 1, 2, 4, 3, 5, 7, 6, 8];
    let mut b = Board::new();
    for (n, &i) in order.iter().enumerate() {
        b.make_move(i, if n % 2 == 0 { Player::X } else { Player::O });
    }
    assert!(b.is_full());
    assert!(b.available_moves().is_empty());
}

#[test]
fn occupy_errors() {
    let mut b = Board::new();
    assert_eq!(b.occupy(9, Player::X), Err(MoveError::IndexOutOfRange));
    assert_eq!(b.occupy(3, Player::X), Ok(()));
    assert_eq!(b.cell(3), CellState::Occupied(Player::X));
    assert_eq!(b.occupy(3, Player::O), Err(MoveError::CellOccupied));
    assert_eq!(b.cell(3), CellState::Occupied(Player::X));
}

#[test]
fn each_line_wins() {
    let lines = [
        [0, 1, 2],
        [3, 4, 5],
        [6, 7, 8],
        [0, 3, 6],
        [1, 4, 7],
        [2, 5, 8],
        [0, 4, 8],
        [2, 4, 6],
    ];
    for (k, l) in lines.iter().enumerate() {
        let (a, b, c) = line_at(k);
        let mut got = [a, b, c];
        got.sort();
        let mut want = *l;
        want.sort();
        assert_eq!(got, want);
        let board = board_of(&[(l[0], Player::O), (l[1], Player::O), (l[2], Player::O)]);
        assert!(board.check_win(Player::O));
        assert!(!board.check_win(Player::X));
    }
}

#[test]
fn check_win_matches_lines_on_every_board() {
    let lines = [
        [0, 1, 2],
        [3, 4, 5],
        [6, 7, 8],
        [0, 3, 6],
        [1, 4, 7],
        [2, 5, 8],
        [0, 4, 8],
        [2, 4, 6],
    ];
    for code in 0..19683u32 {
        let mut cells = [CellState::Empty; 9];
        let mut c = code;
        for cell in cells.iter_mut() {
            *cell = match c % 3 {
                0 => CellState::Empty,
                1 => CellState::Occupied(Player::X),
                _ => CellState::Occupied(Player::O),
            };
            c /= 3;
        }
        let b = Board { cells };
        for p in [Player::X, Player::O] {
            let want = lines
                .iter()
                .any(|l| l.iter().all(|&i| cells[i] == CellState::Occupied(p)));
            assert_eq!(b.check_win(p), want);
        }
    }
}

#[test]
fn two_marks_do_not_win() {
    let b = board_of(&[(0, Player::X), (4, Player::X), (2, Player::O)]);
    assert!(!b.check_win(Player::X));
    assert!(!b.check_win(Player::O));
}
