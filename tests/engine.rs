use tictactoe::board::{Board, CellState, Player};
use tictactoe::engine::{
    best_spot, choose_move, closest_spot, free_spot, minimax, play_block, Level,
};

fn board_of(marks: &[(usize, Player)]) -> Board {
    let mut b = Board::new();
    for &(i, p) in marks {
        b.make_move(i, p);
    }
    b
}

#[test]
fn easy_picks_by_roll_among_free_cells() {
    let b = board_of(&[(0, Player::Human), (4, Player::AI), (8, Player::Human)]);
    let free = b.available_moves();
    for roll in 0..100usize {
        let c = free_spot(&b, roll);
        assert_eq!(c, free[roll % free.len()]);
        assert_eq!(b.cell(c), CellState::Empty);
        assert_eq!(choose_move(&b, Player::AI, Player::Human, Level::Easy, roll), c);
    }
}

#[test]
fn medium_blocks_two_in_a_row() {
    let b = board_of(&[(0, Player::Human), (1, Player::Human), (4, Player::AI)]);
    assert_eq!(play_block(&b, Player::Human), Some(2));
    for roll in 0..20usize {
        assert_eq!(closest_spot(&b, Player::Human, roll), 2);
        assert_eq!(choose_move(&b, Player::AI, Player::Human, Level::Medium, roll), 2);
    }
}

#[test]
fn medium_blocks_first_line_in_order() {
    // Human threatens the middle column (1,4,7) and the first diagonal (0,4,8).
    let b = board_of(&[(4, Player::Human), (1, Player::Human), (0, Player::Human), (2, Player::AI)]);
    assert_eq!(play_block(&b, Player::Human), Some(7));
}

#[test]
fn medium_skips_lines_already_blocked() {
    let b = board_of(&[(0, Player::Human), (1, Player::Human), (2, Player::AI), (3, Player::Human)]);
    assert_eq!(play_block(&b, Player::Human), Some(6));
}

#[test]
fn medium_takes_center_after_a_corner() {
    let b = board_of(&[(0, Player::Human)]);
    assert_eq!(play_block(&b, Player::Human), None);
    assert_eq!(closest_spot(&b, Player::Human, 5), 4);
}

#[test]
fn medium_answers_center_with_a_corner() {
    let b = board_of(&[(4, Player::Human)]);
    assert_eq!(closest_spot(&b, Player::Human, 0), 0);
    assert_eq!(closest_spot(&b, Player::Human, 1), 2);
    assert_eq!(closest_spot(&b, Player::Human, 2), 6);
    assert_eq!(closest_spot(&b, Player::Human, 3), 8);
    assert_eq!(closest_spot(&b, Player::Human, 7), 8);
}

#[test]
fn medium_opposite_corner_on_third_move() {
    let b = board_of(&[(4, Player::Human), (0, Player::AI), (8, Player::Human)]);
    // Human holds 8 and the centre: the corner paired with 8 is 0, taken; 2 and 6 are not held.
    assert_eq!(closest_spot(&b, Player::Human, 0), b.available_moves()[0]);
    let b = board_of(&[(4, Player::Human), (8, Player::AI), (2, Player::Human)]);
    // Line 2-4-6 is a threat, so the block comes first and is the same cell.
    assert_eq!(closest_spot(&b, Player::Human, 0), 6);
}

#[test]
fn medium_edge_on_third_move() {
    let b = board_of(&[(0, Player::Human), (4, Player::AI), (8, Player::Human)]);
    assert_eq!(closest_spot(&b, Player::Human, 3), 1);
    let b = board_of(&[(1, Player::Human), (4, Player::AI), (8, Player::Human)]);
    assert_eq!(closest_spot(&b, Player::Human, 3), 7);
}

#[test]
fn medium_random_fallback() {
    let b = board_of(&[(0, Player::Human), (4, Player::AI), (8, Player::Human), (1, Player::AI), (7, Player::Human)]);
    // Line 6-7-8 is a threat.
    assert_eq!(closest_spot(&b, Player::Human, 0), 6);
    let b = board_of(&[(0, Player::Human), (4, Player::AI), (5, Player::Human), (8, Player::AI)]);
    let free = b.available_moves();
    for roll in 0..10usize {
        assert_eq!(closest_spot(&b, Player::Human, roll), free[roll % free.len()]);
    }
}

#[test]
fn minimax_empty_board_is_a_draw() {
    let b = Board::new();
    let m = minimax(&b, Player::AI, Player::Human, true);
    assert_eq!(m.score, 0);
    assert_eq!(m.index, 0);
}

#[test]
fn minimax_takes_a_win() {
    let b = board_of(&[(0, Player::AI), (1, Player::AI), (3, Player::Human), (4, Player::Human)]);
    let m = minimax(&b, Player::AI, Player::Human, true);
    assert_eq!(m.score, 10);
    assert_eq!(m.index, 2);
    assert_eq!(best_spot(&b, Player::AI, Player::Human), 2);
}

#[test]
fn minimax_blocks_a_loss() {
    let b = board_of(&[(0, Player::Human), (1, Player::Human), (4, Player::AI)]);
    assert_eq!(best_spot(&b, Player::AI, Player::Human), 2);
    assert_eq!(choose_move(&b, Player::AI, Player::Human, Level::Hard, 0), 2);
}

#[test]
fn minimax_scores_terminal_boards() {
    let b = board_of(&[(0, Player::Human), (1, Player::Human), (2, Player::Human)]);
    assert_eq!(minimax(&b, Player::AI, Player::Human, true).score, -10);
    let b = board_of(&[(2, Player::AI), (4, Player::AI), (6, Player::AI)]);
    assert_eq!(minimax(&b, Player::AI, Player::Human, false).score, 10);
}

#[test]
fn minimax_minimizer_picks_lowest() {
    // AI threatens 0-1-2; the rival to move must block at 2.
    let b = board_of(&[(0, Player::AI), (1, Player::AI), (4, Player::Human)]);
    let m = minimax(&b, Player::AI, Player::Human, false);
    assert_eq!(m.index, 2);
}

#[test]
fn minimax_lost_position_scores_minus_ten() {
    // Human has a fork: 0-1-2 and 0-3-6 both open.
    let b = board_of(&[(0, Player::Human), (1, Player::Human), (3, Player::Human), (4, Player::AI), (8, Player::AI)]);
    let m = minimax(&b, Player::AI, Player::Human, true);
    assert_eq!(m.score, -10);
}
