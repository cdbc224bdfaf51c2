use either::Either;
use tictactoe::board::{find_winner, Board, Player, Spot};
use tictactoe::game::{board, current_mover, new_game, submit, update_board, GameError, GameState, PlayerO, PlayerX};

const E: Spot = Spot::Empty;
const X: Spot = Spot::Player(Player::X);
const O: Spot = Spot::Player(Player::O);

fn play(moves: &[(usize, usize)]) -> GameState {
    let mut g = new_game();
    for &m in moves {
        g = submit(&g, m).expect("move should be accepted");
    }
    g
}

#[test]
fn first_move_hands_turn_to_x() {
    let g = new_game();
    assert_eq!(current_mover(&g), Player::O);
    let g = submit(&g, (0, 0)).unwrap();
    assert_eq!(current_mover(&g), Player::X);
    assert_eq!(board(&g), [[O, E, E], [E, E, E], [E, E, E]]);
}

#[test]
fn move_on_taken_cell_is_rejected() {
    let g = play(&[(0, 0)]);
    let before = board(&g);
    assert_eq!(submit(&g, (0, 0)).err(), Some(GameError::SpotTaken));
    assert_eq!(board(&g), before);
    assert_eq!(board(&g), [[O, E, E], [E, E, E], [E, E, E]]);
    assert_eq!(current_mover(&g), Player::X);
}

#[test]
fn top_row_wins_for_o() {
    let g = play(&[(0, 0), (1, 1), (0, 1), (2, 2)]);
    assert_eq!(submit(&g, (0, 2)).err(), Some(GameError::Winner(Player::O)));
}

#[test]
fn no_winner_after_three_moves() {
    let g = play(&[(1, 1), (0, 0), (0, 1)]);
    assert_eq!(find_winner(&board(&g)), None);
    assert_eq!(current_mover(&g), Player::X);
}

#[test]
fn turns_alternate_over_a_game() {
    let moves = [(0, 0), (0, 1), (0, 2), (1, 1), (1, 0), (1, 2), (2, 1), (2, 0), (2, 2)];
    let mut g = new_game();
    let mut expected = Player::O;
    for &m in moves.iter() {
        assert_eq!(current_mover(&g), expected);
        g = submit(&g, m).unwrap();
        expected = if expected == Player::O { Player::X } else { Player::O };
    }
    assert_eq!(current_mover(&g), Player::X);
    assert!(matches!(g, Either::Right(_)));
}

#[test]
fn full_board_without_line_has_no_winner() {
    let g = play(&[(0, 0), (0, 1), (0, 2), (1, 1), (1, 0), (1, 2), (2, 1), (2, 0), (2, 2)]);
    assert_eq!(board(&g), [[O, X, O], [O, X, X], [X, O, O]]);
    assert_eq!(find_winner(&board(&g)), None);
}

#[test]
fn taken_cells_keep_their_mark() {
    let g = play(&[(1, 1)]);
    let g2 = play(&[(1, 1), (0, 0), (2, 2), (0, 2)]);
    assert_eq!(board(&g)[1][1], O);
    assert_eq!(board(&g2)[1][1], O);
    assert_eq!(submit(&g2, (1, 1)).err(), Some(GameError::SpotTaken));
    assert_eq!(submit(&g2, (0, 0)).err(), Some(GameError::SpotTaken));
    assert_eq!(board(&g2)[0][0], X);
    assert_eq!(current_mover(&g2), Player::O);
}

#[test]
fn every_line_is_detected() {
    let lines: [[(usize, usize); 3]; 8] = [
        [(0, 0), (0, 1), (0, 2)],
        [(1, 0), (1, 1), (1, 2)],
        [(2, 0), (2, 1), (2, 2)],
        [(0, 0), (1, 0), (2, 0)],
        [(0, 1), (1, 1), (2, 1)],
        [(0, 2), (1, 2), (2, 2)],
        [(0, 0), (1, 1), (2, 2)],
        [(0, 2), (1, 1), (2, 0)],
    ];
    for line in lines.iter() {
        for &(p, s) in [(Player::X, X), (Player::O, O)].iter() {
            let mut b: Board = [[E; 3]; 3];
            for &(r, c) in line.iter() {
                b[r][c] = s;
            }
            assert_eq!(find_winner(&b), Some(p));
        }
    }
}

#[test]
fn line_with_other_marks_around_is_detected() {
    let b: Board = [[X, O, X], [O, X, O], [O, X, X]];
    assert_eq!(find_winner(&b), Some(Player::X));
    let b: Board = [[X, X, O], [E, O, X], [O, E, E]];
    assert_eq!(find_winner(&b), Some(Player::O));
}

#[test]
fn mixed_or_partial_lines_are_no_win() {
    assert_eq!(find_winner(&[[E; 3]; 3]), None);
    assert_eq!(find_winner(&[[X, X, O], [O, O, X], [X, O, X]]), None);
    assert_eq!(find_winner(&[[X, X, E], [E, O, E], [E, E, O]]), None);
}

#[test]
fn first_line_in_order_decides() {
    let b: Board = [[X, X, X], [O, O, O], [E, E, E]];
    assert_eq!(find_winner(&b), Some(Player::X));
    let b: Board = [[O, X, E], [O, X, E], [O, X, E]];
    assert_eq!(find_winner(&b), Some(Player::O));
}

#[test]
fn update_board_places_one_mark() {
    let b: Board = [[E; 3]; 3];
    let b2 = update_board::<PlayerX>(b, (2, 1)).unwrap();
    assert_eq!(b2, [[E, E, E], [E, E, E], [E, X, E]]);
    let b3 = update_board::<PlayerO>(b2, (0, 2)).unwrap();
    assert_eq!(b3, [[E, E, O], [E, E, E], [E, X, E]]);
    assert_eq!(update_board::<PlayerO>(b3, (2, 1)).err(), Some(GameError::SpotTaken));
}

#[test]
fn state_next_hands_the_turn_over() {
    let s = match new_game() {
        Either::Left(s) => s,
        Either::Right(_) => panic!("a new game starts with O"),
    };
    let s = s.next((2, 2)).unwrap();
    assert_eq!(s.board, [[E, E, E], [E, E, E], [E, E, O]]);
    let s = s.next((0, 0)).unwrap();
    assert_eq!(s.board, [[X, E, E], [E, E, E], [E, E, O]]);
    assert_eq!(s.next((0, 0)).err(), Some(GameError::SpotTaken));
}

#[test]
fn winning_move_in_a_column_for_x() {
    let g = play(&[(0, 0), (0, 1), (2, 2), (1, 1), (1, 0)]);
    assert_eq!(current_mover(&g), Player::X);
    assert_eq!(submit(&g, (2, 1)).err(), Some(GameError::Winner(Player::X)));
    assert_eq!(current_mover(&g), Player::X);
}

#[test]
fn winning_move_on_anti_diagonal() {
    let g = play(&[(0, 2), (0, 0), (1, 1), (0, 1)]);
    assert_eq!(submit(&g, (2, 0)).err(), Some(GameError::Winner(Player::O)));
}
