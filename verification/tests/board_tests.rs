use tictactoe::board::{Game, IllegalMoveError};

// Cell bits, named as the labels name them.
const TL: u16 = 0b100_000_000;
const T: u16 = 0b010_000_000;
const TR: u16 = 0b001_000_000;
const L: u16 = 0b000_100_000;
const M: u16 = 0b000_010_000;
const R: u16 = 0b000_001_000;
const BL: u16 = 0b000_000_100;
const B: u16 = 0b000_000_010;
const BR: u16 = 0b000_000_001;

fn played(moves: &[u16]) -> Game {
    let mut g = Game::new();
    for &m in moves {
        g = g.make_move_copy(m);
    }
    g
}

#[test]
fn new_game_is_empty() {
    let g = Game::new();
    assert_eq!(g.xs, 0);
    assert_eq!(g.os, 0);
    assert!(g.x_turn);
    assert!(!g.rematch);
    assert!(!g.has_human);
}

#[test]
fn legal_moves_plus_occupied_is_nine() {
    let mut g = Game::new();
    let script = [M, TL, B, TR, L];
    assert_eq!(g.valid_moves_vec().len(), 9);
    for &m in script.iter() {
        g = g.make_move_copy(m);
        let occupied = (g.xs | g.os).count_ones() as usize;
        assert_eq!(g.valid_moves_vec().len() + occupied, 9);
    }
}

#[test]
fn valid_moves_vec_is_in_ascending_cell_order() {
    let g = played(&[BR]);
    assert_eq!(g.valid_moves_vec(), vec![B, BL, R, M, L, TR, T, TL]);
    let empty = Game::new();
    assert_eq!(empty.valid_moves_vec(), vec![BR, B, BL, R, M, L, TR, T, TL]);
}

#[test]
fn apply_is_pure() {
    let g = played(&[M, TL]);
    let before = g.clone();
    let once = g.make_move_copy(T);
    let twice = g.make_move_copy(T);
    assert_eq!(once, twice);
    assert_eq!(g, before);
    assert_eq!(g.apply(T), Ok(once));
    assert_eq!(g, before);
}

#[test]
fn apply_alternates_turns_and_sets_marks() {
    let g = Game::new();
    let g1 = g.make_move_copy(M);
    assert_eq!(g1.xs, M);
    assert_eq!(g1.os, 0);
    assert!(!g1.x_turn);
    let g2 = g1.make_move_copy(TL);
    assert_eq!(g2.xs, M);
    assert_eq!(g2.os, TL);
    assert!(g2.x_turn);
}

#[test]
fn apply_rejects_illegal_moves() {
    let g = played(&[M]);
    assert_eq!(g.apply(M), Err(IllegalMoveError));
    assert_eq!(g.apply(0), Err(IllegalMoveError));
    assert_eq!(g.apply(M | TL), Err(IllegalMoveError));
    assert_eq!(g.apply(0b10_000_000_000), Err(IllegalMoveError));
}

#[test]
fn game_over_detects_row_win() {
    // X claims the whole top row.
    let g = played(&[TL, BL, T, B, TR]);
    assert_eq!(g.game_over(), (true, true, false));
}

#[test]
fn game_over_detects_column_win() {
    // O claims the left column.
    let g = played(&[M, TL, T, L, BR, BL]);
    assert_eq!(g.game_over(), (true, false, true));
}

#[test]
fn game_over_detects_diagonal_win() {
    let g = played(&[TL, T, M, R, BR]);
    assert_eq!(g.game_over(), (true, true, false));
}

#[test]
fn game_over_detects_draw() {
    // X O X
    // X O O
    // O X X  -- full, no line for either side.
    let g = Game {
        xs: TL | TR | L | B | BR,
        os: T | M | R | BL,
        x_turn: false,
        rematch: false,
        has_human: false,
    };
    assert_eq!(g.game_over(), (true, false, false));
}

#[test]
fn game_over_ongoing() {
    let g = played(&[M, TL, T]);
    assert_eq!(g.game_over(), (false, false, false));
}

#[test]
fn start_resets_position() {
    let mut g = played(&[M, TL, T, L]);
    g.start();
    assert_eq!(g.xs, 0);
    assert_eq!(g.os, 0);
    assert!(g.x_turn);
    assert!(!g.rematch);
    assert!(!g.has_human);
}
