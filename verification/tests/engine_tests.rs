use tictactoe::board::Game;
use tictactoe::brain::Brain;
use tictactoe::tree::GameTree;

const TL: u16 = 0b100_000_000;
const T: u16 = 0b010_000_000;
const TR: u16 = 0b001_000_000;
const L: u16 = 0b000_100_000;
const M: u16 = 0b000_010_000;
const R: u16 = 0b000_001_000;
const BL: u16 = 0b000_000_100;
const B: u16 = 0b000_000_010;
const BR: u16 = 0b000_000_001;

fn played(moves: &[u16]) -> Game {
    let mut g = Game::new();
    for &m in moves {
        g = g.make_move_copy(m);
    }
    g
}

#[test]
fn evaluator_empty_board_forces_no_win() {
    // Neither side can force a win from the empty board.
    let t = GameTree::from_game(Game::new());
    assert!(!t.x_inevitable);
    assert!(!t.o_inevitable);
    assert_eq!(t.children.len(), 9);
}

#[test]
fn evaluator_terminal_win_node() {
    let g = played(&[TL, BL, T, B, TR]);
    let t = GameTree::from_game(g);
    assert!(t.x_inevitable);
    assert!(!t.o_inevitable);
    assert!(!t.draw_inevitable);
    assert!(t.children.is_empty());
}

#[test]
fn evaluator_terminal_draw_node() {
    let g = Game {
        xs: TL | TR | L | B | BR,
        os: T | M | R | BL,
        x_turn: false,
        rematch: false,
        has_human: false,
    };
    let t = GameTree::from_game(g);
    assert!(!t.x_inevitable);
    assert!(!t.o_inevitable);
    assert!(t.draw_inevitable);
    assert!(t.children.is_empty());
}

#[test]
fn evaluator_draw_inevitable_when_every_completion_draws() {
    // The draw board above with X's last mark (br) still to be placed:
    // the only continuation is the draw.
    let g = Game {
        xs: TL | TR | L | B,
        os: T | M | R | BL,
        x_turn: true,
        rematch: false,
        has_human: false,
    };
    let t = GameTree::from_game(g);
    assert!(t.draw_inevitable);
    assert!(!t.x_inevitable);
    assert!(!t.o_inevitable);
    assert_eq!(t.children.len(), 1);
    assert_eq!(t.children[0].1, BR);
}

#[test]
fn evaluator_sees_forced_win_one_move_ahead() {
    // X holds two of the top row with the third cell open and to move:
    // a forced X win, whoever is asked.
    let g = played(&[TL, M, T, L]);
    let t = GameTree::from_game(g);
    assert!(t.x_inevitable);
    assert!(!t.o_inevitable);
}

#[test]
fn perfect_play_completes_the_top_row() {
    // X holds the top row minus tr, tr is open, and no earlier move in
    // canonical order forces a win: perfect play takes tr at once.
    let g = played(&[TL, M, T, L]);
    let t = GameTree::from_game(g);
    assert_eq!(t.best_move(&g), TR);
}

#[test]
fn perfect_play_blocks_the_threat() {
    // X threatens the top row; every O reply other than tr loses, and tr
    // does not: perfect play must block.
    let g = played(&[TL, M, T]);
    let t = GameTree::from_game(g);
    assert_eq!(t.best_move(&g), TR);
}

#[test]
fn perfect_play_never_picks_a_losing_move() {
    // O to move with exactly one non-losing reply (tr): however the random
    // tie-break falls, selection may never return a losing move.
    let g = played(&[TL, M, T]);
    let t = GameTree::from_game(g);
    for _ in 0..20 {
        assert_eq!(t.best_move(&g), TR);
    }
}

#[test]
fn advance_descends_to_the_played_subtree() {
    let g = Game::new();
    let t = GameTree::from_game(g);
    let child = t.advance(M);
    assert_eq!(child.root, g.make_move_copy(M));
    assert_eq!(child.children.len(), 8);
}

#[test]
fn random_brain_returns_the_only_legal_move() {
    // One open cell left (the draw board minus br): the random pick has a
    // single candidate, so the wrapper's answer must be exactly it.
    let g = Game {
        xs: TL | TR | L | B,
        os: T | M | R | BL,
        x_turn: true,
        rematch: false,
        has_human: false,
    };
    let brain = Brain::Random;
    assert_eq!(brain.best_move(&g), Some(BR));
}

#[test]
fn random_brain_moves_are_legal() {
    let g = played(&[M, TL]);
    let brain = Brain::Random;
    for _ in 0..50 {
        let m = brain.best_move(&g).unwrap();
        assert_eq!(m.count_ones(), 1);
        assert!(m < 512);
        assert_eq!((g.xs | g.os) & m, 0);
    }
}

#[test]
fn human_brain_defers_to_input() {
    let g = Game::new();
    let brain = Brain::Human;
    assert_eq!(brain.best_move(&g), None);
}

#[test]
fn brains_advance_without_state_unless_perfect() {
    let g = Game::new();
    let random = Brain::Random.advance(M);
    assert!(matches!(random, Brain::Random));
    let human = Brain::Human.advance(M);
    assert!(matches!(human, Brain::Human));
    let perfect = Brain::Perfect(GameTree::from_game(g)).advance(M);
    match perfect {
        Brain::Perfect(t) => assert_eq!(t.root, g.make_move_copy(M)),
        _ => panic!("perfect play must stay perfect play"),
    }
}
