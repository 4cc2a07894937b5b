use tictactoe::board::Game;
use tictactoe::brain::Brain;
use tictactoe::session::{
    make_brain, parse_brain, parse_label, read_move, rematch_answer, BrainKind, MoveError,
    RematchDecision, Session,
};

const TL: u16 = 0b100_000_000;
const T: u16 = 0b010_000_000;
const TR: u16 = 0b001_000_000;
const L: u16 = 0b000_100_000;
const M: u16 = 0b000_010_000;
const R: u16 = 0b000_001_000;
const BL: u16 = 0b000_000_100;
const B: u16 = 0b000_000_010;
const BR: u16 = 0b000_000_001;

fn played(moves: &[u16]) -> Game {
    let mut g = Game::new();
    for &m in moves {
        g = g.make_move_copy(m);
    }
    g
}

#[test]
fn labels_name_their_cells() {
    assert_eq!(parse_label("tl"), Some(TL));
    assert_eq!(parse_label("t"), Some(T));
    assert_eq!(parse_label("tr"), Some(TR));
    assert_eq!(parse_label("l"), Some(L));
    assert_eq!(parse_label("m"), Some(M));
    assert_eq!(parse_label("r"), Some(R));
    assert_eq!(parse_label("bl"), Some(BL));
    assert_eq!(parse_label("b"), Some(B));
    assert_eq!(parse_label("br"), Some(BR));
    assert_eq!(parse_label("zz"), None);
    assert_eq!(parse_label(""), None);
    assert_eq!(parse_label("TL"), None);
}

#[test]
fn unparsable_label_leaves_the_position_unchanged() {
    let g = played(&[M, TL]);
    let before = g.clone();
    assert_eq!(read_move(&g, "zz"), Err(MoveError::Unparsable));
    assert_eq!(g, before);
}

#[test]
fn occupied_cell_is_rejected() {
    let g = played(&[M, TL]);
    assert_eq!(read_move(&g, "m"), Err(MoveError::Occupied));
    assert_eq!(read_move(&g, "tl"), Err(MoveError::Occupied));
    assert_eq!(read_move(&g, "b"), Ok(B));
}

#[test]
fn brain_names_parse() {
    assert_eq!(parse_brain("Perfect"), Some(BrainKind::Perfect));
    assert_eq!(parse_brain("Human"), Some(BrainKind::Human));
    assert_eq!(parse_brain("Random"), Some(BrainKind::Random));
    assert_eq!(parse_brain("perfect"), None);
    assert_eq!(parse_brain("HAL"), None);
}

#[test]
fn rematch_answers_decide() {
    assert_eq!(rematch_answer("y"), RematchDecision::Again);
    assert_eq!(rematch_answer("n"), RematchDecision::Quit);
    assert_eq!(rematch_answer("maybe"), RematchDecision::Unrecognized);
    assert_eq!(rematch_answer(""), RematchDecision::Unrecognized);
}

#[test]
fn rematch_yes_resets_the_position() {
    let mut g = played(&[M, TL, T, L]);
    if rematch_answer("y") == RematchDecision::Again {
        g.start();
    }
    assert_eq!(g.xs, 0);
    assert_eq!(g.os, 0);
    assert!(g.x_turn);
}

#[test]
fn perfect_against_perfect_always_draws() {
    // From the empty board, two perfect players end every game in a draw,
    // whichever way the random tie-breaks fall.
    for _ in 0..5 {
        let g = Game::new();
        let x_brain = make_brain(BrainKind::Perfect, &g);
        let o_brain = make_brain(BrainKind::Perfect, &g);
        let mut session = Session::new(g, x_brain, o_brain);
        let mut turns: usize = 0;
        while !session.over {
            let m = session.select_move().expect("machine players always move");
            session.play_move(m);
            turns += 1;
            assert!(turns <= 9);
        }
        assert_eq!(session.game.game_over(), (true, false, false));
        assert_eq!(turns, 9);
    }
}

#[test]
fn session_tracks_moves_and_end() {
    let g = Game::new();
    let mut session = Session::new(g, Brain::Human, Brain::Human);
    assert!(!session.over);
    assert_eq!(session.select_move(), None);
    for (label, who_x) in [("tl", true), ("m", false), ("t", true), ("l", false), ("tr", true)] {
        assert_eq!(session.game.x_turn, who_x);
        let m = read_move(&session.game, label).expect("label is open");
        session.play_move(m);
    }
    assert!(session.over);
    assert_eq!(session.game.game_over(), (true, true, false));
}

#[test]
fn make_brain_builds_the_chosen_strategy() {
    let g = Game::new();
    assert!(matches!(make_brain(BrainKind::Human, &g), Brain::Human));
    assert!(matches!(make_brain(BrainKind::Random, &g), Brain::Random));
    match make_brain(BrainKind::Perfect, &g) {
        Brain::Perfect(t) => assert_eq!(t.root, g),
        _ => panic!("Perfect must build the evaluation tree"),
    }
}
