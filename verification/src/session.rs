//! The game-session layer: parsing and validating the textual inputs
//! (cell labels, strategy names, rematch answers) and the turn-by-turn
//! state machine that drives a game.  All prompting and rendering stays
//! with the caller; this module only decides.

use vstd::prelude::*;
use crate::board::{Game, apply_spec, cell_open, is_move, legal, terminal};
use crate::brain::Brain;
use crate::tree::GameTree;

verus! {

/// A move label could not be turned into a playable move: either it names
/// no cell, or the cell it names is already claimed.
#[derive(Clone, Copy, PartialEq, Eq, Structural, Debug)]
pub enum MoveError {
    Unparsable,
    Occupied,
}

/// The three strategy names a player may choose.
#[derive(Clone, Copy, PartialEq, Eq, Structural, Debug)]
pub enum BrainKind {
    Perfect,
    Human,
    Random,
}

/// What a rematch answer means: play again, quit, or ask again.
#[derive(Clone, Copy, PartialEq, Eq, Structural, Debug)]
pub enum RematchDecision {
    Again,
    Quit,
    Unrecognized,
}

/// The cell named by a label: `tl` through `br`, top row down, as the
/// single bit of that cell.
pub open spec fn label_code(s: Seq<char>) -> Option<u16> {
    if s == "tl"@ {
        Some(0b100_000_000u16)
    } else if s == "t"@ {
        Some(0b010_000_000u16)
    } else if s == "tr"@ {
        Some(0b001_000_000u16)
    } else if s == "l"@ {
        Some(0b000_100_000u16)
    } else if s == "m"@ {
        Some(0b000_010_000u16)
    } else if s == "r"@ {
        Some(0b000_001_000u16)
    } else if s == "bl"@ {
        Some(0b000_000_100u16)
    } else if s == "b"@ {
        Some(0b000_000_010u16)
    } else if s == "br"@ {
        Some(0b000_000_001u16)
    } else {
        None
    }
}

/// What reading a move label against a position yields: the move when the
/// label names an open cell, and the exact error otherwise.
pub open spec fn read_move_result(g: Game, s: Seq<char>) -> Result<u16, MoveError> {
    match label_code(s) {
        None => Err(MoveError::Unparsable),
        Some(m) => if cell_open(g, m) {
            Ok(m)
        } else {
            Err(MoveError::Occupied)
        },
    }
}

/// The strategy named by a label, if any.
pub open spec fn brain_choice(s: Seq<char>) -> Option<BrainKind> {
    if s == "Perfect"@ {
        Some(BrainKind::Perfect)
    } else if s == "Human"@ {
        Some(BrainKind::Human)
    } else if s == "Random"@ {
        Some(BrainKind::Random)
    } else {
        None
    }
}

/// What a rematch answer decides: `y` plays again, `n` quits, anything
/// else is asked again.
pub open spec fn rematch_result(s: Seq<char>) -> RematchDecision {
    if s == "y"@ {
        RematchDecision::Again
    } else if s == "n"@ {
        RematchDecision::Quit
    } else {
        RematchDecision::Unrecognized
    }
}

proof fn lemma_label_codes_are_moves()
    by (bit_vector)
    ensures
        is_move(1u16),
        is_move(2u16),
        is_move(4u16),
        is_move(8u16),
        is_move(16u16),
        is_move(32u16),
        is_move(64u16),
        is_move(128u16),
        is_move(256u16),
{
}

/// Exact string comparison.
fn str_eq(a: &str, b: &str) -> (r: bool)
    ensures
        r == (a@ == b@),
{
    let owned_a = a.to_owned();
    let owned_b = b.to_owned();
    owned_a == owned_b
}

/// Turn a cell label into its move bit, or `None` for any other text.
pub fn parse_label(label: &str) -> (r: Option<u16>)
    ensures
        r == label_code(label@),
{
    if str_eq(label, "tl") {
        Some(0b100_000_000u16)
    } else if str_eq(label, "t") {
        Some(0b010_000_000u16)
    } else if str_eq(label, "tr") {
        Some(0b001_000_000u16)
    } else if str_eq(label, "l") {
        Some(0b000_100_000u16)
    } else if str_eq(label, "m") {
        Some(0b000_010_000u16)
    } else if str_eq(label, "r") {
        Some(0b000_001_000u16)
    } else if str_eq(label, "bl") {
        Some(0b000_000_100u16)
    } else if str_eq(label, "b") {
        Some(0b000_000_010u16)
    } else if str_eq(label, "br") {
        Some(0b000_000_001u16)
    } else {
        None
    }
}

/// Read a human move label against the current position: the move when
/// the label names an open cell, the exact error otherwise.  The position
/// is only read; on an error the caller re-prompts and nothing changes.
pub fn read_move(game: &Game, label: &str) -> (r: Result<u16, MoveError>)
    ensures
        r == read_move_result(*game, label@),
        r is Ok <==> (label_code(label@) is Some && cell_open(*game, label_code(label@)->Some_0)),
        r is Ok ==> legal(*game, r->Ok_0),
{
    match parse_label(label) {
        None => Err(MoveError::Unparsable),
        Some(m) => {
            proof {
                lemma_label_codes_are_moves();
            }
            if (game.xs | game.os) & m == 0 {
                Ok(m)
            } else {
                Err(MoveError::Occupied)
            }
        },
    }
}

/// Turn a strategy name into its kind, or `None` for any other text.
pub fn parse_brain(label: &str) -> (r: Option<BrainKind>)
    ensures
        r == brain_choice(label@),
{
    if str_eq(label, "Perfect") {
        Some(BrainKind::Perfect)
    } else if str_eq(label, "Human") {
        Some(BrainKind::Human)
    } else if str_eq(label, "Random") {
        Some(BrainKind::Random)
    } else {
        None
    }
}

/// Build the chosen strategy for the given starting position; the
/// perfect-play strategy evaluates the full game tree from it.
pub fn make_brain(kind: BrainKind, game: &Game) -> (b: Brain)
    requires
        game.wf(),
    ensures
        b.tracks(*game),
        b is Perfect <==> kind == BrainKind::Perfect,
        b is Human <==> kind == BrainKind::Human,
{
    match kind {
        BrainKind::Perfect => Brain::Perfect(GameTree::from_game(game.clone())),
        BrainKind::Human => Brain::Human,
        BrainKind::Random => Brain::Random,
    }
}

/// Classify a rematch answer.
pub fn rematch_answer(answer: &str) -> (r: RematchDecision)
    ensures
        r == rematch_result(answer@),
{
    if str_eq(answer, "y") {
        RematchDecision::Again
    } else if str_eq(answer, "n") {
        RematchDecision::Quit
    } else {
        RematchDecision::Unrecognized
    }
}

/// One running game: the current position, the two strategies (X's and
/// O's), and whether the game has ended.
pub struct Session {
    pub game: Game,
    pub x_brain: Brain,
    pub o_brain: Brain,
    pub over: bool,
}

impl Session {
    /// Session validity: the position is valid, both strategies track it,
    /// and `over` says whether the position is terminal.
    pub open spec fn wf(self) -> bool {
        &&& self.game.wf()
        &&& self.x_brain.tracks(self.game)
        &&& self.o_brain.tracks(self.game)
        &&& self.over == terminal(self.game)
    }

    /// The strategy whose turn it is.
    pub open spec fn active_brain(self) -> Brain {
        if self.game.x_turn {
            self.x_brain
        } else {
            self.o_brain
        }
    }

    /// Start a session at `game` with the two strategies.
    pub fn new(game: Game, x_brain: Brain, o_brain: Brain) -> (s: Session)
        requires
            game.wf(),
            x_brain.tracks(game),
            o_brain.tracks(game),
        ensures
            s.wf(),
            s.game == game,
            s.x_brain == x_brain,
            s.o_brain == o_brain,
    {
        let (over, _x_won, _o_won) = game.game_over();
        Session { game, x_brain, o_brain, over }
    }

    /// Ask the active strategy for a move: a legal move for the machine
    /// strategies (the perfect-play one meeting its selection contract),
    /// `None` when a human must be prompted instead.
    pub fn select_move(&self) -> (r: Option<u16>)
        requires
            self.wf(),
            !self.over,
        ensures
            (r is None) <==> (self.active_brain() is Human),
            r is Some ==> legal(self.game, r->Some_0),
            self.active_brain() is Perfect ==> self.active_brain()->Perfect_0.selection_ok(
                r->Some_0,
            ),
    {
        if self.game.x_turn {
            self.x_brain.best_move(&self.game)
        } else {
            self.o_brain.best_move(&self.game)
        }
    }

    /// Play `m`: apply it to the position, advance both strategies, and
    /// record whether the game is now over.
    pub fn play_move(&mut self, m: u16)
        requires
            old(self).wf(),
            !old(self).over,
            legal(old(self).game, m),
        ensures
            final(self).wf(),
            final(self).game == apply_spec(old(self).game, m),
            final(self).over == terminal(final(self).game),
            (final(self).x_brain is Human) == (old(self).x_brain is Human),
            (final(self).x_brain is Perfect) == (old(self).x_brain is Perfect),
            (final(self).o_brain is Human) == (old(self).o_brain is Human),
            (final(self).o_brain is Perfect) == (old(self).o_brain is Perfect),
    {
        let mut x_brain = Brain::Random;
        core::mem::swap(&mut x_brain, &mut self.x_brain);
        let mut o_brain = Brain::Random;
        core::mem::swap(&mut o_brain, &mut self.o_brain);
        let next = self.game.make_move_copy(m);
        self.x_brain = x_brain.advance(m);
        self.o_brain = o_brain.advance(m);
        self.game = next;
        let (over, _x_won, _o_won) = self.game.game_over();
        self.over = over;
    }
}

} // verus!
