//! Move-selection strategies: perfect play over a prebuilt evaluation
//! tree, uniform random play, and a human whose moves the surrounding
//! input loop supplies.

use vstd::prelude::*;
use crate::board::{
    Game, apply_spec, legal, legal_seq, lemma_legal_iff_in_seq, lemma_not_full_has_moves, terminal,
};
use crate::random::random_element;
use crate::tree::GameTree;

verus! {

/// A move-selection strategy.  The perfect-play variant owns its position
/// in the evaluation tree and must be advanced on every move made by
/// either side; the other two are stateless.
pub enum Brain {
    Perfect(GameTree),
    Random,
    Human,
}

impl Brain {
    /// The strategy's state tracks position `g`: a perfect-play brain's
    /// tree is well formed and rooted at `g`; the stateless strategies
    /// track every position.
    pub open spec fn tracks(self, g: Game) -> bool {
        match self {
            Brain::Perfect(t) => t.wf() && t.root == g,
            Brain::Random => true,
            Brain::Human => true,
        }
    }

    /// Select a move for the side to move at `game`: a legal move for the
    /// machine strategies (meeting the perfect-play selection contract for
    /// the perfect brain), `None` for the human strategy, whose move the
    /// caller must obtain from input instead.
    pub fn best_move(&self, game: &Game) -> (r: Option<u16>)
        requires
            game.wf(),
            !terminal(*game),
            self.tracks(*game),
        ensures
            r is None <==> self is Human,
            r is Some ==> legal(*game, r->Some_0),
            self is Perfect ==> self->Perfect_0.selection_ok(r->Some_0),
    {
        match self {
            Brain::Perfect(t) => Some(t.best_move(game)),
            Brain::Random => {
                let moves = game.valid_moves_vec();
                proof {
                    lemma_not_full_has_moves(*game);
                }
                match random_element(&moves) {
                    Some(m) => {
                        proof {
                            assert(legal_seq(*game).contains(m));
                            lemma_legal_iff_in_seq(*game, m);
                        }
                        Some(m)
                    },
                    None => vstd::pervasive::unreached(),
                }
            },
            Brain::Human => None,
        }
    }

    /// Advance the strategy's state to reflect that `m` was just played by
    /// either side: perfect play descends to the matching subtree, the
    /// stateless strategies are returned unchanged.
    pub fn advance(self, m: u16) -> (b: Brain)
        requires
            self is Perfect ==> {
                &&& self->Perfect_0.wf()
                &&& !terminal(self->Perfect_0.root)
                &&& legal(self->Perfect_0.root, m)
            },
        ensures
            self is Perfect ==> {
                &&& b is Perfect
                &&& b->Perfect_0.wf()
                &&& b->Perfect_0.root == apply_spec(self->Perfect_0.root, m)
            },
            !(self is Perfect) ==> b == self,
    {
        match self {
            Brain::Perfect(t) => Brain::Perfect(t.advance(m)),
            Brain::Random => Brain::Random,
            Brain::Human => Brain::Human,
        }
    }
}

} // verus!
