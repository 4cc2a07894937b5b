//! The outcome evaluator: an immutable tree over all positions reachable
//! from a root, carrying for each node whether a win for either side, or a
//! draw, is inevitable, together with perfect-play move selection over it.

use vstd::prelude::*;
use crate::board::{
    Game, apply_spec, is_win, legal, legal_seq, lemma_count_bound, lemma_legal_iff_in_seq,
    lemma_not_full_has_moves, occupied_count, terminal,
};

verus! {

/// One node of the evaluation tree: a position, the three inevitability
/// flags computed for it, and one child per legal move, in canonical
/// (ascending-cell) move order.
pub struct GameTree {
    pub x_inevitable: bool,
    pub o_inevitable: bool,
    pub draw_inevitable: bool,
    pub root: Game,
    pub children: Vec<(GameTree, u16)>,
}

impl GameTree {
    /// Some child carries the X forced-win flag.
    pub open spec fn any_child_x(self) -> bool {
        exists|k: int| 0 <= k < self.children@.len() && (#[trigger] self.children@[k]).0.x_inevitable
    }

    /// Every child carries the X forced-win flag.
    pub open spec fn all_children_x(self) -> bool {
        forall|k: int| 0 <= k < self.children@.len() ==> (#[trigger] self.children@[k]).0.x_inevitable
    }

    /// Some child carries the O forced-win flag.
    pub open spec fn any_child_o(self) -> bool {
        exists|k: int| 0 <= k < self.children@.len() && (#[trigger] self.children@[k]).0.o_inevitable
    }

    /// Every child carries the O forced-win flag.
    pub open spec fn all_children_o(self) -> bool {
        forall|k: int| 0 <= k < self.children@.len() ==> (#[trigger] self.children@[k]).0.o_inevitable
    }

    /// Every child carries the inevitable-draw flag.
    pub open spec fn all_children_draw(self) -> bool {
        forall|k: int|
            0 <= k < self.children@.len() ==> (#[trigger] self.children@[k]).0.draw_inevitable
    }

    /// Well-formed evaluation tree: the root position is valid; a terminal
    /// node has no children and reads its flags off the game result; a
    /// non-terminal node has exactly one child per legal move, in canonical
    /// order, each a well-formed tree for the successor position, and its
    /// flags are exactly the evaluator's boolean combination of the
    /// children's flags.
    pub open spec fn wf(self) -> bool
        decreases self,
    {
        &&& self.root.wf()
        &&& if terminal(self.root) {
            &&& self.children@.len() == 0
            &&& self.x_inevitable == is_win(self.root.xs)
            &&& self.o_inevitable == is_win(self.root.os)
            &&& self.draw_inevitable == !(is_win(self.root.xs) || is_win(self.root.os))
        } else {
            &&& self.children@.len() == legal_seq(self.root).len()
            &&& forall|k: int|
                0 <= k < self.children@.len() ==> (#[trigger] self.children@[k]).1 == legal_seq(
                    self.root,
                )[k]
            &&& forall|k: int|
                0 <= k < self.children@.len() ==> (#[trigger] self.children@[k]).0.root
                    == apply_spec(self.root, legal_seq(self.root)[k])
            &&& forall|k: int| 0 <= k < self.children@.len() ==> (#[trigger] self.children@[k]).0.wf()
            &&& self.x_inevitable == ((self.root.x_turn && self.any_child_x())
                || self.all_children_x())
            &&& self.o_inevitable == ((!self.root.x_turn && self.any_child_o())
                || self.all_children_o())
            &&& self.draw_inevitable == self.all_children_draw()
        }
    }

    /// Build the full evaluation tree for `game`: exhaustive recursion down
    /// to the terminal positions, then the combination rule bottom-up.
    pub fn from_game(game: Game) -> (t: GameTree)
        requires
            game.wf(),
        ensures
            t.wf(),
            t.root == game,
        decreases 9 - occupied_count(game),
    {
        let (game_over, x_won, o_won) = game.game_over();

        if game_over {
            return GameTree {
                x_inevitable: x_won,
                o_inevitable: o_won,
                draw_inevitable: !(x_won || o_won),
                root: game,
                children: Vec::new(),
            };
        }
        let moves = game.valid_moves_vec();
        let mut children: Vec<(GameTree, u16)> = Vec::new();
        let mut idx: usize = 0;
        while idx < moves.len()
            invariant
                game.wf(),
                !terminal(game),
                moves@ == legal_seq(game),
                idx <= moves@.len(),
                children@.len() == idx,
                forall|k: int|
                    0 <= k < idx ==> (#[trigger] children@[k]).1 == legal_seq(game)[k],
                forall|k: int|
                    0 <= k < idx ==> (#[trigger] children@[k]).0.root == apply_spec(
                        game,
                        legal_seq(game)[k],
                    ),
                forall|k: int| 0 <= k < idx ==> (#[trigger] children@[k]).0.wf(),
            decreases moves@.len() - idx,
        {
            let m = moves[idx];
            proof {
                assert(legal_seq(game)[idx as int] == m);
                assert(legal_seq(game).contains(m));
                lemma_legal_iff_in_seq(game, m);
            }
            let child_game = game.make_move_copy(m);
            proof {
                lemma_count_bound(child_game.xs | child_game.os, 9);
            }
            let child = Self::from_game(child_game);
            children.push((child, m));
            idx = idx + 1;
        }
        let n = children.len();
        let mut any_x = false;
        let mut all_x = true;
        let mut any_o = false;
        let mut all_o = true;
        let mut all_draw = true;
        let mut j: usize = 0;
        while j < n
            invariant
                n == children@.len(),
                j <= n,
                any_x == exists|k: int|
                    0 <= k < j && (#[trigger] children@[k]).0.x_inevitable,
                all_x == forall|k: int|
                    0 <= k < j ==> (#[trigger] children@[k]).0.x_inevitable,
                any_o == exists|k: int|
                    0 <= k < j && (#[trigger] children@[k]).0.o_inevitable,
                all_o == forall|k: int|
                    0 <= k < j ==> (#[trigger] children@[k]).0.o_inevitable,
                all_draw == forall|k: int|
                    0 <= k < j ==> (#[trigger] children@[k]).0.draw_inevitable,
            decreases n - j,
        {
            let cx = children[j].0.x_inevitable;
            let co = children[j].0.o_inevitable;
            let cd = children[j].0.draw_inevitable;
            proof {
                if cx {
                    assert(children@[j as int].0.x_inevitable);
                }
                if co {
                    assert(children@[j as int].0.o_inevitable);
                }
            }
            any_x = any_x || cx;
            all_x = all_x && cx;
            any_o = any_o || co;
            all_o = all_o && co;
            all_draw = all_draw && cd;
            j = j + 1;
        }
        let x_inevitable = (game.x_turn && any_x) || all_x;
        let o_inevitable = (!game.x_turn && any_o) || all_o;
        let draw_inevitable = all_draw;
        GameTree { x_inevitable, o_inevitable, draw_inevitable, root: game, children }
    }

    /// The forced-win flag of child `k` for the side to move at this node.
    pub open spec fn mover_wins(self, k: int) -> bool {
        if self.root.x_turn {
            self.children@[k].0.x_inevitable
        } else {
            self.children@[k].0.o_inevitable
        }
    }

    /// The forced-win flag of child `k` for the opponent of the side to
    /// move at this node.
    pub open spec fn opponent_wins(self, k: int) -> bool {
        if self.root.x_turn {
            self.children@[k].0.o_inevitable
        } else {
            self.children@[k].0.x_inevitable
        }
    }

    /// What perfect-play selection promises of a returned move `m`: it is
    /// one of the children's moves; when some child forces a win for the
    /// mover, `m` reaches the first such child in canonical order; when
    /// some child denies the opponent a forced win, `m` reaches such a
    /// child (a losing move is never picked over a non-losing one); and
    /// when every move loses, `m` is the first legal move.
    pub open spec fn selection_ok(self, m: u16) -> bool {
        &&& exists|k: int| 0 <= k < self.children@.len() && (#[trigger] self.children@[k]).1 == m
        &&& (exists|k: int| 0 <= k < self.children@.len() && #[trigger] self.mover_wins(k))
            ==> exists|k: int|
            {
                &&& 0 <= k < self.children@.len()
                &&& (#[trigger] self.children@[k]).1 == m
                &&& self.mover_wins(k)
                &&& forall|j: int| 0 <= j < k ==> !#[trigger] self.mover_wins(j)
            }
        &&& (exists|k: int|
            0 <= k < self.children@.len() && !(#[trigger] self.opponent_wins(k))) ==> exists|
            k: int,
        |
            {
                &&& 0 <= k < self.children@.len()
                &&& (#[trigger] self.children@[k]).1 == m
                &&& !self.opponent_wins(k)
            }
        &&& (forall|k: int|
            0 <= k < self.children@.len() ==> #[trigger] self.opponent_wins(k)) ==> m
            == self.children@[0].1
    }

    /// Pick a move at this (non-terminal) node: the first child that forces
    /// a win for the side to move, if any; otherwise a uniformly random
    /// child that denies the opponent a forced win; otherwise (every move
    /// loses) the first legal move.
    pub fn best_move(&self, _game: &Game) -> (r: u16)
        requires
            self.wf(),
            !terminal(self.root),
        ensures
            self.selection_ok(r),
            legal(self.root, r),
    {
        proof {
            lemma_not_full_has_moves(self.root);
        }
        let n = self.children.len();
        let mut idx: usize = 0;
        while idx < n
            invariant
                self.wf(),
                !terminal(self.root),
                n == self.children@.len(),
                idx <= n,
                forall|j: int| 0 <= j < idx ==> !#[trigger] self.mover_wins(j),
            decreases n - idx,
        {
            let c = &self.children[idx];
            let wins = if self.root.x_turn {
                c.0.x_inevitable
            } else {
                c.0.o_inevitable
            };
            if wins {
                proof {
                    assert(self.mover_wins(idx as int));
                    assert(self.children@[idx as int].0.root == apply_spec(
                        self.root,
                        legal_seq(self.root)[idx as int],
                    ));
                    lemma_flags_exclusive(self.children@[idx as int].0);
                    assert(!self.opponent_wins(idx as int));
                    lemma_move_is_legal(*self, idx as int);
                }
                return c.1;
            }
            idx = idx + 1;
        }
        let mut non_losing: Vec<u16> = Vec::new();
        let mut j: usize = 0;
        while j < n
            invariant
                self.wf(),
                !terminal(self.root),
                n == self.children@.len(),
                j <= n,
                forall|k: int| 0 <= k < n ==> !#[trigger] self.mover_wins(k),
                forall|i: int|
                    0 <= i < non_losing@.len() ==> exists|k: int|
                        {
                            &&& 0 <= k < n
                            &&& (#[trigger] self.children@[k]).1 == #[trigger] non_losing@[i]
                            &&& !self.opponent_wins(k)
                        },
                (non_losing@.len() > 0) == exists|k: int|
                    0 <= k < j && !(#[trigger] self.opponent_wins(k)),
            decreases n - j,
        {
            let c = &self.children[j];
            let loses = if self.root.x_turn {
                c.0.o_inevitable
            } else {
                c.0.x_inevitable
            };
            if !loses {
                non_losing.push(c.1);
                proof {
                    assert(!self.opponent_wins(j as int));
                }
            }
            j = j + 1;
        }
        match crate::random::random_element(&non_losing) {
            Some(m) => {
                proof {
                    let i = choose|i: int| 0 <= i < non_losing@.len() && non_losing@[i] == m;
                    assert(exists|k: int|
                        {
                            &&& 0 <= k < n
                            &&& (#[trigger] self.children@[k]).1 == non_losing@[i]
                            &&& !self.opponent_wins(k)
                        });
                    let k = choose|k: int|
                        {
                            &&& 0 <= k < n
                            &&& (#[trigger] self.children@[k]).1 == non_losing@[i]
                            &&& !self.opponent_wins(k)
                        };
                    lemma_move_is_legal(*self, k);
                }
                m
            },
            None => {
                let mv = self.children[0].1;
                proof {
                    assert(self.children@[0].1 == mv);
                    lemma_move_is_legal(*self, 0);
                }
                mv
            },
        }
    }

    /// Descend to the child reached by playing `m` at this node: the
    /// subtree built for the successor position.
    pub fn advance(self, m: u16) -> (t: GameTree)
        requires
            self.wf(),
            !terminal(self.root),
            legal(self.root, m),
        ensures
            t.wf(),
            t.root == apply_spec(self.root, m),
    {
        let ghost orig = self;
        proof {
            lemma_legal_iff_in_seq(orig.root, m);
            let j = choose|j: int| 0 <= j < legal_seq(orig.root).len() && legal_seq(orig.root)[j] == m;
            assert(orig.children@[j].1 == m);
        }
        let mut children = self.children;
        let n = children.len();
        let mut idx: usize = 0;
        while idx < n
            invariant
                orig.wf(),
                orig.root == self.root,
                !terminal(orig.root),
                children@ == orig.children@,
                n == children@.len(),
                idx <= n,
                forall|k: int| 0 <= k < idx ==> (#[trigger] children@[k]).1 != m,
                exists|k: int| 0 <= k < n && (#[trigger] children@[k]).1 == m,
            decreases n - idx,
        {
            if children[idx].1 == m {
                let pair = children.remove(idx);
                proof {
                    assert(orig.children@[idx as int].1 == m);
                    assert(orig.children@[idx as int].0.wf());
                    assert(orig.children@[idx as int].0.root == apply_spec(orig.root, m));
                }
                return pair.0;
            }
            idx = idx + 1;
        }
        vstd::pervasive::unreached()
    }
}

/// Each child's move of a well-formed non-terminal node is legal at its
/// root.
pub proof fn lemma_move_is_legal(t: GameTree, k: int)
    requires
        t.wf(),
        !terminal(t.root),
        0 <= k < t.children@.len(),
    ensures
        legal(t.root, t.children@[k].1),
{
    assert(t.children@[k].1 == legal_seq(t.root)[k]);
    assert(legal_seq(t.root).contains(t.children@[k].1));
    lemma_legal_iff_in_seq(t.root, t.children@[k].1);
}

/// A forced win for one side excludes a forced win for the other, in every
/// well-formed tree whose root position does not itself hold completed
/// lines for both sides at once (impossible under alternating legal play).
pub proof fn lemma_flags_exclusive(t: GameTree)
    requires
        t.wf(),
        !(is_win(t.root.xs) && is_win(t.root.os)),
    ensures
        !(t.x_inevitable && t.o_inevitable),
    decreases t,
{
    if !terminal(t.root) && t.x_inevitable && t.o_inevitable {
        lemma_not_full_has_moves(t.root);
        if t.root.x_turn {
            // The opponent flag reduces to "every child", so any X-forced
            // child would carry both flags.
            assert(t.all_children_o());
            let k: int = if t.any_child_x() {
                choose|k: int|
                    0 <= k < t.children@.len() && (#[trigger] t.children@[k]).0.x_inevitable
            } else {
                0
            };
            assert(t.children@[k].0.x_inevitable && t.children@[k].0.o_inevitable);
            assert(t.children@[k].0.root.os == t.root.os);
            lemma_flags_exclusive(t.children@[k].0);
        } else {
            assert(t.all_children_x());
            let k: int = if t.any_child_o() {
                choose|k: int|
                    0 <= k < t.children@.len() && (#[trigger] t.children@[k]).0.o_inevitable
            } else {
                0
            };
            assert(t.children@[k].0.x_inevitable && t.children@[k].0.o_inevitable);
            assert(t.children@[k].0.root.xs == t.root.xs);
            lemma_flags_exclusive(t.children@[k].0);
        }
    }
}

} // verus!
