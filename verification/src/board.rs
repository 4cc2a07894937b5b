//! The board and position model: two disjoint 9-bit mark sets, the side to
//! move, legal-move derivation, win and draw detection, and the pure move
//! applicator.

use vstd::prelude::*;

verus! {

/// Mask with all nine cell bits set: a board with this occupancy is full.
pub const FULL_BOARD: u16 = 0x1FF;

/// One full game position: the cells marked by X (bit `i` stands for cell
/// `i`, cells `0..9`), the cells marked by O, and whose turn is next.
/// `rematch` and `has_human` carry session bookkeeping and play no part in
/// the board rules.
#[derive(Clone, Copy, PartialEq, Eq, Structural, Debug)]
pub struct Game {
    pub xs: u16,
    pub os: u16,
    pub x_turn: bool,
    pub rematch: bool,
    pub has_human: bool,
}

/// Bit `i` of `v` is set.
pub open spec fn bit_set(v: u16, i: u16) -> bool {
    v & (1u16 << i) != 0
}

/// A move is a single set bit among the nine cell bits.
pub open spec fn is_move(m: u16) -> bool {
    m != 0 && m & ((m - 1) as u16) == 0 && m < 512
}

/// The cell of move `m` is unclaimed in `g`.
pub open spec fn cell_open(g: Game, m: u16) -> bool {
    (g.xs | g.os) & m == 0
}

/// `m` may be played in `g`: a real cell bit whose cell is unclaimed.
pub open spec fn legal(g: Game, m: u16) -> bool {
    is_move(m) && cell_open(g, m)
}

/// The cell index of a move: the position of its single set bit.
pub open spec fn move_index(m: u16) -> u16 {
    if m == 1 {
        0
    } else if m == 2 {
        1
    } else if m == 4 {
        2
    } else if m == 8 {
        3
    } else if m == 16 {
        4
    } else if m == 32 {
        5
    } else if m == 64 {
        6
    } else if m == 128 {
        7
    } else {
        8
    }
}

/// How many of the bits `0..n` of `v` are set.
pub open spec fn count_upto(v: u16, n: u16) -> nat
    decreases n,
{
    if n == 0 {
        0nat
    } else {
        count_upto(v, (n - 1) as u16) + if bit_set(v, (n - 1) as u16) {
            1nat
        } else {
            0nat
        }
    }
}

/// How many cells are claimed (by either side) in `g`.
pub open spec fn occupied_count(g: Game) -> nat {
    count_upto(g.xs | g.os, 9)
}

/// The legal moves of `g` with cell index below `n`, as single-bit values in
/// ascending cell order.
pub open spec fn moves_upto(g: Game, n: u16) -> Seq<u16>
    decreases n,
{
    if n == 0 {
        Seq::empty()
    } else {
        let prev = moves_upto(g, (n - 1) as u16);
        if !bit_set(g.xs | g.os, (n - 1) as u16) {
            prev.push(1u16 << ((n - 1) as u16))
        } else {
            prev
        }
    }
}

/// All legal moves of `g`, in ascending cell order.
pub open spec fn legal_seq(g: Game) -> Seq<u16> {
    moves_upto(g, 9)
}

/// The eight winning lines: three rows, three columns, two diagonals.
pub open spec fn line(k: int) -> u16 {
    if k == 0 {
        0b000_000_111u16
    } else if k == 1 {
        0b000_111_000u16
    } else if k == 2 {
        0b111_000_000u16
    } else if k == 3 {
        0b100_100_100u16
    } else if k == 4 {
        0b010_010_010u16
    } else if k == 5 {
        0b001_001_001u16
    } else if k == 6 {
        0b100_010_001u16
    } else {
        0b001_010_100u16
    }
}

/// A mark set wins when it fully contains some winning line.
pub open spec fn is_win(v: u16) -> bool {
    exists|k: int| 0 <= k < 8 && (#[trigger] line(k)) & v == line(k)
}

/// Every cell of `g` is claimed.
pub open spec fn board_full(g: Game) -> bool {
    (g.xs | g.os) == FULL_BOARD
}

/// The game at `g` is over: a side has a line, or the board is full.
pub open spec fn terminal(g: Game) -> bool {
    is_win(g.xs) || is_win(g.os) || board_full(g)
}

/// The position after the side to move claims cell `m`, exactly as
/// `make_move_copy` builds it.
pub open spec fn apply_spec(g: Game, m: u16) -> Game {
    Game {
        xs: if g.x_turn {
            g.xs | m
        } else {
            g.xs
        },
        os: if g.x_turn {
            g.os
        } else {
            g.os | m
        },
        x_turn: !g.x_turn,
        rematch: false,
        has_human: g.has_human,
    }
}

/// Attempting a move on a claimed cell, or with a value that is no cell bit.
#[derive(Clone, Copy, PartialEq, Eq, Structural, Debug)]
pub struct IllegalMoveError;

/// What `apply` returns: the successor position for a legal move, the error
/// otherwise.
pub open spec fn apply_result(g: Game, m: u16) -> Result<Game, IllegalMoveError> {
    if legal(g, m) {
        Ok(apply_spec(g, m))
    } else {
        Err(IllegalMoveError)
    }
}

impl Game {
    /// Validity: the two mark sets are disjoint, lie within the nine cells,
    /// and the stored turn agrees with alternating play from the empty board.
    pub open spec fn wf(self) -> bool {
        &&& self.xs & self.os == 0
        &&& self.xs < 0x200
        &&& self.os < 0x200
        &&& if self.x_turn {
            count_upto(self.xs, 9) == count_upto(self.os, 9)
        } else {
            count_upto(self.xs, 9) == count_upto(self.os, 9) + 1
        }
    }
}

proof fn lemma_bit_basics()
    by (bit_vector)
    ensures
        forall|x: u16| #[trigger] (x & 0) == 0,
        forall|x: u16| #[trigger] (0 & x) == 0,
        forall|x: u16| #[trigger] (x | 0) == x,
        forall|x: u16| #[trigger] (0 | x) == x,
{
}

proof fn lemma_single_bit_is_move(i: u16)
    by (bit_vector)
    requires
        i < 9,
    ensures
        is_move(1u16 << i),
{
}

proof fn lemma_move_index(m: u16)
    by (bit_vector)
    requires
        is_move(m),
    ensures
        move_index(m) < 9,
        m == 1u16 << move_index(m),
{
}

proof fn lemma_mask_bit(xs: u16, os: u16, i: u16)
    by (bit_vector)
    requires
        i < 9,
    ensures
        ((!(0xFE00u16 | xs | os)) & (1u16 << i) != 0) == ((xs | os) & (1u16 << i) == 0),
{
}

proof fn lemma_mask_high(xs: u16, os: u16, i: u16)
    by (bit_vector)
    requires
        9 <= i < 16,
    ensures
        (!(0xFE00u16 | xs | os)) & (1u16 << i) == 0,
{
}

proof fn lemma_or_disjoint(xs: u16, os: u16, m: u16)
    by (bit_vector)
    requires
        xs & os == 0,
        (xs | os) & m == 0,
        xs < 0x200,
        os < 0x200,
        m < 0x200,
    ensures
        (xs | m) & os == 0,
        xs & (os | m) == 0,
        (xs | m) | os == (xs | os) | m,
        xs | (os | m) == (xs | os) | m,
        xs & m == 0,
        os & m == 0,
        xs | m < 0x200,
        os | m < 0x200,
{
}

proof fn lemma_bit_or_single(v: u16, i: u16, j: u16)
    by (bit_vector)
    requires
        i < 16,
        j < 16,
    ensures
        ((v | (1u16 << i)) & (1u16 << j) != 0) == ((v & (1u16 << j) != 0) || i == j),
{
}

pub proof fn lemma_count_bound(v: u16, n: u16)
    ensures
        count_upto(v, n) <= n,
    decreases n,
{
    if n > 0 {
        lemma_count_bound(v, (n - 1) as u16);
    }
}

proof fn lemma_count_zero(n: u16)
    ensures
        count_upto(0, n) == 0,
    decreases n,
{
    if n > 0 {
        lemma_count_zero((n - 1) as u16);
        lemma_bit_basics();
    }
}

proof fn lemma_count_set_upto(v: u16, i: u16, n: u16)
    requires
        i < 16,
        n <= 16,
        v & (1u16 << i) == 0,
    ensures
        count_upto(v | (1u16 << i), n) == count_upto(v, n) + if i < n {
            1int
        } else {
            0int
        },
    decreases n,
{
    if n > 0 {
        lemma_count_set_upto(v, i, (n - 1) as u16);
        lemma_bit_or_single(v, i, (n - 1) as u16);
        if i == (n - 1) as u16 {
            assert(!bit_set(v, (n - 1) as u16));
        }
    }
}

/// Claiming one open cell raises the count of set cell bits by one.
proof fn lemma_count_set(v: u16, i: u16)
    requires
        i < 9,
        v & (1u16 << i) == 0,
    ensures
        count_upto(v | (1u16 << i), 9) == count_upto(v, 9) + 1,
{
    lemma_count_set_upto(v, i, 9);
}

/// Among the cells `0..n`, each is counted once: either as a legal move or
/// as a claimed cell.
proof fn lemma_moves_counts(g: Game, n: u16)
    ensures
        moves_upto(g, n).len() + count_upto(g.xs | g.os, n) == n,
    decreases n,
{
    if n > 0 {
        lemma_moves_counts(g, (n - 1) as u16);
    }
}

proof fn lemma_all_set_upto(v: u16, n: u16)
    requires
        n <= 9,
        count_upto(v, n) == n,
    ensures
        v & (((1u16 << n) - 1) as u16) == ((1u16 << n) - 1) as u16,
    decreases n,
{
    if n == 0 {
        assert(v & (((1u16 << 0u16) - 1) as u16) == ((1u16 << 0u16) - 1) as u16) by (bit_vector);
    } else {
        lemma_count_bound(v, (n - 1) as u16);
        lemma_all_set_upto(v, (n - 1) as u16);
        let nm = (n - 1) as u16;
        assert(v & (((1u16 << nm) - 1) as u16) == ((1u16 << nm) - 1) as u16 && (v & (1u16 << nm)
            != 0) && nm < 9 ==> v & (((1u16 << (nm + 1) as u16) - 1) as u16) == ((1u16 << (nm
            + 1) as u16) - 1) as u16) by (bit_vector);
    }
}

/// A board with nine claimed cells is the full board.
proof fn lemma_count_nine_full(v: u16)
    requires
        v < 0x200,
        count_upto(v, 9) == 9,
    ensures
        v == FULL_BOARD,
{
    lemma_all_set_upto(v, 9);
    assert(v & (((1u16 << 9u16) - 1) as u16) == ((1u16 << 9u16) - 1) as u16 && v < 0x200 ==> v
        == 0x1FF) by (bit_vector);
}

/// A valid position whose board is not full has at least one legal move.
pub proof fn lemma_not_full_has_moves(g: Game)
    requires
        g.wf(),
        !board_full(g),
    ensures
        legal_seq(g).len() > 0,
{
    lemma_moves_counts(g, 9);
    if legal_seq(g).len() == 0 {
        let xs = g.xs;
        let os = g.os;
        assert(xs < 0x200 && os < 0x200 ==> (xs | os) < 0x200) by (bit_vector);
        lemma_count_nine_full(g.xs | g.os);
    }
}

proof fn lemma_moves_upto_contains(g: Game, n: u16, m: u16)
    requires
        n <= 9,
    ensures
        moves_upto(g, n).contains(m) <==> exists|i: u16|
            i < n && m == (1u16 << i) && !bit_set(g.xs | g.os, i),
    decreases n,
{
    if n > 0 {
        let nm = (n - 1) as u16;
        lemma_moves_upto_contains(g, nm, m);
        let prev = moves_upto(g, nm);
        if !bit_set(g.xs | g.os, nm) {
            assert(moves_upto(g, n) == prev.push(1u16 << nm));
            assert(prev.push(1u16 << nm).contains(m) <==> (prev.contains(m) || m == 1u16 << nm))
                by {
                if prev.contains(m) {
                    let j = choose|j: int| 0 <= j < prev.len() && prev[j] == m;
                    assert(prev.push(1u16 << nm)[j] == m);
                }
                if m == 1u16 << nm {
                    assert(prev.push(1u16 << nm)[prev.len() as int] == m);
                }
                if prev.push(1u16 << nm).contains(m) {
                    let j = choose|j: int|
                        0 <= j < prev.push(1u16 << nm).len() && prev.push(1u16 << nm)[j] == m;
                    if j < prev.len() {
                        assert(prev[j] == m);
                    }
                }
            }
            if m == 1u16 << nm {
                assert(nm < n && m == 1u16 << nm && !bit_set(g.xs | g.os, nm));
            }
        } else {
            if exists|i: u16| i < n && m == (1u16 << i) && !bit_set(g.xs | g.os, i) {
                let i = choose|i: u16| i < n && m == (1u16 << i) && !bit_set(g.xs | g.os, i);
                assert(i != nm);
                assert(i < nm && m == (1u16 << i) && !bit_set(g.xs | g.os, i));
            }
        }
    }
}

/// The legal-move sequence holds exactly the legal moves of `g`.
pub proof fn lemma_legal_iff_in_seq(g: Game, m: u16)
    ensures
        legal_seq(g).contains(m) <==> legal(g, m),
{
    lemma_moves_upto_contains(g, 9, m);
    if legal_seq(g).contains(m) {
        let i = choose|i: u16| i < 9 && m == (1u16 << i) && !bit_set(g.xs | g.os, i);
        lemma_single_bit_is_move(i);
    }
    if legal(g, m) {
        lemma_move_index(m);
        let i = move_index(m);
        assert(i < 9 && m == (1u16 << i) && !bit_set(g.xs | g.os, i));
    }
}

/// For every valid position, the number of legal moves plus the number of
/// claimed cells is nine.
pub proof fn lemma_legal_moves_count(g: Game)
    requires
        g.wf(),
    ensures
        legal_seq(g).len() + occupied_count(g) == 9,
{
    lemma_moves_counts(g, 9);
}

/// The move applicator is pure: its outcome is a function of the position
/// and the move alone, so applying equal moves to equal positions gives
/// equal results (`make_move_copy` returns exactly `apply_spec` of its
/// inputs, and takes the position by shared reference, leaving it
/// unchanged).
pub proof fn lemma_apply_pure(g1: Game, g2: Game, m1: u16, m2: u16)
    requires
        g1 == g2,
        m1 == m2,
    ensures
        apply_spec(g1, m1) == apply_spec(g2, m2),
        apply_result(g1, m1) == apply_result(g2, m2),
{
}

impl Game {
    /// A fresh game: empty board, X to move.
    pub fn new() -> (g: Game)
        ensures
            g == (Game { xs: 0, os: 0, x_turn: true, rematch: false, has_human: false }),
            g.wf(),
            occupied_count(g) == 0,
            !terminal(g),
    {
        let g = Game { xs: 0, os: 0, x_turn: true, rematch: false, has_human: false };
        proof {
            lemma_count_zero(9);
            lemma_bit_basics();
            assert(!is_win(0)) by {
                assert forall|k: int| 0 <= k < 8 implies (#[trigger] line(k)) & 0 != line(k) by {
                    lemma_bit_basics();
                }
            }
        }
        g
    }

    /// Reset to the fresh state: empty board, X to move, no rematch pending.
    pub fn start(&mut self)
        ensures
            *final(self) == (Game { xs: 0, os: 0, x_turn: true, rematch: false, has_human: false }),
            final(self).wf(),
            !terminal(*final(self)),
    {
        self.xs = 0;
        self.os = 0;
        self.x_turn = true;
        self.rematch = false;
        self.has_human = false;
        proof {
            lemma_count_zero(9);
            lemma_bit_basics();
            assert(!is_win(0)) by {
                assert forall|k: int| 0 <= k < 8 implies (#[trigger] line(k)) & 0 != line(k) by {
                    lemma_bit_basics();
                }
            }
        }
    }

    /// Claim cell `m` for the side to move and flip the turn.
    pub fn make_move(&mut self, m: u16)
        requires
            old(self).wf(),
            legal(*old(self), m),
        ensures
            *final(self) == (Game {
                xs: if old(self).x_turn {
                    old(self).xs | m
                } else {
                    old(self).xs
                },
                os: if old(self).x_turn {
                    old(self).os
                } else {
                    old(self).os | m
                },
                x_turn: !old(self).x_turn,
                ..*old(self)
            }),
            final(self).wf(),
            occupied_count(*final(self)) == occupied_count(*old(self)) + 1,
    {
        proof {
            lemma_move_index(m);
            let i = move_index(m);
            lemma_or_disjoint(self.xs, self.os, m);
            if self.x_turn {
                lemma_count_set(self.xs, i);
            } else {
                lemma_count_set(self.os, i);
            }
            lemma_count_set(self.xs | self.os, i);
        }
        if self.x_turn {
            self.xs = self.xs | m;
        } else {
            self.os = self.os | m;
        }
        self.x_turn = !self.x_turn;
    }

    /// The position after the side to move claims cell `m`; the receiver is
    /// untouched, and the result carries no pending rematch.
    pub fn make_move_copy(&self, m: u16) -> (g: Game)
        requires
            self.wf(),
            legal(*self, m),
        ensures
            g == apply_spec(*self, m),
            g.wf(),
            occupied_count(g) == occupied_count(*self) + 1,
    {
        let mut game = Game {
            xs: self.xs,
            os: self.os,
            x_turn: self.x_turn,
            rematch: false,
            has_human: self.has_human,
        };
        game.make_move(m);
        game
    }

    /// The move applicator with its legality check: the successor position
    /// for a legal move, an error (and no new position) otherwise.
    pub fn apply(&self, m: u16) -> (r: Result<Game, IllegalMoveError>)
        requires
            self.wf(),
        ensures
            r == apply_result(*self, m),
            r is Ok <==> legal(*self, m),
            r is Ok ==> r->Ok_0.wf(),
    {
        if m != 0 && (m & (m - 1)) == 0 && m < 512 && ((self.xs | self.os) & m == 0) {
            Ok(self.make_move_copy(m))
        } else {
            Err(IllegalMoveError)
        }
    }

    /// The bitmask of unclaimed cells: a cell bit is set exactly when the
    /// cell is open, and no bit beyond the nine cells is ever set.
    pub fn valid_moves(&self) -> (r: u16)
        ensures
            r == !(0xFE00u16 | self.xs | self.os),
            forall|i: u16| i < 9 ==> #[trigger] bit_set(r, i) == !bit_set(self.xs | self.os, i),
            forall|i: u16| 9 <= i < 16 ==> !(#[trigger] bit_set(r, i)),
    {
        let r = !(0xFE00u16 | self.xs | self.os);
        proof {
            assert forall|i: u16| i < 9 implies #[trigger] bit_set(r, i) == !bit_set(
                self.xs | self.os,
                i,
            ) by {
                lemma_mask_bit(self.xs, self.os, i);
            }
            assert forall|i: u16| 9 <= i < 16 implies !(#[trigger] bit_set(r, i)) by {
                lemma_mask_high(self.xs, self.os, i);
            }
        }
        r
    }

    /// The legal moves, one single-bit value per unclaimed cell, in
    /// ascending cell order.
    pub fn valid_moves_vec(&self) -> (r: Vec<u16>)
        ensures
            r@ == legal_seq(*self),
    {
        let mask = self.valid_moves();
        let mut vec_valid: Vec<u16> = Vec::new();
        let mut i: u16 = 0;
        while i < 9
            invariant
                i <= 9,
                mask == !(0xFE00u16 | self.xs | self.os),
                vec_valid@ == moves_upto(*self, i),
            decreases 9 - i,
        {
            proof {
                lemma_mask_bit(self.xs, self.os, i);
            }
            if mask & (1u16 << i) != 0 {
                vec_valid.push(1u16 << i);
            }
            i = i + 1;
        }
        vec_valid
    }

    /// Whether the game is over, and who (if anyone) has a completed line:
    /// `(over, x_won, o_won)`.
    pub fn game_over(&self) -> (r: (bool, bool, bool))
        ensures
            r.0 == terminal(*self),
            r.1 == is_win(self.xs),
            r.2 == is_win(self.os),
    {
        let x_won = mask_wins(self.xs);
        let o_won = mask_wins(self.os);
        if x_won || o_won || (self.xs | self.os == FULL_BOARD) {
            (true, x_won, o_won)
        } else {
            (false, false, false)
        }
    }
}

/// The winning line with index `k`, as a bitmask.
fn winning_line(k: usize) -> (r: u16)
    requires
        k < 8,
    ensures
        r == line(k as int),
{
    if k == 0 {
        0b000_000_111u16
    } else if k == 1 {
        0b000_111_000u16
    } else if k == 2 {
        0b111_000_000u16
    } else if k == 3 {
        0b100_100_100u16
    } else if k == 4 {
        0b010_010_010u16
    } else if k == 5 {
        0b001_001_001u16
    } else if k == 6 {
        0b100_010_001u16
    } else {
        0b001_010_100u16
    }
}

/// Whether the mark set `v` fully contains some winning line.
fn mask_wins(v: u16) -> (r: bool)
    ensures
        r == is_win(v),
{
    let mut k: usize = 0;
    while k < 8
        invariant
            k <= 8,
            forall|j: int| 0 <= j < k ==> (#[trigger] line(j)) & v != line(j),
        decreases 8 - k,
    {
        let l = winning_line(k);
        if l & v == l {
            assert(line(k as int) & v == line(k as int));
            return true;
        }
        k = k + 1;
    }
    false
}

} // verus!
