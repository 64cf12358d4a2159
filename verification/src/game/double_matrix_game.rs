//! Two matrix games in a row: the second is played on the transposed matrix,
//! and each player knows only the own move of the first.

use crate::game::infoset::Infoset;
use crate::game::matrix_game::{lemma_cell_in_matrix, MatrixGame, Move};
use crate::game::player::Player;
use crate::game::rules::Game;
use crate::numeric::{unit_is_total, yields, FloatOp};
use vstd::arithmetic::div_mod::lemma_fundamental_div_mod_converse;
use vstd::prelude::*;

verus! {

pub struct DoubleMatrixGame<F> {
    pub games: (MatrixGame, MatrixGame),
    pub game1_moves: (Option<usize>, Option<usize>),
    /// The arithmetic unit that computes the mean of the two payoffs.
    pub fpu: F,
}

/// The bit pattern of 2.0.
pub const TWO: u32 = 0x4000_0000;

/// The place of the cell in row `r` and column `c` of a square matrix of
/// `size` rows that is stored row by row.
pub open spec fn cell(size: int, r: int, c: int) -> int {
    r * size + c
}

/// Whether the first `k` elements of `result` are those of the transpose of
/// `matrix`, as far as they lie in the square.
pub open spec fn transposed_below<T>(result: Seq<T>, matrix: Seq<T>, size: int, k: int) -> bool {
    forall|i: int|
        0 <= i < k && i < size * size ==> #[trigger] result[i] == matrix[source(size, i)]
}

/// The place in a matrix from which place `i` of its transpose is filled.
pub open spec fn source(size: int, i: int) -> int {
    cell(size, i % size, i / size)
}

/// One more element that comes from the right place extends a transposed
/// prefix by one.
proof fn lemma_transposed_extends<T>(before: Seq<T>, matrix: Seq<T>, size: int, x: T)
    requires
        transposed_below(before, matrix, size, before.len() as int),
        before.len() < size * size ==> x == matrix[source(size, before.len() as int)],
    ensures
        transposed_below(before.push(x), matrix, size, (before.len() + 1) as int),
{
    let after = before.push(x);
    assert forall|i: int| 0 <= i < before.len() + 1 && i < size * size implies #[trigger] after[i]
        == matrix[source(size, i)] by {
        if i < before.len() {
            assert(after[i] == before[i]);
        }
    }
}

/// Transposes the square matrix of `size` rows that the first `size * size`
/// elements hold, row by row. Elements behind them stay as they are.
pub fn transpose<T: Copy>(size: usize, matrix: Vec<T>) -> (result: Vec<T>)
    requires
        size * size <= matrix@.len(),
    ensures
        result@.len() == matrix@.len(),
        forall|r: int, c: int|
            0 <= r < size && 0 <= c < size ==> 0 <= cell(size as int, c, r) < result@.len()
                && result@[#[trigger] cell(size as int, r, c)] == matrix@[cell(size as int, c, r)],
        forall|i: int| size * size <= i < matrix@.len() ==> result@[i] == matrix@[i],
{
    let len: usize = matrix.len();
    let mut result: Vec<T> = Vec::new();
    if size == 0 {
        let mut k: usize = 0;
        while k < len
            invariant
                k <= len,
                len == matrix@.len(),
                result@ == matrix@.take(k as int),
            decreases len - k,
        {
            result.push(matrix[k]);
            k += 1;
            assert(result@ =~= matrix@.take(k as int));
        }
        return result;
    }
    assert(0 <= size * size) by (nonlinear_arith);
    let total: usize = size * size;
    let mut k: usize = 0;
    while k < len
        invariant
            k <= len,
            size > 0,
            len == matrix@.len(),
            total == size * size,
            total <= len,
            result@.len() == k,
            transposed_below(result@, matrix@, size as int, k as int),
            forall|i: int| total <= i < k ==> #[trigger] result@[i] == matrix@[i],
        decreases len - k,
    {
        let ghost before = result@;
        assert(before.len() == k);
        if k < total {
            let r: usize = k / size;
            let c: usize = k % size;
            proof {
                assert(r < size) by (nonlinear_arith)
                    requires
                        k < size * size,
                        size > 0,
                        r == k / size,
                ;
                lemma_cell_in_matrix(size as int, c as int, r as int);
            }
            result.push(matrix[c * size + r]);
            assert(source(size as int, k as int) == c * size + r);
        } else {
            result.push(matrix[k]);
        }
        proof {
            lemma_transposed_extends(before, matrix@, size as int, result@[k as int]);
        }
        k += 1;
    }
    proof {
        assert forall|r: int, c: int| 0 <= r < size && 0 <= c < size implies 0 <= cell(
            size as int,
            c,
            r,
        ) < result@.len() && result@[#[trigger] cell(size as int, r, c)] == matrix@[cell(
            size as int,
            c,
            r,
        )] by {
            let i = cell(size as int, r, c);
            lemma_cell_in_matrix(size as int, r, c);
            lemma_cell_in_matrix(size as int, c, r);
            lemma_fundamental_div_mod_converse(i, size as int, r, c);
            assert(result@[i] == matrix@[source(size as int, i)]);
        }
    }
    result
}

/// The observation that stands for a player's own first move: `[0]` before
/// it is made, `[1, m]` after the move `m`.
pub open spec fn first_move_words(first: Option<usize>) -> Seq<u64> {
    match first {
        None => seq![0u64],
        Some(m) => seq![1u64, m as u64],
    }
}

/// Whether the unit gives one result only for each operation on each pair
/// of operands.
pub open spec fn unit_is_deterministic<F: Fn(FloatOp, u32, u32) -> u32>(fpu: &F) -> bool {
    forall|op: FloatOp, a: u32, b: u32, r: u32, s: u32|
        #![trigger yields(fpu, op, a, b, r), yields(fpu, op, a, b, s)]
        yields(fpu, op, a, b, r) && yields(fpu, op, a, b, s) ==> r == s
}

/// Whether `mean` is what the unit gives for the mean of two payoffs: their
/// sum, divided by two.
pub open spec fn is_mean<F: Fn(FloatOp, u32, u32) -> u32>(
    fpu: &F,
    r1: u32,
    r2: u32,
    mean: u32,
) -> bool {
    exists|sum: u32| #[trigger]
        yields(fpu, FloatOp::Add, r1, r2, sum) && yields(fpu, FloatOp::Div, sum, TWO, mean)
}

/// The mean of two payoffs as the unit computes it.
pub open spec fn mean_of<F: Fn(FloatOp, u32, u32) -> u32>(fpu: &F, r1: u32, r2: u32) -> u32 {
    choose|mean: u32| is_mean(fpu, r1, r2, mean)
}

/// With a unit that gives one result only, whatever it gives for a mean is
/// the mean.
pub proof fn lemma_mean_is_unique<F: Fn(FloatOp, u32, u32) -> u32>(
    fpu: &F,
    r1: u32,
    r2: u32,
    mean: u32,
)
    requires
        unit_is_deterministic(fpu),
        is_mean(fpu, r1, r2, mean),
    ensures
        mean_of(fpu, r1, r2) == mean,
{
    let other = mean_of(fpu, r1, r2);
    assert(is_mean(fpu, r1, r2, other));
    let sum = choose|sum: u32| #[trigger]
        yields(fpu, FloatOp::Add, r1, r2, sum) && yields(fpu, FloatOp::Div, sum, TWO, mean);
    let other_sum = choose|sum: u32| #[trigger]
        yields(fpu, FloatOp::Add, r1, r2, sum) && yields(fpu, FloatOp::Div, sum, TWO, other);
    assert(sum == other_sum);
    assert(yields(fpu, FloatOp::Div, sum, TWO, mean) && yields(fpu, FloatOp::Div, sum, TWO, other));
}

impl<F: Fn(FloatOp, u32, u32) -> u32 + Copy> DoubleMatrixGame<F> {
    /// Two rounds on the matrix of `num_moves` rows that is given row by
    /// row: the first on the matrix itself, the second on its transpose.
    /// `fpu` computes the mean of the two payoffs.
    pub fn new(num_moves: usize, matrix: Vec<u32>, fpu: F) -> (game: DoubleMatrixGame<F>)
        requires
            matrix@.len() == num_moves * num_moves,
        ensures
            num_moves > 0 && unit_is_total(&fpu) && unit_is_deterministic(&fpu) ==> game.inv(),
            game.fpu == fpu,
            game.game1_moves == (None::<usize>, None::<usize>),
            game.games.0.moves == (None::<Move>, None::<Move>),
            game.games.1.moves == (None::<Move>, None::<Move>),
            game.games.0.matrix@ == matrix@,
            game.games.0.num_moves == num_moves,
            game.games.1.num_moves == num_moves,
            game.games.1.matrix@.len() == matrix@.len(),
            forall|r: int, c: int|
                0 <= r < num_moves && 0 <= c < num_moves ==> game.games.1.matrix@[#[trigger] cell(
                    num_moves as int,
                    r,
                    c,
                )] == matrix@[cell(num_moves as int, c, r)],
    {
        let copy = matrix.clone();
        assert(copy@ =~= matrix@);
        let first = MatrixGame::new(num_moves, copy);
        let second = MatrixGame::new(num_moves, transpose(num_moves, matrix));
        DoubleMatrixGame { games: (first, second), game1_moves: (None, None), fpu }
    }

    /// Two rounds of rock-paper-scissors. Both are played on the same
    /// matrix.
    pub fn new_rock_paper_scissors(fpu: F) -> (game: DoubleMatrixGame<F>)
        ensures
            unit_is_total(&fpu) && unit_is_deterministic(&fpu) ==> game.inv(),
            game.fpu == fpu,
            game.game1_moves == (None::<usize>, None::<usize>),
            game.games.0.num_moves == 3,
            game.games.1.num_moves == 3,
            game.games.0.matrix@ == game.games.1.matrix@,
    {
        DoubleMatrixGame {
            games: (MatrixGame::new_rock_paper_scissors(), MatrixGame::new_rock_paper_scissors()),
            game1_moves: (None, None),
            fpu,
        }
    }

    /// Whether the first round is still being played.
    pub open spec fn in_first_round(&self) -> bool {
        self.games.0.spec_reward() is None
    }

    /// Player 1's payoffs of the two rounds, once both are over.
    pub open spec fn spec_rewards(&self) -> Option<(u32, u32)> {
        match (self.games.0.spec_reward(), self.games.1.spec_reward()) {
            (Some(r1), Some(r2)) => Some((r1, r2)),
            _ => None,
        }
    }

    /// Returns `None` while a round is being played, otherwise player 1's
    /// payoffs of the first and of the second round.
    pub fn get_rewards(&self) -> (rewards: Option<(u32, u32)>)
        requires
            self.inv(),
        ensures
            rewards == self.spec_rewards(),
    {
        match (self.games.0.get_reward(), self.games.1.get_reward()) {
            (Some(r1), Some(r2)) => Some((r1, r2)),
            _ => None,
        }
    }
}

impl<F: Fn(FloatOp, u32, u32) -> u32 + Copy> Game for DoubleMatrixGame<F> {
    type Action = Move;

    /// Both rounds are valid games, the second starts when the first is
    /// over, the record of the first round's moves is true, and the unit
    /// computes every operation with one result.
    open spec fn inv(&self) -> bool {
        &&& self.games.0.inv()
        &&& self.games.1.inv()
        &&& self.game1_moves == self.games.0.moves
        &&& self.games.0.spec_reward() is None ==> self.games.1.moves == (
            None::<Move>,
            None::<Move>,
        )
        &&& unit_is_total(&self.fpu)
        &&& unit_is_deterministic(&self.fpu)
    }

    /// The player to move and the legal moves: those of the round that is
    /// being played.
    open spec fn spec_turn(&self) -> (Player, Seq<Move>) {
        if self.in_first_round() {
            self.games.0.spec_turn()
        } else {
            self.games.1.spec_turn()
        }
    }

    /// The mean of the payoffs of the two rounds, once both are over.
    open spec fn spec_reward(&self) -> Option<u32> {
        match self.spec_rewards() {
            Some((r1, r2)) => Some(mean_of(&self.fpu, r1, r2)),
            None => None,
        }
    }

    open spec fn rank(&self) -> nat {
        self.games.0.rank() + self.games.1.rank()
    }

    open spec fn spec_infoset(&self, player: Player) -> Seq<u64> {
        first_move_words(player.pick(self.game1_moves))
    }

    /// The player to move makes the move in the round that is being played;
    /// the other round, the matrices and the unit stay.
    open spec fn steps(&self, action: Move, after: Self) -> bool {
        let player = self.spec_turn().0;
        &&& self.in_first_round() ==> after.games.0.moves == player.put(
            self.games.0.moves,
            Some(action),
        ) && after.games.1.moves == self.games.1.moves
        &&& !self.in_first_round() ==> after.games.1.moves == player.put(
            self.games.1.moves,
            Some(action),
        ) && after.games.0.moves == self.games.0.moves
        &&& after.game1_moves == after.games.0.moves
        &&& after.games.0.matrix == self.games.0.matrix
        &&& after.games.1.matrix == self.games.1.matrix
        &&& after.games.0.num_moves == self.games.0.num_moves
        &&& after.games.1.num_moves == self.games.1.num_moves
        &&& after.fpu == self.fpu
    }

    open spec fn copies(&self, copy: Self) -> bool {
        &&& self.games.0.copies(copy.games.0)
        &&& self.games.1.copies(copy.games.1)
        &&& copy.game1_moves == self.game1_moves
        &&& copy.fpu == self.fpu
    }

    fn get_turn(&self) -> (turn: (Player, Vec<Move>)) {
        if self.games.0.get_reward().is_none() {
            self.games.0.get_turn()
        } else {
            self.games.1.get_turn()
        }
    }

    fn take_turn(&mut self, player: Player, action: &Move)
        ensures
            old(self).in_first_round() ==> final(self).games.0.moves == player.put(
                old(self).games.0.moves,
                Some(*action),
            ) && final(self).games.1.moves == old(self).games.1.moves,
            !old(self).in_first_round() ==> final(self).games.1.moves == player.put(
                old(self).games.1.moves,
                Some(*action),
            ) && final(self).games.0.moves == old(self).games.0.moves,
            final(self).games.0.matrix == old(self).games.0.matrix,
            final(self).games.1.matrix == old(self).games.1.matrix,
            final(self).games.0.num_moves == old(self).games.0.num_moves,
            final(self).games.1.num_moves == old(self).games.1.num_moves,
            final(self).fpu == old(self).fpu,
    {
        if self.games.0.get_reward().is_none() {
            self.games.0.take_turn(player, action);
            match player {
                Player::P1 => {
                    self.game1_moves.0 = Some(*action);
                },
                Player::P2 => {
                    self.game1_moves.1 = Some(*action);
                },
            }
        } else {
            self.games.1.take_turn(player, action);
        }
    }

    fn get_reward(&self) -> (reward: Option<u32>) {
        match self.get_rewards() {
            Some((r1, r2)) => {
                let sum = (self.fpu)(FloatOp::Add, r1, r2);
                let mean = (self.fpu)(FloatOp::Div, sum, TWO);
                proof {
                    assert(yields(&self.fpu, FloatOp::Add, r1, r2, sum));
                    assert(is_mean(&self.fpu, r1, r2, mean));
                    lemma_mean_is_unique(&self.fpu, r1, r2, mean);
                }
                Some(mean)
            },
            None => None,
        }
    }

    /// Returns what the given player knows: the own move of the first round.
    fn get_infoset(&self, player: Player) -> (infoset: Infoset)
        ensures
            infoset.infoset@ == first_move_words(player.pick(self.game1_moves)),
    {
        let first = match player {
            Player::P1 => self.game1_moves.0,
            Player::P2 => self.game1_moves.1,
        };
        let mut words: Vec<u64> = Vec::new();
        match first {
            None => {
                words.push(0);
            },
            Some(m) => {
                words.push(1);
                words.push(m as u64);
            },
        }
        assert(words@ =~= first_move_words(player.pick(self.game1_moves)));
        Infoset::new(words)
    }

    fn duplicate(&self) -> (copy: Self)
        ensures
            copy.games.0.moves == self.games.0.moves,
            copy.games.1.moves == self.games.1.moves,
            copy.games.0.matrix@ == self.games.0.matrix@,
            copy.games.1.matrix@ == self.games.1.matrix@,
            copy.game1_moves == self.game1_moves,
            copy.fpu == self.fpu,
    {
        DoubleMatrixGame {
            games: (self.games.0.duplicate(), self.games.1.duplicate()),
            game1_moves: (self.game1_moves.0, self.game1_moves.1),
            fpu: self.fpu,
        }
    }
}

} // verus!
