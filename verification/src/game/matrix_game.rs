//! A game in which each player picks a row or a column of a payoff matrix
//! without seeing the other's pick.

use crate::game::infoset::Infoset;
use crate::game::player::Player;
use crate::game::rules::Game;
use crate::numeric::{MINUS_ONE, ONE, ZERO};
use vstd::prelude::*;

verus! {

/// A move: the number of a row for player 1, of a column for player 2.
pub type Move = usize;

#[derive(Debug)]
pub struct MatrixGame {
    pub moves: (Option<Move>, Option<Move>),
    pub num_moves: usize,
    /// Player 1's payoffs, row by row, as bit patterns.
    pub matrix: Vec<u32>,
}

/// The moves `0 .. n` in rising order.
pub open spec fn moves_below(n: usize) -> Seq<Move> {
    Seq::new(n as nat, |i: int| i as usize)
}

/// A cell of a square matrix lies inside it.
pub proof fn lemma_cell_in_matrix(n: int, row: int, col: int)
    requires
        0 <= row < n,
        0 <= col < n,
    ensures
        0 <= n * row <= n * row + col < n * n,
        0 <= row * n <= row * n + col < n * n,
{
    assert(n * row <= n * (n - 1)) by (nonlinear_arith)
        requires
            0 <= row <= n - 1,
            n >= 0,
    ;
    assert(n * (n - 1) == n * n - n) by (nonlinear_arith);
    assert(n * row == row * n) by (nonlinear_arith);
    assert(0 <= n * row) by (nonlinear_arith)
        requires
            0 <= row,
            0 <= n,
    ;
}

impl MatrixGame {
    /// A game on the square matrix of `num_moves` rows that is given row by
    /// row.
    pub fn new(num_moves: usize, matrix: Vec<u32>) -> (game: MatrixGame)
        requires
            matrix@.len() == num_moves * num_moves,
        ensures
            game.moves == (None::<Move>, None::<Move>),
            game.num_moves == num_moves,
            game.matrix == matrix,
            num_moves > 0 ==> game.inv(),
    {
        MatrixGame { moves: (None, None), num_moves, matrix }
    }

    /// Rock-paper-scissors as a matrix game: rock, paper, scissors are the
    /// moves 0, 1, 2.
    pub fn new_rock_paper_scissors() -> (game: MatrixGame)
        ensures
            game.moves == (None::<Move>, None::<Move>),
            game.num_moves == 3,
            game.matrix@ == seq![
                ZERO,
                MINUS_ONE,
                ONE,
                ONE,
                ZERO,
                MINUS_ONE,
                MINUS_ONE,
                ONE,
                ZERO,
            ],
            game.inv(),
    {
        let mut matrix: Vec<u32> = Vec::new();
        matrix.push(ZERO);
        matrix.push(MINUS_ONE);
        matrix.push(ONE);
        matrix.push(ONE);
        matrix.push(ZERO);
        matrix.push(MINUS_ONE);
        matrix.push(MINUS_ONE);
        matrix.push(ONE);
        matrix.push(ZERO);
        assert(matrix@ =~= seq![
            ZERO,
            MINUS_ONE,
            ONE,
            ONE,
            ZERO,
            MINUS_ONE,
            MINUS_ONE,
            ONE,
            ZERO,
        ]);
        MatrixGame::new(3, matrix)
    }

    /// Whether both players have moved.
    pub open spec fn over(&self) -> bool {
        self.moves.0 is Some && self.moves.1 is Some
    }
}

impl Clone for MatrixGame {
    fn clone(&self) -> (copy: Self)
        ensures
            copy.moves == self.moves,
            copy.num_moves == self.num_moves,
            copy.matrix@ == self.matrix@,
    {
        let copy = MatrixGame {
            moves: (self.moves.0, self.moves.1),
            num_moves: self.num_moves,
            matrix: self.matrix.clone(),
        };
        assert(copy.matrix@ =~= self.matrix@);
        copy
    }
}

impl Game for MatrixGame {
    type Action = Move;

    /// The matrix is square and not empty, the moves made lie in it, and
    /// player 1 moves first.
    open spec fn inv(&self) -> bool {
        &&& self.num_moves > 0
        &&& self.matrix@.len() == self.num_moves * self.num_moves
        &&& self.moves.0 matches Some(m) ==> m < self.num_moves
        &&& self.moves.1 matches Some(m) ==> m < self.num_moves
        &&& self.moves.0 is None ==> self.moves.1 is None
    }

    open spec fn spec_turn(&self) -> (Player, Seq<Move>) {
        (
            if self.moves.0 is None {
                Player::P1
            } else {
                Player::P2
            },
            if self.over() {
                Seq::<Move>::empty()
            } else {
                moves_below(self.num_moves)
            },
        )
    }

    /// The payoff in the row of player 1's move and the column of player
    /// 2's.
    open spec fn spec_reward(&self) -> Option<u32> {
        if self.over() {
            Some(self.matrix@[self.num_moves * self.moves.0->0 + self.moves.1->0])
        } else {
            None
        }
    }

    open spec fn rank(&self) -> nat {
        (if self.moves.0 is None {
            1nat
        } else {
            0nat
        }) + (if self.moves.1 is None {
            1nat
        } else {
            0nat
        })
    }

    open spec fn spec_infoset(&self, player: Player) -> Seq<u64> {
        seq![0u64]
    }

    /// The player to move makes the move; the matrix stays.
    open spec fn steps(&self, action: Move, after: Self) -> bool {
        &&& after.moves == self.spec_turn().0.put(self.moves, Some(action))
        &&& after.num_moves == self.num_moves
        &&& after.matrix == self.matrix
    }

    open spec fn copies(&self, copy: Self) -> bool {
        &&& copy.moves == self.moves
        &&& copy.num_moves == self.num_moves
        &&& copy.matrix@ == self.matrix@
    }

    fn get_turn(&self) -> (turn: (Player, Vec<Move>)) {
        let mut moves: Vec<Move> = Vec::new();
        if self.moves.0.is_none() || self.moves.1.is_none() {
            let mut i: usize = 0;
            while i < self.num_moves
                invariant
                    i <= self.num_moves,
                    moves@ == moves_below(i),
                decreases self.num_moves - i,
            {
                moves.push(i);
                i += 1;
                assert(moves@ =~= moves_below(i));
            }
        }
        assert(self.over() ==> moves@ =~= Seq::<Move>::empty());
        if self.moves.0.is_none() {
            (Player::P1, moves)
        } else {
            (Player::P2, moves)
        }
    }

    fn take_turn(&mut self, player: Player, action: &Move)
        ensures
            final(self).moves == player.put(old(self).moves, Some(*action)),
            final(self).num_moves == old(self).num_moves,
            final(self).matrix == old(self).matrix,
    {
        assert(moves_below(self.num_moves).contains(*action));
        assert(*action < self.num_moves) by {
            let s = moves_below(self.num_moves);
            let i = choose|i: int| 0 <= i < s.len() && s[i] == *action;
            assert(s[i] == i as usize);
        }
        match player {
            Player::P1 => {
                self.moves.0 = Some(*action);
            },
            Player::P2 => {
                self.moves.1 = Some(*action);
            },
        }
    }

    fn get_reward(&self) -> (reward: Option<u32>) {
        let p1_move = match self.moves.0 {
            Some(m) => m,
            None => return None,
        };
        let p2_move = match self.moves.1 {
            Some(m) => m,
            None => return None,
        };
        let cells: usize = self.matrix.len();
        proof {
            lemma_cell_in_matrix(self.num_moves as int, p1_move as int, p2_move as int);
            assert(self.num_moves * p1_move + p2_move < cells);
        }
        Some(self.matrix[self.num_moves * p1_move + p2_move])
    }

    /// Neither player sees anything: every position is filed under one and
    /// the same observation.
    fn get_infoset(&self, _player: Player) -> (infoset: Infoset)
        ensures
            infoset.infoset@ == seq![0u64],
    {
        let mut words: Vec<u64> = Vec::new();
        words.push(0);
        assert(words@ =~= seq![0u64]);
        Infoset::new(words)
    }

    fn duplicate(&self) -> (copy: Self)
        ensures
            copy.moves == self.moves,
            copy.num_moves == self.num_moves,
            copy.matrix@ == self.matrix@,
    {
        self.clone()
    }
}

} // verus!
