//! Rock-paper-scissors, with the moves made one after the other and hidden
//! from the opponent.

use crate::game::infoset::Infoset;
use crate::game::player::Player;
use crate::game::rules::Game;
use crate::numeric::{MINUS_ONE, ONE, ZERO};
use vstd::prelude::*;

verus! {

#[derive(Debug, Clone, Copy)]
pub struct RockPaperScissors {
    pub p1_move: Option<Move>,
    pub p2_move: Option<Move>,
}

#[derive(Debug, Clone, Copy, PartialEq, Eq, Structural, Hash)]
pub enum Move {
    Rock,
    Paper,
    Scissors,
}

/// Whether the first move defeats the second: paper wraps rock, rock blunts
/// scissors, scissors cut paper.
pub open spec fn beats(a: Move, b: Move) -> bool {
    (a == Move::Paper && b == Move::Rock) || (a == Move::Rock && b == Move::Scissors) || (a
        == Move::Scissors && b == Move::Paper)
}

/// Player 1's payoff for a pair of moves: 1 for a win, -1 for a loss, 0 for a
/// tie.
pub open spec fn payoff(p1: Move, p2: Move) -> u32 {
    if beats(p1, p2) {
        ONE
    } else if beats(p2, p1) {
        MINUS_ONE
    } else {
        ZERO
    }
}

/// The three moves in their fixed order.
pub open spec fn all_moves() -> Seq<Move> {
    seq![Move::Rock, Move::Paper, Move::Scissors]
}

/// Of two different moves one beats the other, and no move beats itself: the
/// payoff of a pair is the negation of the payoff of the swapped pair.
pub proof fn lemma_payoff_is_antisymmetric(a: Move, b: Move)
    ensures
        payoff(a, b) == crate::numeric::negated(payoff(b, a)) || (payoff(a, b) == ZERO && payoff(
            b,
            a,
        ) == ZERO),
        (payoff(a, b) == ZERO) == (a == b),
{
}

impl RockPaperScissors {
    /// A game in which nobody has moved.
    pub fn new() -> (game: RockPaperScissors)
        ensures
            game.p1_move is None,
            game.p2_move is None,
            game.inv(),
    {
        RockPaperScissors { p1_move: None, p2_move: None }
    }
}

impl Game for RockPaperScissors {
    type Action = Move;

    /// Player 1 moves first.
    open spec fn inv(&self) -> bool {
        self.p1_move is None ==> self.p2_move is None
    }

    open spec fn spec_turn(&self) -> (Player, Seq<Move>) {
        (
            if self.p1_move is None {
                Player::P1
            } else {
                Player::P2
            },
            if self.p1_move is Some && self.p2_move is Some {
                Seq::<Move>::empty()
            } else {
                all_moves()
            },
        )
    }

    open spec fn spec_reward(&self) -> Option<u32> {
        if self.p1_move is Some && self.p2_move is Some {
            Some(payoff(self.p1_move->0, self.p2_move->0))
        } else {
            None
        }
    }

    open spec fn rank(&self) -> nat {
        (if self.p1_move is None {
            1nat
        } else {
            0nat
        }) + (if self.p2_move is None {
            1nat
        } else {
            0nat
        })
    }

    open spec fn spec_infoset(&self, player: Player) -> Seq<u64> {
        seq![0u64]
    }

    /// The player to move makes the move; the other move stays.
    open spec fn steps(&self, action: Move, after: Self) -> bool {
        if self.p1_move is None {
            after.p1_move == Some(action) && after.p2_move == self.p2_move
        } else {
            after.p2_move == Some(action) && after.p1_move == self.p1_move
        }
    }

    open spec fn copies(&self, copy: Self) -> bool {
        copy == *self
    }

    fn get_turn(&self) -> (turn: (Player, Vec<Move>)) {
        let mut moves: Vec<Move> = Vec::new();
        if self.p1_move.is_none() || self.p2_move.is_none() {
            moves.push(Move::Rock);
            moves.push(Move::Paper);
            moves.push(Move::Scissors);
            assert(moves@ =~= all_moves());
        } else {
            assert(moves@ =~= Seq::<Move>::empty());
        }
        if self.p1_move.is_none() {
            (Player::P1, moves)
        } else {
            (Player::P2, moves)
        }
    }

    fn take_turn(&mut self, player: Player, action: &Move)
        ensures
            final(self).p1_move == (if player == Player::P1 {
                Some(*action)
            } else {
                old(self).p1_move
            }),
            final(self).p2_move == (if player == Player::P2 {
                Some(*action)
            } else {
                old(self).p2_move
            }),
    {
        match player {
            Player::P1 => {
                self.p1_move = Some(*action);
            },
            Player::P2 => {
                self.p2_move = Some(*action);
            },
        }
    }

    fn get_reward(&self) -> (reward: Option<u32>) {
        let p1_move = match self.p1_move {
            Some(m) => m,
            None => return None,
        };
        let p2_move = match self.p2_move {
            Some(m) => m,
            None => return None,
        };
        Some(
            match (p1_move, p2_move) {
                (Move::Paper, Move::Rock) => ONE,
                (Move::Paper, Move::Scissors) => MINUS_ONE,
                (Move::Rock, Move::Scissors) => ONE,
                (Move::Rock, Move::Paper) => MINUS_ONE,
                (Move::Scissors, Move::Paper) => ONE,
                (Move::Scissors, Move::Rock) => MINUS_ONE,
                _ => ZERO,
            },
        )
    }

    /// Neither player sees anything: every position is filed under one and
    /// the same observation.
    fn get_infoset(&self, _player: Player) -> (infoset: Infoset)
        ensures
            infoset.infoset@ == seq![0u64],
    {
        let mut words: Vec<u64> = Vec::new();
        words.push(0);
        assert(words@ =~= seq![0u64]);
        Infoset::new(words)
    }

    fn duplicate(&self) -> (copy: Self)
        ensures
            copy == *self,
    {
        RockPaperScissors { p1_move: self.p1_move, p2_move: self.p2_move }
    }
}

} // verus!
