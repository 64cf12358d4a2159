use crate::game::infoset::Infoset;
use crate::game::player::Player;
use vstd::prelude::*;

verus! {

/// A two-player zero-sum game, seen as a position that can be advanced.
///
/// The game is over when `get_reward` returns a payoff, which is player 1's,
/// as the bit pattern of a single-precision number in [-1, +1]; player 2's
/// payoff is its negation. Payoffs and legal actions are functions of the
/// position, and every legal action leads to a position of smaller `rank`, so
/// that every play ends.
pub trait Game: Sized {
    type Action;

    /// What holds of every position that play can reach.
    spec fn inv(&self) -> bool;

    /// The player to move and the legal actions in their fixed order. There
    /// are none exactly where the game is over.
    spec fn spec_turn(&self) -> (Player, Seq<Self::Action>);

    /// Player 1's payoff, where the game is over.
    spec fn spec_reward(&self) -> Option<u32>;

    /// A bound on the number of actions that can still be taken.
    spec fn rank(&self) -> nat;

    /// What a player has observed so far, earlier observations first.
    spec fn spec_infoset(&self, player: Player) -> Seq<u64>;

    /// Whether `after` is the position that the action of the player to move
    /// leads to.
    spec fn steps(&self, action: Self::Action, after: Self) -> bool;

    /// Whether `copy` is a copy of the position.
    spec fn copies(&self, copy: Self) -> bool;

    /// Returns the player to move and all legal actions.
    fn get_turn(&self) -> (turn: (Player, Vec<Self::Action>))
        requires
            self.inv(),
        ensures
            turn.0 == self.spec_turn().0,
            turn.1@ == self.spec_turn().1,
            (turn.1@.len() == 0) == (self.spec_reward() is Some),
    ;

    /// The given player does the given action for their turn.
    fn take_turn(&mut self, player: Player, action: &Self::Action)
        requires
            old(self).inv(),
            player == old(self).spec_turn().0,
            old(self).spec_turn().1.contains(*action),
        ensures
            final(self).inv(),
            final(self).rank() < old(self).rank(),
            old(self).steps(*action, *final(self)),
    ;

    /// Returns `None` if the game is not over, otherwise the payoff of
    /// player 1.
    fn get_reward(&self) -> (reward: Option<u32>)
        requires
            self.inv(),
        ensures
            reward == self.spec_reward(),
    ;

    /// Returns what the given player has observed so far, earlier observations
    /// first.
    fn get_infoset(&self, player: Player) -> (infoset: Infoset)
        requires
            self.inv(),
        ensures
            infoset.wf(),
            infoset.infoset@ == self.spec_infoset(player),
    ;

    /// Copies the position, so that each action can be explored from it.
    fn duplicate(&self) -> (copy: Self)
        requires
            self.inv(),
        ensures
            copy.inv(),
            copy.spec_turn() == self.spec_turn(),
            copy.spec_reward() == self.spec_reward(),
            copy.rank() == self.rank(),
            self.copies(copy),
    ;
}

} // verus!
