use vstd::prelude::*;

verus! {

/// One of the two sides of a game.
#[derive(Clone, Copy, Debug, PartialEq, Eq, Structural, Hash)]
pub enum Player {
    P1,
    P2,
}

impl Player {
    /// The opposing side.
    pub open spec fn spec_other(&self) -> Player {
        match *self {
            Player::P1 => Player::P2,
            Player::P2 => Player::P1,
        }
    }

    /// The member of `pair` that belongs to this player: the first for `P1`,
    /// the second for `P2`.
    pub open spec fn pick<T>(self, pair: (T, T)) -> T {
        match self {
            Player::P1 => pair.0,
            Player::P2 => pair.1,
        }
    }

    /// `pair` with this player's member replaced by `value`.
    pub open spec fn put<T>(self, pair: (T, T), value: T) -> (T, T) {
        match self {
            Player::P1 => (value, pair.1),
            Player::P2 => (pair.0, value),
        }
    }

    /// The player's number in encodings: 0 for `P1`, 1 for `P2`.
    pub open spec fn spec_index(&self) -> u64 {
        match *self {
            Player::P1 => 0,
            Player::P2 => 1,
        }
    }

    /// Gets the opposite player.
    #[verifier::when_used_as_spec(spec_other)]
    pub fn other(&self) -> (r: Player)
        ensures
            r == self.spec_other(),
    {
        match self {
            Player::P1 => Player::P2,
            Player::P2 => Player::P1,
        }
    }

    /// Returns a mutable reference to this player's member of a pair, so that
    /// per-player state can be kept in tuples.
    pub fn lens_mut<'a, T>(&self, tuple: &'a mut (T, T)) -> (r: &'a mut T)
        ensures
            *r == self.pick(*old(tuple)),
            *final(tuple) == self.put(*old(tuple), *final(r)),
    {
        match self {
            Player::P1 => &mut tuple.0,
            Player::P2 => &mut tuple.1,
        }
    }

    /// Returns a reference to this player's member of a pair.
    pub fn lens<'a, T>(&self, tuple: &'a (T, T)) -> (r: &'a T)
        ensures
            *r == self.pick(*tuple),
    {
        match self {
            Player::P1 => &tuple.0,
            Player::P2 => &tuple.1,
        }
    }

    /// The player's number in encodings: 0 for `P1`, 1 for `P2`.
    #[verifier::when_used_as_spec(spec_index)]
    pub fn index(&self) -> (r: u64)
        ensures
            r == self.spec_index(),
    {
        match self {
            Player::P1 => 0,
            Player::P2 => 1,
        }
    }

    /// The player's short name, `"P1"` or `"P2"`.
    pub fn label(&self) -> (s: String)
        ensures
            s@ == (match *self {
                Player::P1 => "P1"@,
                Player::P2 => "P2"@,
            }),
    {
        match self {
            Player::P1 => "P1".to_string(),
            Player::P2 => "P2".to_string(),
        }
    }
}

/// Taking the other side twice gives the same side back.
pub proof fn lemma_other_involution(p: Player)
    ensures
        p.other().other() == p,
        p.other() != p,
{
}

} // verus!
