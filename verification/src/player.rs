//! The two sides of a game and helpers to pick per-player resources.

use vstd::prelude::*;

verus! {

/// One of the two participants of a lobby.  `One` is always the host.
#[derive(Clone, Copy, Debug, PartialEq, Eq, Structural)]
pub enum Player {
    One,
    Two,
}

impl Player {
    /// The opponent of `self`.
    pub fn other(self) -> (r: Player)
        ensures
            r == self.spec_other(),
            r != self,
    {
        if self == Player::One {
            Player::Two
        } else {
            Player::One
        }
    }

    pub open spec fn spec_other(self) -> Player {
        if self == Player::One {
            Player::Two
        } else {
            Player::One
        }
    }

    /// Picks the first value for `One` and the second for `Two`.
    pub fn select<T>(self, one: T, two: T) -> (r: T)
        ensures
            self == Player::One ==> r == one,
            self == Player::Two ==> r == two,
    {
        match self {
            Player::One => one,
            Player::Two => two,
        }
    }
}

/// Flipping sides twice returns to the original side.
pub proof fn lemma_other_involutive(p: Player)
    ensures
        p.spec_other().spec_other() == p,
{
}

} // verus!
