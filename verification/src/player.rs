//! The two players and the messages that carry a game's settings and moves.

use vstd::prelude::*;

verus! {

/// One of the two sides of a game.
#[derive(Clone, Copy, PartialEq, Eq, Hash, Debug, Structural)]
pub enum Player {
    P1,
    P2,
}

impl Player {
    /// The opponent of this player.
    pub open spec fn opponent(self) -> Player {
        match self {
            Player::P1 => Player::P2,
            Player::P2 => Player::P1,
        }
    }

    /// The opponent of this player.
    pub fn other(self) -> (p: Player)
        ensures
            p == self.opponent(),
    {
        match self {
            Player::P1 => Player::P2,
            Player::P2 => Player::P1,
        }
    }
}

/// What a client chooses when it creates a game.
#[derive(Clone, Copy, PartialEq, Eq, Debug, Structural)]
pub struct GameSettings {
    pub horizontal_size: u32,
    pub vertical_size: u32,
    pub is_horizontal_cyclic: bool,
}

/// A request to drop a mark into column `x`, signed with the token that the
/// player was given when joining.
#[derive(Clone, PartialEq, Eq, Debug)]
pub struct UserMove {
    pub x: u32,
    pub identity_token: String,
}

} // verus!
