//! Why the board turns a request down.

use vstd::prelude::*;

verus! {

/// Why a player could not join.
#[derive(Clone, Copy, PartialEq, Eq, Debug, Structural)]
pub enum JoinError {
    GameAlreadyFull,
    /// The token drawn for the new player is held by a player of the game.
    IdentityTaken,
}

/// Why a move was not played.
#[derive(Clone, Copy, PartialEq, Eq, Debug, Structural)]
pub enum TryMoveError {
    ColumnFull,
    MissingColumn,
    OtherPlayerTurn,
    IdWrongFormat,
    /// The token is well formed but no player of this game holds it.
    UnknownIdentity,
    /// A line of four was completed: the game takes no more moves.
    GameFinished,
}

impl JoinError {
    /// What a client is told of the rule.
    pub open spec fn message(self) -> &'static str {
        match self {
            JoinError::GameAlreadyFull => "game is already full",
            JoinError::IdentityTaken => "identity token is already in use",
        }
    }
}

impl TryMoveError {
    /// What a client is told of the rule.
    pub open spec fn message(self) -> &'static str {
        match self {
            TryMoveError::OtherPlayerTurn => "not your move",
            TryMoveError::MissingColumn => "column does not exists",
            TryMoveError::ColumnFull => "column already filled",
            TryMoveError::IdWrongFormat => "id should be 24-char hexadecimal string",
            TryMoveError::UnknownIdentity => "id does not belong to a player of this game",
            TryMoveError::GameFinished => "game is already finished",
        }
    }
}

impl From<JoinError> for &'static str {
    fn from(e: JoinError) -> (s: &'static str)
    {
        match e {
            JoinError::GameAlreadyFull => "game is already full",
            JoinError::IdentityTaken => "identity token is already in use",
        }
    }
}

impl vstd::std_specs::convert::FromSpecImpl<JoinError> for &'static str {
    open spec fn obeys_from_spec() -> bool {
        true
    }

    open spec fn from_spec(e: JoinError) -> &'static str {
        e.message()
    }
}

impl From<TryMoveError> for &'static str {
    fn from(e: TryMoveError) -> (s: &'static str)
    {
        match e {
            TryMoveError::OtherPlayerTurn => "not your move",
            TryMoveError::MissingColumn => "column does not exists",
            TryMoveError::ColumnFull => "column already filled",
            TryMoveError::IdWrongFormat => "id should be 24-char hexadecimal string",
            TryMoveError::UnknownIdentity => "id does not belong to a player of this game",
            TryMoveError::GameFinished => "game is already finished",
        }
    }
}

impl vstd::std_specs::convert::FromSpecImpl<TryMoveError> for &'static str {
    open spec fn obeys_from_spec() -> bool {
        true
    }

    open spec fn from_spec(e: TryMoveError) -> &'static str {
        e.message()
    }
}

} // verus!
