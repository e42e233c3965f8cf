//! How the store is told which game is meant.

use vstd::prelude::*;
use crate::identity::Identity;
use crate::stored::StoredMatrix;

verus! {

/// Selects the one stored game that an update is about.
#[derive(Clone, Copy, PartialEq, Eq, Debug)]
pub enum Filter {
    /// The game stored under this identifier.
    ById(Identity),
    /// The game whose list of players holds this token.
    ByToken(Identity),
}

impl Filter {
    /// Whether the filter selects a record of the store.
    pub open spec fn selects(self, record: StoredMatrix) -> bool {
        match self {
            Filter::ById(id) => record.id@ == id@,
            Filter::ByToken(token) => exists|i: int|
                0 <= i < record.player_ids@.len() && (#[trigger] record.player_ids@[i]).0@
                    == token@,
        }
    }
}

} // verus!
