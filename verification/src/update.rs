//! The atomic update of a stored game: fetch it under a fresh lock stamp,
//! change it, put the changed record in its place, commit. The store does
//! the work; what is decided here is which request follows which reply.

use vstd::prelude::*;
use crate::board::Board;
use crate::errors::{JoinError, TryMoveError};
use crate::filter::Filter;
use crate::identity::Identity;
use crate::matrix::Matrix;
use crate::player::{Player, UserMove};
use crate::stored::StoredMatrix;

verus! {

/// Why an update did not go through, the game's own rules apart.
#[derive(Clone, Copy, PartialEq, Eq, Debug, Structural)]
pub enum UpdateError {
    /// The filter selects no stored game.
    NotFound,
    /// The store failed, or what it holds is no game.
    Store,
}

/// A change to make to a game.
#[derive(Clone, PartialEq, Eq, Debug)]
pub enum Mutation {
    /// Seat one more player.
    Join,
    /// Play a move.
    Move(UserMove),
}

/// What the game answered to a change: its result, or the rule that turned
/// the change down.
#[derive(Clone, Copy, PartialEq, Eq, Debug)]
pub enum Outcome {
    Joined(Result<(Identity, Player), JoinError>),
    Moved(Result<(bool, Player), TryMoveError>),
}

/// What the store is asked to do next, or the end of the update.
#[derive(PartialEq, Eq, Debug)]
pub enum Request {
    /// Open a transaction.
    StartTransaction,
    /// Fetch the game that the filter selects, writing `lock` on it.
    FindAndStamp { filter: Filter, lock: Identity },
    /// Put `record` in the place of the game that the filter selects.
    Replace { filter: Filter, record: StoredMatrix },
    /// Commit the transaction.
    Commit,
    /// Nothing more: the update ended so.
    Finish(Result<Outcome, UpdateError>),
}

/// What the store answered to the last request.
#[derive(Clone, PartialEq, Eq, Debug)]
pub enum Reply {
    /// The transaction is open.
    Started,
    /// The game that was selected, as it was before the stamp, or none.
    Found(Option<StoredMatrix>),
    /// The record was replaced.
    Replaced,
    /// The transaction is committed.
    Committed,
    /// The store failed at the last request.
    Failed,
}

/// How far an update has come.
#[derive(Clone, Copy, PartialEq, Eq, Debug)]
pub enum Phase {
    /// Waiting for the transaction to open.
    Starting,
    /// Waiting for the game.
    Fetching,
    /// The game answered; waiting for the record to be replaced.
    Replacing(Outcome),
    /// Waiting for the commit.
    Committing(Outcome),
    /// The update has ended.
    Finished,
}

/// One update of one stored game.
#[derive(Clone, PartialEq, Eq, Debug)]
pub struct Update {
    pub filter: Filter,
    pub mutation: Mutation,
    pub phase: Phase,
}

/// Whether `mutation` takes the game `before` to the game `after` with the
/// answer `outcome`. A change that the rules turn down leaves the game as it
/// was.
pub open spec fn applies(
    mutation: Mutation,
    before: Board,
    after: Board,
    outcome: Outcome,
) -> bool {
    match mutation {
        Mutation::Join => outcome matches Outcome::Joined(joined) && before.seats(joined, after),
        Mutation::Move(user_move) => outcome matches Outcome::Moved(played) && before.plays(
            user_move.identity_token@,
            user_move.x as int,
            played,
            after,
        ),
    }
}

impl Matrix {
    /// Starts the update that fetches the game that `filter` selects, makes
    /// the change `mutation` to it and saves it: the first request opens a
    /// transaction, and `Update::advance` says what follows each reply.
    pub fn get_and_save(filter: Filter, mutation: Mutation) -> (start: (Update, Request))
        ensures
            start.0.filter == filter,
            start.0.mutation == mutation,
            start.0.phase == Phase::Starting,
            start.1 == Request::StartTransaction,
    {
        (Update { filter, mutation, phase: Phase::Starting }, Request::StartTransaction)
    }

    /// Makes the change, under the rules of `join` and of `try_move`.
    pub fn apply(&mut self, mutation: &Mutation) -> (outcome: Outcome)
        requires
            old(self).wf(),
        ensures
            final(self).wf(),
            applies(*mutation, old(self)@, final(self)@, outcome),
    {
        match mutation {
            Mutation::Join => Outcome::Joined(self.join()),
            Mutation::Move(user_move) => Outcome::Moved(self.try_move(user_move)),
        }
    }
}

impl Update {
    /// Whether the reply `reply`, come in the state `self`, is followed by
    /// the state `next` and the request `request`.
    ///
    /// The replies that carry an update forward come in one order: the
    /// transaction opens, the game is found, the record is replaced, the
    /// commit succeeds. A game that is not found ends the update with
    /// `NotFound`. Anything else ends it with `Store`: a failure of the
    /// store, a record that is no game, a reply that does not answer the
    /// last request. The change is made to the game as it was found, and the
    /// record that replaces it is the changed game written down, each pair
    /// of its players once, whether or not the rules turned the change down.
    pub open spec fn follows(self, reply: Reply, next: Update, request: Request) -> bool {
        &&& next.filter == self.filter
        &&& next.mutation == self.mutation
        &&& match (self.phase, reply) {
            (Phase::Starting, Reply::Started) => {
                &&& next.phase == Phase::Fetching
                &&& request matches Request::FindAndStamp { filter, lock }
                &&& filter == self.filter
            },
            (Phase::Fetching, Reply::Found(None)) => {
                &&& next.phase == Phase::Finished
                &&& request == Request::Finish(Err(UpdateError::NotFound))
            },
            (Phase::Fetching, Reply::Found(Some(found))) => if found.grid_fits() {
                &&& request matches Request::Replace { filter, record }
                &&& filter == self.filter
                &&& record.grid_fits()
                &&& record.board().wf()
                &&& record.holds(record.board())
                &&& next.phase matches Phase::Replacing(outcome)
                &&& applies(self.mutation, found.board(), record.board(), outcome)
            } else {
                &&& next.phase == Phase::Finished
                &&& request == Request::Finish(Err(UpdateError::Store))
            },
            (Phase::Replacing(outcome), Reply::Replaced) => {
                &&& next.phase == Phase::Committing(outcome)
                &&& request == Request::Commit
            },
            (Phase::Committing(outcome), Reply::Committed) => {
                &&& next.phase == Phase::Finished
                &&& request == Request::Finish(Ok(outcome))
            },
            _ => {
                &&& next.phase == Phase::Finished
                &&& request == Request::Finish(Err(UpdateError::Store))
            },
        }
    }

    /// The record that an update puts in the place of a game is the game as
    /// the store handed it to this update, changed by this update's change
    /// alone.
    pub proof fn lemma_replaces_with_own_change(
        self,
        reply: Reply,
        next: Update,
        filter: Filter,
        record: StoredMatrix,
    )
        requires
            self.follows(reply, next, (Request::Replace { filter, record })),
        ensures
            self.phase == Phase::Fetching,
            filter == self.filter,
            reply matches Reply::Found(Some(found)) && next.phase matches Phase::Replacing(outcome)
                && applies(self.mutation, found.board(), record.board(), outcome),
    {
    }

    /// A commit is asked for only once the store has replaced the record,
    /// and an update ends with a result only once the store has committed:
    /// the result is then the answer that the game gave to the change.
    pub proof fn lemma_result_only_after_commit(self, reply: Reply, next: Update, request: Request)
        requires
            self.follows(reply, next, request),
        ensures
            request == Request::Commit ==> reply == Reply::Replaced && self.phase
                matches Phase::Replacing(_),
            request matches Request::Finish(Ok(outcome)) ==> reply == Reply::Committed
                && self.phase == Phase::Committing(outcome),
    {
    }

    /// An update that the store fails, at whatever request, ends there with
    /// the store's error and asks for nothing more: of two updates that
    /// race for one game, the one that the store turns away has no result.
    pub proof fn lemma_failure_ends_update(self, next: Update, request: Request)
        requires
            self.follows(Reply::Failed, next, request),
        ensures
            request == Request::Finish(Err(UpdateError::Store)),
            next.phase == Phase::Finished,
    {
    }

    /// Takes the store's reply to the last request and says what to ask
    /// next.
    pub fn advance(self, reply: Reply) -> (next: (Update, Request))
        ensures
            self.follows(reply, next.0, next.1),
    {
        let Update { filter, mutation, phase } = self;
        match (phase, reply) {
            (Phase::Starting, Reply::Started) => {
                let lock = Identity::generate();
                (
                    Update { filter, mutation, phase: Phase::Fetching },
                    Request::FindAndStamp { filter, lock },
                )
            },
            (Phase::Fetching, Reply::Found(None)) => (
                Update { filter, mutation, phase: Phase::Finished },
                Request::Finish(Err(UpdateError::NotFound)),
            ),
            (Phase::Fetching, Reply::Found(Some(found))) => {
                match Matrix::from_stored(found) {
                    None => (
                        Update { filter, mutation, phase: Phase::Finished },
                        Request::Finish(Err(UpdateError::Store)),
                    ),
                    Some(matrix) => {
                        let mut matrix = matrix;
                        let outcome = matrix.apply(&mutation);
                        let record = matrix.to_stored();
                        (
                            Update { filter, mutation, phase: Phase::Replacing(outcome) },
                            Request::Replace { filter, record },
                        )
                    },
                }
            },
            (Phase::Replacing(outcome), Reply::Replaced) => (
                Update { filter, mutation, phase: Phase::Committing(outcome) },
                Request::Commit,
            ),
            (Phase::Committing(outcome), Reply::Committed) => (
                Update { filter, mutation, phase: Phase::Finished },
                Request::Finish(Ok(outcome)),
            ),
            _ => (
                Update { filter, mutation, phase: Phase::Finished },
                Request::Finish(Err(UpdateError::Store)),
            ),
        }
    }
}

} // verus!
