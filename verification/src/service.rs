//! The face of the game towards its clients: what a request asks of the
//! store, what a client is told of the result, and how a stream of moves is
//! worked through, one move at a time.

use vstd::prelude::*;
use crate::errors::TryMoveError;
use crate::filter::Filter;
use crate::identity::{bytes_text, is_identity_text, text_bytes, Identity};
use crate::matrix::Matrix;
use crate::player::{Player, UserMove};
use crate::update::{Mutation, Outcome, Phase, Reply, Request, Update, UpdateError};

verus! {

/// Names a game to a client.
#[derive(Clone, PartialEq, Eq, Debug)]
pub struct GameId {
    pub id: String,
}

/// Tells a client which player it is, and the token to sign its moves with.
#[derive(Clone, PartialEq, Eq, Debug)]
pub struct PlayerAssigment {
    pub player: Player,
    pub identity_token: String,
}

/// Tells a client of a move that was played.
#[derive(Clone, Copy, PartialEq, Eq, Debug, Structural)]
pub struct MoveInfo {
    pub x: u32,
    pub player: Player,
    pub is_last_move: bool,
}

/// The two kinds of failure that a client is told apart.
#[derive(Clone, Copy, PartialEq, Eq, Debug, Structural)]
pub enum Code {
    /// The game's rules turned the request down.
    InvalidArgument,
    /// The request could not be served.
    Internal,
}

/// A failure as a client sees it.
#[derive(Clone, PartialEq, Eq, Debug)]
pub struct Status {
    pub code: Code,
    pub message: String,
}

/// What a client is told when a request could not be served.
pub open spec fn internal_message() -> Seq<char> {
    "Internal Server Error"@
}

impl Status {
    /// The failure that tells a client which rule turned its request down.
    pub open spec fn is_rejection(&self, message: &'static str) -> bool {
        self.code == Code::InvalidArgument && self.message@ == message@
    }

    /// The failure that tells a client no more than that the request could
    /// not be served.
    pub open spec fn is_internal(&self) -> bool {
        self.code == Code::Internal && self.message@ == internal_message()
    }
}

/// The failure that hides what went wrong from the client.
pub fn internal_server_err() -> (status: Status)
    ensures
        status.is_internal(),
{
    Status { code: Code::Internal, message: "Internal Server Error".to_owned() }
}

/// The failure that names the rule that turned a request down.
pub fn rejection(message: &'static str) -> (status: Status)
    ensures
        status.is_rejection(message),
{
    Status { code: Code::InvalidArgument, message: message.to_owned() }
}

/// The answer to the client that created the game stored under `id`.
pub fn created(id: &Identity) -> (game: GameId)
    ensures
        game.id@ == bytes_text(id@),
{
    GameId { id: id.to_hex() }
}

/// What the update of a request to join has to end with for the client to
/// be seated as `assigment` says.
pub open spec fn seats(result: Result<Outcome, UpdateError>, assigment: PlayerAssigment) -> bool {
    result matches Ok(Outcome::Joined(Ok(pair))) && assigment.player == pair.1
        && assigment.identity_token@ == bytes_text(pair.0@)
}

/// What the update of a move into column `x` has to end with for the
/// client to be told `info`.
pub open spec fn reports(result: Result<Outcome, UpdateError>, x: u32, info: MoveInfo) -> bool {
    result matches Ok(Outcome::Moved(Ok(played))) && info == (MoveInfo {
        x,
        player: played.1,
        is_last_move: played.0,
    })
}

/// Whether `answer` is what the client that sent a move into column `x` is
/// told when the update of the move ended with `result`. A move that was
/// played is reported. A move that a rule turned down is a rejection with
/// the rule's own message. A failure of the update, or an answer that is
/// none to a move, is told as a request that could not be served.
pub open spec fn answers_move(
    x: u32,
    result: Result<Outcome, UpdateError>,
    answer: Result<MoveInfo, Status>,
) -> bool {
    match result {
        Ok(Outcome::Moved(Ok(played))) => answer matches Ok(info) && reports(result, x, info),
        Ok(Outcome::Moved(Err(e))) => answer matches Err(status) && status.is_rejection(
            e.message(),
        ),
        _ => answer matches Err(status) && status.is_internal(),
    }
}

/// Whether `start` is how the work on `user_move` begins: with the update
/// of the game in which a player holds the move's token, or, where the
/// token is not the text of an identifier, with the rejection that tells
/// the client so. No store is asked for a token that is no identifier.
pub open spec fn starts_move(
    user_move: UserMove,
    start: Result<(Update, Request), Status>,
) -> bool {
    match start {
        Ok(begun) => {
            &&& is_identity_text(user_move.identity_token@)
            &&& begun.0.filter matches Filter::ByToken(token)
            &&& token@ == text_bytes(user_move.identity_token@)
            &&& begun.0.mutation matches Mutation::Move(played)
            &&& played.x == user_move.x
            &&& played.identity_token@ == user_move.identity_token@
            &&& begun.0.phase == Phase::Starting
            &&& begun.1 == Request::StartTransaction
        },
        Err(status) => !is_identity_text(user_move.identity_token@) && status.is_rejection(
            TryMoveError::IdWrongFormat.message(),
        ),
    }
}

/// Whether `start` is how the work on a request to join the game that
/// `game` names begins: with the update of the game stored under that
/// name, or, where the name is not the text of an identifier, with the
/// failure to serve it.
pub open spec fn starts_join(game: GameId, start: Result<(Update, Request), Status>) -> bool {
    match start {
        Ok(begun) => {
            &&& is_identity_text(game.id@)
            &&& begun.0.filter matches Filter::ById(id)
            &&& id@ == text_bytes(game.id@)
            &&& begun.0.mutation == Mutation::Join
            &&& begun.0.phase == Phase::Starting
            &&& begun.1 == Request::StartTransaction
        },
        Err(status) => !is_identity_text(game.id@) && status.is_internal(),
    }
}

/// Whether `answer` is what the client that asked to join is told when the
/// update ended with `result`. A player that was seated is told its seat
/// and its token. A request that a rule turned down, as in a full game, is
/// a rejection with the rule's own message. A failure of the update, or an
/// answer that is none to a request to join, is told as a request that
/// could not be served.
pub open spec fn answers_join(
    result: Result<Outcome, UpdateError>,
    answer: Result<PlayerAssigment, Status>,
) -> bool {
    match result {
        Ok(Outcome::Joined(Ok(pair))) => answer matches Ok(assigment) && seats(result, assigment),
        Ok(Outcome::Joined(Err(e))) => answer matches Err(status) && status.is_rejection(
            e.message(),
        ),
        _ => answer matches Err(status) && status.is_internal(),
    }
}

/// Starts the update that seats a player in the game that `game` names. A
/// name that is not the text of an identifier cannot be served.
pub fn join_request(game: &GameId) -> (start: Result<(Update, Request), Status>)
    ensures
        starts_join(*game, start),
{
    match Identity::parse_str(game.id.as_str()) {
        Some(id) => Ok(Matrix::get_and_save(Matrix::filter_by_id(&id), Mutation::Join)),
        None => Err(internal_server_err()),
    }
}

/// What the client that asked to join is told. A request that a rule
/// turned down, as in a full game, is a rejection with the rule's own
/// message; a failure of the update, or an answer that is none to a request
/// to join, cannot be served.
pub fn join_reply(result: Result<Outcome, UpdateError>) -> (reply: Result<PlayerAssigment, Status>)
    ensures
        answers_join(result, reply),
{
    match result {
        Ok(Outcome::Joined(Ok(pair))) => Ok(
            PlayerAssigment { player: pair.1, identity_token: pair.0.to_hex() },
        ),
        Ok(Outcome::Joined(Err(e))) => Err(rejection(e.into())),
        _ => Err(internal_server_err()),
    }
}

/// Starts the update that plays a move in the game of the player that
/// holds the move's token. A token that is not the text of an identifier
/// is rejected with the message of that rule.
pub fn move_request(user_move: &UserMove) -> (start: Result<(Update, Request), Status>)
    ensures
        starts_move(*user_move, start),
{
    match Identity::parse_str(user_move.identity_token.as_str()) {
        Some(token) => {
            let played = UserMove {
                x: user_move.x,
                identity_token: user_move.identity_token.clone(),
            };
            Ok(Matrix::get_and_save(Matrix::filter_by_token(&token), Mutation::Move(played)))
        },
        None => Err(rejection(TryMoveError::IdWrongFormat.into())),
    }
}

/// What the client that sent a move into column `x` is told. A move that a
/// rule turned down is a rejection with the rule's own message; a failure
/// of the update, or an answer that is none to a move, cannot be served.
pub fn move_reply(x: u32, result: Result<Outcome, UpdateError>) -> (reply: Result<MoveInfo, Status>)
    ensures
        answers_move(x, result, reply),
{
    match result {
        Ok(Outcome::Moved(Ok(played))) => Ok(
            MoveInfo { x, player: played.1, is_last_move: played.0 },
        ),
        Ok(Outcome::Moved(Err(e))) => Err(rejection(e.into())),
        _ => Err(internal_server_err()),
    }
}

/// Where the work on one client's stream of moves stands.
#[derive(Clone, PartialEq, Eq, Debug)]
pub enum MoveStream {
    /// Waiting for the client's next move.
    Receiving,
    /// The update of a move into column `x` is under way.
    Updating { x: u32, update: Update },
    /// Waiting for the client to take the answer to its last move.
    Sending,
    /// No more moves are taken.
    Closed,
}

/// What happened since the last action on a stream of moves. `E` is what
/// the transport has to say of a message it could not deliver.
#[derive(PartialEq, Eq, Debug)]
pub enum StreamEvent<E> {
    /// The client's next message; `None` when the client closed the stream.
    Received(Option<Result<UserMove, E>>),
    /// The store's reply to the last request.
    Store(Reply),
    /// Whether the client took the last answer.
    Sent(bool),
}

/// What to do next on a stream of moves.
#[derive(PartialEq, Eq, Debug)]
pub enum StreamAction<E> {
    /// Wait for the client's next message.
    Receive,
    /// Put the request to the store.
    Store(Request),
    /// Answer the client's last move.
    Send(Result<MoveInfo, Status>),
    /// Answer the client's last message with what the transport said of it.
    Forward(E),
    /// Leave the stream.
    Stop,
}

impl MoveStream {
    /// Whether the event `event`, come in the state `self`, is followed by
    /// the state `next` and the action `action`.
    ///
    /// Moves are taken one at a time: a message is waited for only at the
    /// start and after the answer to the message before it was taken, and
    /// every message gets one answer. A move is answered when its update has
    /// ended, whatever the end. The stream is left when the client closes
    /// it or no longer takes answers, and on an event that does not answer
    /// the last action.
    pub open spec fn follows<E>(
        self,
        event: StreamEvent<E>,
        next: MoveStream,
        action: StreamAction<E>,
    ) -> bool {
        match (self, event) {
            (MoveStream::Receiving, StreamEvent::Received(None)) => {
                next == MoveStream::Closed && action == StreamAction::<E>::Stop
            },
            (MoveStream::Receiving, StreamEvent::Received(Some(Err(e)))) => {
                next == MoveStream::Sending && action == StreamAction::Forward(e)
            },
            (MoveStream::Receiving, StreamEvent::Received(Some(Ok(user_move)))) => {
                exists|start: Result<(Update, Request), Status>|
                    #![trigger starts_move(user_move, start)]
                    starts_move(user_move, start) && match start {
                        Ok(begun) => next == (MoveStream::Updating {
                            x: user_move.x,
                            update: begun.0,
                        }) && action == StreamAction::<E>::Store(begun.1),
                        Err(status) => next == MoveStream::Sending && action
                            == StreamAction::<E>::Send(Err(status)),
                    }
            },
            (MoveStream::Updating { x, update }, StreamEvent::Store(reply)) => {
                exists|after: Update, request: Request|
                    #![trigger update.follows(reply, after, request)]
                    update.follows(reply, after, request) && match request {
                        Request::Finish(result) => {
                            &&& next == MoveStream::Sending
                            &&& action matches StreamAction::Send(answer)
                            &&& answers_move(x, result, answer)
                        },
                        _ => next == (MoveStream::Updating { x, update: after }) && action
                            == StreamAction::<E>::Store(request),
                    }
            },
            (MoveStream::Sending, StreamEvent::Sent(true)) => {
                next == MoveStream::Receiving && action == StreamAction::<E>::Receive
            },
            _ => next == MoveStream::Closed && action == StreamAction::<E>::Stop,
        }
    }

    /// Opens the work on a stream: the first thing to do is to wait for a
    /// move.
    pub fn open<E>() -> (start: (MoveStream, StreamAction<E>))
        ensures
            start.0 == MoveStream::Receiving,
            start.1 == StreamAction::<E>::Receive,
    {
        (MoveStream::Receiving, StreamAction::Receive)
    }

    /// Takes what happened since the last action and says what to do next.
    pub fn advance<E>(self, event: StreamEvent<E>) -> (next: (MoveStream, StreamAction<E>))
        ensures
            self.follows(event, next.0, next.1),
    {
        match (self, event) {
            (MoveStream::Receiving, StreamEvent::Received(None)) => (
                MoveStream::Closed,
                StreamAction::Stop,
            ),
            (MoveStream::Receiving, StreamEvent::Received(Some(Err(e)))) => (
                MoveStream::Sending,
                StreamAction::Forward(e),
            ),
            (MoveStream::Receiving, StreamEvent::Received(Some(Ok(user_move)))) => {
                let start = move_request(&user_move);
                match start {
                    Ok(begun) => (
                        MoveStream::Updating { x: user_move.x, update: begun.0 },
                        StreamAction::Store(begun.1),
                    ),
                    Err(status) => (MoveStream::Sending, StreamAction::Send(Err(status))),
                }
            },
            (MoveStream::Updating { x, update }, StreamEvent::Store(reply)) => {
                let (after, request) = update.advance(reply);
                match request {
                    Request::Finish(result) => (
                        MoveStream::Sending,
                        StreamAction::Send(move_reply(x, result)),
                    ),
                    other => (
                        MoveStream::Updating { x, update: after },
                        StreamAction::Store(other),
                    ),
                }
            },
            (MoveStream::Sending, StreamEvent::Sent(true)) => (
                MoveStream::Receiving,
                StreamAction::Receive,
            ),
            _ => (MoveStream::Closed, StreamAction::Stop),
        }
    }
}

} // verus!
