use connect_four::errors::{JoinError, TryMoveError};
use connect_four::filter::Filter;
use connect_four::identity::Identity;
use connect_four::matrix::Matrix;
use connect_four::player::{GameSettings, Player, UserMove};
use connect_four::stored::StoredMatrix;
use connect_four::update::{Mutation, Outcome, Phase, Reply, Request, Update, UpdateError};

/// A store of one game that lets one transaction at a time stamp the game.
struct Store {
    record: Option<StoredMatrix>,
    stamped_by: Option<usize>,
    pending: Option<(usize, StoredMatrix)>,
    requests: Vec<&'static str>,
}

fn selects(filter: &Filter, record: &StoredMatrix) -> bool {
    match filter {
        Filter::ById(id) => record.id == *id,
        Filter::ByToken(token) => record.player_ids.iter().any(|pair| pair.0 == *token),
    }
}

impl Store {
    fn holding(record: Option<StoredMatrix>) -> Store {
        Store { record, stamped_by: None, pending: None, requests: Vec::new() }
    }

    fn serve(&mut self, session: usize, request: Request) -> Reply {
        match request {
            Request::StartTransaction => {
                self.requests.push("start");
                Reply::Started
            }
            Request::FindAndStamp { filter, lock: _ } => {
                self.requests.push("find");
                if self.stamped_by.is_some() {
                    return Reply::Failed;
                }
                let found = self.record.clone().filter(|record| selects(&filter, record));
                if found.is_some() {
                    self.stamped_by = Some(session);
                }
                Reply::Found(found)
            }
            Request::Replace { filter, record } => {
                self.requests.push("replace");
                assert_eq!(self.stamped_by, Some(session));
                assert!(selects(&filter, self.record.as_ref().unwrap()));
                self.pending = Some((session, record));
                Reply::Replaced
            }
            Request::Commit => {
                self.requests.push("commit");
                let (owner, record) = self.pending.take().unwrap();
                assert_eq!(owner, session);
                self.record = Some(record);
                self.stamped_by = None;
                Reply::Committed
            }
            Request::Finish(_) => unreachable!(),
        }
    }

    fn run(&mut self, filter: Filter, mutation: Mutation) -> Result<Outcome, UpdateError> {
        let (mut update, mut request) = Matrix::get_and_save(filter, mutation);
        loop {
            if let Request::Finish(result) = request {
                assert_eq!(update.phase, Phase::Finished);
                return result;
            }
            let reply = self.serve(0, request);
            (update, request) = update.advance(reply);
        }
    }
}

/// The record with its pairs in the order of their tokens: the order in
/// which a game writes them down is not fixed.
fn by_token(record: Option<StoredMatrix>) -> Option<StoredMatrix> {
    record.map(|mut record| {
        record.player_ids.sort_by_key(|pair| pair.0.bytes());
        record
    })
}

fn new_game() -> StoredMatrix {
    Matrix::new(&GameSettings { horizontal_size: 4, vertical_size: 4, is_horizontal_cyclic: false })
        .to_stored()
}

fn seated(first: Identity, second: Identity) -> StoredMatrix {
    StoredMatrix { player_ids: vec![(first, Player::P1), (second, Player::P2)], ..new_game() }
}

fn play(token: Identity, x: u32) -> Mutation {
    Mutation::Move(UserMove { x, identity_token: token.to_hex() })
}

const FIRST: [u8; 12] = [1; 12];
const SECOND: [u8; 12] = [2; 12];

#[test]
fn update_begins_with_a_transaction() {
    let filter = Filter::ById(Identity::from_bytes(FIRST));
    let (update, request) = Matrix::get_and_save(filter, Mutation::Join);
    assert_eq!(request, Request::StartTransaction);
    assert_eq!(update, Update { filter, mutation: Mutation::Join, phase: Phase::Starting });
}

#[test]
fn update_fetches_under_a_stamp_once_the_transaction_is_open() {
    let filter = Filter::ByToken(Identity::from_bytes(FIRST));
    let (update, _) = Matrix::get_and_save(filter, Mutation::Join);
    let (update, request) = update.advance(Reply::Started);
    assert_eq!(update.phase, Phase::Fetching);
    assert!(matches!(request, Request::FindAndStamp { filter: asked, .. } if asked == filter));
    let (other, _) = Matrix::get_and_save(filter, Mutation::Join);
    let (_, again) = other.advance(Reply::Started);
    assert_ne!(request, again);
}

#[test]
fn update_that_joins_seats_a_player_in_the_stored_game() {
    let game = new_game();
    let mut store = Store::holding(Some(game.clone()));
    let result = store.run(Filter::ById(game.id), Mutation::Join);
    let Ok(Outcome::Joined(Ok((token, player)))) = result else { panic!("{:?}", result) };
    assert_eq!(player, Player::P1);
    assert_eq!(store.record, Some(StoredMatrix { player_ids: vec![(token, Player::P1)], ..game }));
    assert_eq!(store.requests, vec!["start", "find", "replace", "commit"]);
}

#[test]
fn update_that_moves_plays_in_the_stored_game() {
    let first = Identity::from_bytes(FIRST);
    let game = seated(first, Identity::from_bytes(SECOND));
    let mut store = Store::holding(Some(game.clone()));
    let result = store.run(Filter::ByToken(first), play(first, 3));
    assert_eq!(result, Ok(Outcome::Moved(Ok((false, Player::P1)))));
    let after = store.record.clone().unwrap();
    assert_eq!(after.moves, vec![vec![], vec![], vec![], vec![Player::P1]]);
    assert_eq!(after.current_move_player, Player::P2);
}

#[test]
fn update_writes_each_pair_of_the_players_once() {
    let first = Identity::from_bytes(FIRST);
    let second = Identity::from_bytes(SECOND);
    let repeated = StoredMatrix {
        player_ids: vec![
            (Identity::from_bytes([3; 12]), Player::P1),
            (first, Player::P1),
            (second, Player::P2),
            (second, Player::P2),
        ],
        ..new_game()
    };
    let mut store = Store::holding(Some(repeated));
    let result = store.run(Filter::ByToken(first), play(first, 0));
    assert_eq!(result, Ok(Outcome::Moved(Ok((false, Player::P1)))));
    let written = by_token(store.record.clone()).unwrap();
    assert_eq!(written.player_ids, vec![(first, Player::P1), (second, Player::P2)]);
}

#[test]
fn update_of_a_finished_game_turns_the_move_down_and_keeps_the_game() {
    let first = Identity::from_bytes(FIRST);
    let second = Identity::from_bytes(SECOND);
    let finished = StoredMatrix { is_finished: true, ..seated(first, second) };
    let mut store = Store::holding(Some(finished.clone()));
    let result = store.run(Filter::ByToken(first), play(first, 0));
    assert_eq!(result, Ok(Outcome::Moved(Err(TryMoveError::GameFinished))));
    assert_eq!(by_token(store.record.clone()), Some(finished));
}

#[test]
fn update_of_a_game_that_is_not_there_ends_with_not_found() {
    let mut store = Store::holding(None);
    let result = store.run(Filter::ById(Identity::from_bytes(FIRST)), Mutation::Join);
    assert_eq!(result, Err(UpdateError::NotFound));
    assert_eq!(store.requests, vec!["start", "find"]);
    let game = new_game();
    let mut store = Store::holding(Some(game.clone()));
    let result = store.run(Filter::ByToken(Identity::from_bytes(FIRST)), Mutation::Join);
    assert_eq!(result, Err(UpdateError::NotFound));
    assert_eq!(store.record, Some(game));
}

#[test]
fn update_that_the_rules_turn_down_is_still_committed() {
    let first = Identity::from_bytes(FIRST);
    let second = Identity::from_bytes(SECOND);
    let game = seated(first, second);
    let mut store = Store::holding(Some(game.clone()));
    let result = store.run(Filter::ByToken(second), play(second, 0));
    assert_eq!(result, Ok(Outcome::Moved(Err(TryMoveError::OtherPlayerTurn))));
    assert_eq!(store.requests, vec!["start", "find", "replace", "commit"]);
    assert_eq!(by_token(store.record.clone()), Some(game.clone()));
    let result = store.run(Filter::ById(game.id), Mutation::Join);
    assert_eq!(result, Ok(Outcome::Joined(Err(JoinError::GameAlreadyFull))));
    assert_eq!(by_token(store.record.clone()), Some(game));
}

#[test]
fn update_ends_with_the_failure_of_the_store_at_any_request() {
    let first = Identity::from_bytes(FIRST);
    let game = seated(first, Identity::from_bytes(SECOND));
    for failing in 0..4 {
        let mut store = Store::holding(Some(game.clone()));
        let (mut update, mut request) =
            Matrix::get_and_save(Filter::ByToken(first), play(first, 0));
        for step in 0..=failing {
            assert!(!matches!(request, Request::Finish(_)));
            let reply = if step == failing { Reply::Failed } else { store.serve(0, request) };
            (update, request) = update.advance(reply);
        }
        assert_eq!(request, Request::Finish(Err(UpdateError::Store)), "at {}", failing);
        assert_eq!(update.phase, Phase::Finished);
        assert_eq!(store.record, Some(game.clone()));
    }
}

#[test]
fn update_ends_on_a_record_that_is_no_game() {
    let first = Identity::from_bytes(FIRST);
    let broken = StoredMatrix { horizontal_size: 5, ..seated(first, Identity::from_bytes(SECOND)) };
    let mut store = Store::holding(Some(broken.clone()));
    let result = store.run(Filter::ByToken(first), play(first, 0));
    assert_eq!(result, Err(UpdateError::Store));
    assert_eq!(store.requests, vec!["start", "find"]);
    assert_eq!(store.record, Some(broken));
}

#[test]
fn update_ends_on_a_reply_that_answers_another_request() {
    let filter = Filter::ById(Identity::from_bytes(FIRST));
    let replies = [
        Reply::Found(None),
        Reply::Found(Some(new_game())),
        Reply::Replaced,
        Reply::Committed,
    ];
    for reply in replies {
        let (update, _) = Matrix::get_and_save(filter, Mutation::Join);
        let (update, request) = update.advance(reply);
        assert_eq!(request, Request::Finish(Err(UpdateError::Store)));
        assert_eq!(update.phase, Phase::Finished);
    }
    for reply in [Reply::Started, Reply::Replaced, Reply::Committed] {
        let (update, _) = Matrix::get_and_save(filter, Mutation::Join);
        let (update, _) = update.advance(Reply::Started);
        let (_, request) = update.advance(reply);
        assert_eq!(request, Request::Finish(Err(UpdateError::Store)));
    }
    for reply in [Reply::Started, Reply::Found(None), Reply::Committed] {
        let (update, _) = Matrix::get_and_save(filter, Mutation::Join);
        let (update, _) = update.advance(Reply::Started);
        let (update, _) = update.advance(Reply::Found(Some(new_game())));
        let (_, request) = update.advance(reply);
        assert_eq!(request, Request::Finish(Err(UpdateError::Store)));
    }
}

#[test]
fn update_that_has_ended_stays_ended() {
    let filter = Filter::ById(Identity::from_bytes(FIRST));
    let (update, _) = Matrix::get_and_save(filter, Mutation::Join);
    let (update, _) = update.advance(Reply::Failed);
    for reply in [Reply::Started, Reply::Found(None), Reply::Replaced, Reply::Committed] {
        let (after, request) = update.clone().advance(reply);
        assert_eq!(request, Request::Finish(Err(UpdateError::Store)));
        assert_eq!(after.phase, Phase::Finished);
    }
}

#[test]
fn update_reports_the_result_only_after_the_commit() {
    let game = new_game();
    let (update, _) = Matrix::get_and_save(Filter::ById(game.id), Mutation::Join);
    let (update, _) = update.advance(Reply::Started);
    let (update, request) = update.advance(Reply::Found(Some(game)));
    let Phase::Replacing(outcome) = update.phase else { panic!("{:?}", update.phase) };
    assert!(matches!(request, Request::Replace { .. }));
    let (update, request) = update.advance(Reply::Replaced);
    assert_eq!(request, Request::Commit);
    assert_eq!(update.phase, Phase::Committing(outcome));
    let (update, request) = update.advance(Reply::Committed);
    assert_eq!(request, Request::Finish(Ok(outcome)));
    assert_eq!(update.phase, Phase::Finished);
}

#[test]
fn two_updates_of_one_state_do_not_both_succeed() {
    let first = Identity::from_bytes(FIRST);
    let game = seated(first, Identity::from_bytes(SECOND));
    let mut store = Store::holding(Some(game.clone()));
    let (mut one, mut asked_one) = Matrix::get_and_save(Filter::ByToken(first), play(first, 0));
    let (mut two, mut asked_two) = Matrix::get_and_save(Filter::ByToken(first), play(first, 1));
    let mut results = [None, None];
    while results[0].is_none() || results[1].is_none() {
        if let Request::Finish(result) = asked_one {
            results[0] = Some(result);
            asked_one = Request::Finish(result);
        } else {
            let reply = store.serve(1, asked_one);
            (one, asked_one) = one.advance(reply);
        }
        if let Request::Finish(result) = asked_two {
            results[1] = Some(result);
            asked_two = Request::Finish(result);
        } else {
            let reply = store.serve(2, asked_two);
            (two, asked_two) = two.advance(reply);
        }
    }
    assert_eq!(results[0], Some(Ok(Outcome::Moved(Ok((false, Player::P1))))));
    assert_eq!(results[1], Some(Err(UpdateError::Store)));
    let after = store.record.unwrap();
    assert_eq!(after.moves, vec![vec![Player::P1], vec![], vec![], vec![]]);
    assert_eq!(after.current_move_player, Player::P2);
}

#[test]
fn two_moves_on_one_state_are_not_both_played_in_turn() {
    let first = Identity::from_bytes(FIRST);
    let second = Identity::from_bytes(SECOND);
    let mut store = Store::holding(Some(seated(first, second)));
    let mut played = 0;
    for (token, x) in [(first, 0), (first, 1)] {
        if let Ok(Outcome::Moved(Ok(_))) = store.run(Filter::ByToken(token), play(token, x)) {
            played += 1;
        }
    }
    assert_eq!(played, 1);
    let mut store = Store::holding(Some(seated(first, second)));
    let one = store.run(Filter::ByToken(second), play(second, 0));
    let two = store.run(Filter::ByToken(first), play(first, 0));
    assert_eq!(one, Ok(Outcome::Moved(Err(TryMoveError::OtherPlayerTurn))));
    assert_eq!(two, Ok(Outcome::Moved(Ok((false, Player::P1)))));
}

#[test]
fn change_is_made_by_the_rules_of_the_game() {
    let first = Identity::from_bytes(FIRST);
    let mut matrix = Matrix::from_stored(seated(first, Identity::from_bytes(SECOND))).unwrap();
    assert_eq!(matrix.apply(&play(first, 4)), Outcome::Moved(Err(TryMoveError::MissingColumn)));
    assert_eq!(matrix.apply(&play(first, 2)), Outcome::Moved(Ok((false, Player::P1))));
    assert_eq!(matrix.apply(&Mutation::Join), Outcome::Joined(Err(JoinError::GameAlreadyFull)));
}
