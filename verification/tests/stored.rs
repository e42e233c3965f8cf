use connect_four::identity::Identity;
use connect_four::matrix::Matrix;
use connect_four::player::{GameSettings, Player, UserMove};
use connect_four::stored::StoredMatrix;

fn record(moves: Vec<Vec<Player>>, player_ids: Vec<(Identity, Player)>) -> StoredMatrix {
    StoredMatrix {
        id: Identity::from_bytes([7; 12]),
        horizontal_size: 3,
        vertical_size: 2,
        is_horizontal_cyclic: true,
        moves,
        player_ids,
        current_move_player: Player::P2,
        is_finished: true,
        lock: Some(Identity::from_bytes([5; 12])),
    }
}

fn by_token(mut record: StoredMatrix) -> StoredMatrix {
    record.player_ids.sort_by_key(|pair| pair.0.bytes());
    record
}

#[test]
fn record_of_a_game_reads_back_as_the_same_game() {
    let mut matrix = Matrix::new(&GameSettings {
        horizontal_size: 4,
        vertical_size: 3,
        is_horizontal_cyclic: true,
    });
    let (first, _) = matrix.join().unwrap();
    let (second, _) = matrix.join().unwrap();
    matrix.try_move(&UserMove { x: 2, identity_token: first.to_hex() }).unwrap();
    matrix.try_move(&UserMove { x: 2, identity_token: second.to_hex() }).unwrap();
    matrix.try_move(&UserMove { x: 0, identity_token: first.to_hex() }).unwrap();
    let written = matrix.to_stored();
    let read = Matrix::from_stored(written.clone()).unwrap();
    assert_eq!(by_token(read.to_stored()), by_token(written.clone()));
    assert_eq!(written.moves, vec![vec![Player::P1], vec![], vec![Player::P1, Player::P2], vec![]]);
    assert_eq!(written.current_move_player, Player::P2);
    assert_eq!(written.lock, None);
    assert_eq!(read.id(), matrix.id());
}

#[test]
fn record_keeps_every_field() {
    let first = Identity::from_bytes([1; 12]);
    let second = Identity::from_bytes([2; 12]);
    let written = record(
        vec![vec![Player::P1, Player::P2], vec![], vec![Player::P2]],
        vec![(first, Player::P1), (second, Player::P2)],
    );
    let read = Matrix::from_stored(written.clone()).unwrap().to_stored();
    assert_eq!(by_token(read), written);
}

#[test]
fn record_keeps_whether_there_is_a_lock() {
    let locked = record(vec![vec![], vec![], vec![]], vec![]);
    assert_eq!(Matrix::from_stored(locked.clone()).unwrap().to_stored(), locked);
    let open = StoredMatrix { lock: None, ..locked };
    assert_eq!(Matrix::from_stored(open.clone()).unwrap().to_stored(), open);
}

#[test]
fn record_keeps_which_token_is_which_player() {
    let first = Identity::from_bytes([1; 12]);
    let second = Identity::from_bytes([2; 12]);
    let crossed = StoredMatrix {
        is_finished: false,
        ..record(vec![vec![], vec![], vec![]], vec![(second, Player::P1), (first, Player::P2)])
    };
    let mut matrix = Matrix::from_stored(crossed).unwrap();
    assert_eq!(
        by_token(matrix.to_stored()).player_ids,
        vec![(first, Player::P2), (second, Player::P1)]
    );
    let played = matrix.try_move(&UserMove { x: 0, identity_token: first.to_hex() });
    assert_eq!(played.map(|done| done.1), Ok(Player::P2));
}

#[test]
fn record_with_too_few_or_too_many_columns_is_no_game() {
    assert!(Matrix::from_stored(record(vec![vec![], vec![]], vec![])).is_none());
    assert!(Matrix::from_stored(record(vec![vec![], vec![], vec![], vec![]], vec![])).is_none());
    assert!(Matrix::from_stored(record(vec![], vec![])).is_none());
}

#[test]
fn record_with_a_column_above_the_board_is_no_game() {
    let high = vec![Player::P1, Player::P2, Player::P1];
    assert!(Matrix::from_stored(record(vec![vec![], high, vec![]], vec![])).is_none());
    let full = vec![Player::P1, Player::P2];
    assert!(Matrix::from_stored(record(vec![vec![], full, vec![]], vec![])).is_some());
}

#[test]
fn later_pair_of_a_record_replaces_an_earlier_one() {
    let first = Identity::from_bytes([1; 12]);
    let second = Identity::from_bytes([2; 12]);
    let third = Identity::from_bytes([3; 12]);
    let same_player = record(
        vec![vec![], vec![], vec![]],
        vec![(first, Player::P1), (second, Player::P1)],
    );
    let read = Matrix::from_stored(same_player).unwrap().to_stored();
    assert_eq!(read.player_ids, vec![(second, Player::P1)]);
    let same_token = record(
        vec![vec![], vec![], vec![]],
        vec![(first, Player::P1), (third, Player::P2), (first, Player::P2)],
    );
    let read = Matrix::from_stored(same_token).unwrap().to_stored();
    assert_eq!(read.player_ids, vec![(first, Player::P2)]);
}
