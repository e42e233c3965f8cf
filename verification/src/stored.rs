//! The form in which a game is kept in the store, and the way to and from
//! it. The register is kept as a list of pairs, so that the store can look
//! for a token in it.

use vstd::prelude::*;
use crate::board::Board;
use crate::errors::TryMoveError;
use crate::filter::Filter;
use crate::identity::{is_identity_text, text_bytes, Identity};
use crate::matrix::{marks, stamp};
use crate::player::Player;
use crate::registry::{lists, one_to_one, paired};

verus! {

/// A game as the store keeps it.
#[derive(Clone, PartialEq, Eq, Debug)]
pub struct StoredMatrix {
    pub id: Identity,
    pub horizontal_size: u16,
    pub vertical_size: u16,
    pub is_horizontal_cyclic: bool,
    pub moves: Vec<Vec<Player>>,
    pub player_ids: Vec<(Identity, Player)>,
    pub current_move_player: Player,
    pub is_finished: bool,
    pub lock: Option<Identity>,
}

/// The register that comes of pairing the entries of a list one after the
/// other, a later pair replacing an earlier one that holds the same token or
/// the same player.
pub open spec fn listed(entries: Seq<(Identity, Player)>) -> Map<Seq<u8>, Player>
    decreases entries.len(),
{
    if entries.len() == 0 {
        Map::empty()
    } else {
        paired(listed(entries.drop_last()), entries.last().0@, entries.last().1)
    }
}

impl StoredMatrix {
    /// There is one stack of marks for each column, and none is higher than
    /// the board.
    pub open spec fn grid_fits(&self) -> bool {
        &&& self.moves@.len() == self.horizontal_size
        &&& forall|x: int|
            0 <= x < self.moves@.len() ==> (#[trigger] self.moves@[x])@.len() <= self.vertical_size
    }

    /// The game that the record stands for.
    pub open spec fn board(&self) -> Board {
        Board {
            id: self.id@,
            horizontal_size: self.horizontal_size as nat,
            vertical_size: self.vertical_size as nat,
            cyclic: self.is_horizontal_cyclic,
            columns: marks(self.moves@),
            players: listed(self.player_ids@),
            turn: self.current_move_player,
            finished: self.is_finished,
            lock: stamp(self.lock),
        }
    }

    /// The record was written from `board`: it has the fields of the board,
    /// and its list of pairs holds the pairs of the register, each once, in
    /// whatever order.
    pub open spec fn holds(&self, board: Board) -> bool {
        &&& self.id@ == board.id
        &&& self.horizontal_size == board.horizontal_size
        &&& self.vertical_size == board.vertical_size
        &&& self.is_horizontal_cyclic == board.cyclic
        &&& marks(self.moves@) == board.columns
        &&& lists(self.player_ids@, board.players)
        &&& self.current_move_player == board.turn
        &&& self.is_finished == board.finished
        &&& stamp(self.lock) == board.lock
    }
}

/// The register of a list keeps a register one-to-one and finite, with
/// tokens of twelve bytes.
pub proof fn lemma_listed_wf(entries: Seq<(Identity, Player)>)
    ensures
        listed(entries).dom().finite(),
        one_to_one(listed(entries)),
        forall|t: Seq<u8>| #[trigger] listed(entries).dom().contains(t) ==> t.len() == 12,
    decreases entries.len(),
{
    if entries.len() > 0 {
        lemma_listed_wf(entries.drop_last());
        entries.last().0.lemma_len();
        crate::registry::lemma_paired(
            listed(entries.drop_last()),
            entries.last().0@,
            entries.last().1,
        );
    }
}

/// A list that holds the pairs of a one-to-one register, each once, gives
/// that register back for the pairs of its first `n` entries.
proof fn lemma_listed_prefix(entries: Seq<(Identity, Player)>, m: Map<Seq<u8>, Player>, n: int)
    requires
        one_to_one(m),
        lists(entries, m),
        0 <= n <= entries.len(),
    ensures
        listed(entries.take(n)) == Map::new(
            |t: Seq<u8>| exists|i: int| 0 <= i < n && (#[trigger] entries[i]).0@ == t,
            |t: Seq<u8>| m[t],
        ),
    decreases n,
{
    let part = Map::new(
        |t: Seq<u8>| exists|i: int| 0 <= i < n && (#[trigger] entries[i]).0@ == t,
        |t: Seq<u8>| m[t],
    );
    if n == 0 {
        assert(listed(entries.take(0)) =~= part);
    } else {
        lemma_listed_prefix(entries, m, n - 1);
        let before = listed(entries.take(n - 1));
        let last = entries[n - 1];
        assert(entries.take(n).drop_last() =~= entries.take(n - 1));
        assert(entries.take(n).last() == last);
        assert(m.contains_pair(last.0@, last.1));
        assert forall|t: Seq<u8>| before.dom().contains(t) implies t != last.0@ && before[t]
            != last.1 by {
            let i = choose|i: int| 0 <= i < n - 1 && (#[trigger] entries[i]).0@ == t;
            assert(m.contains_pair(entries[i].0@, entries[i].1));
        }
        assert(listed(entries.take(n)) =~= part);
    }
}

/// Writing a game down and reading the record again gives the same game:
/// every field, the pairing of tokens and players and the presence of the
/// lock included.
pub proof fn lemma_stored_round_trip(record: StoredMatrix, board: Board)
    requires
        board.wf(),
        record.holds(board),
    ensures
        record.grid_fits(),
        record.board() == board,
{
    assert forall|x: int| 0 <= x < record.moves@.len() implies (#[trigger] record.moves@[x])@.len()
        <= record.vertical_size by {
        assert(marks(record.moves@)[x] == board.columns[x]);
    }
    let entries = record.player_ids@;
    lemma_listed_prefix(entries, board.players, entries.len() as int);
    assert(entries.take(entries.len() as int) =~= entries);
    assert(listed(entries) =~= board.players);
}

/// A game that the store found by a token has a player who holds that
/// token: a move signed with the text that the filter was made from is not
/// turned down for want of the player.
pub proof fn lemma_token_filter_finds_player(
    record: StoredMatrix,
    board: Board,
    token: Identity,
    text: Seq<char>,
    x: int,
)
    requires
        board.wf(),
        record.holds(board),
        Filter::ByToken(token).selects(record),
        is_identity_text(text),
        text_bytes(text) == token@,
    ensures
        board.players.dom().contains(token@),
        board.mover(text, x) != Err::<Player, TryMoveError>(TryMoveError::UnknownIdentity),
        board.mover(text, x) != Err::<Player, TryMoveError>(TryMoveError::IdWrongFormat),
{
    let i = choose|i: int|
        0 <= i < record.player_ids@.len() && (#[trigger] record.player_ids@[i]).0@ == token@;
    assert(board.players.contains_pair(record.player_ids@[i].0@, record.player_ids@[i].1));
}

} // verus!
