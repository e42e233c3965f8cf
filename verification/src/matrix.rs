//! The authoritative record of one game: grid, players, turn and outcome,
//! with the transitions that joining and moving make.

use vstd::prelude::*;
use bimap::BiHashMap;
use crate::board::{Board, LINE_WITHOUT_FIRST};
use crate::errors::{JoinError, TryMoveError};
use crate::filter::Filter;
use crate::identity::Identity;
use crate::index_range::{Horizontal, IndexRange, Vertical};
use crate::player::{GameSettings, Player, UserMove};
use crate::registry;
use crate::stored::{lemma_listed_wf, listed, StoredMatrix};

verus! {

/// One game.
#[derive(Debug)]
pub struct Matrix {
    id: Identity,
    horizontal_size: u16,
    vertical_size: u16,
    is_horizontal_cyclic: bool,
    moves: Vec<Vec<Player>>,
    player_ids: BiHashMap<Identity, Player>,
    current_move_player: Player,
    is_finished: bool,
    lock: Option<Identity>,
}

/// The marks of a grid, column by column.
pub open spec fn marks(moves: Seq<Vec<Player>>) -> Seq<Seq<Player>> {
    Seq::new(moves.len(), |x: int| moves[x]@)
}

/// The bytes of an identifier that may be absent.
pub open spec fn stamp(lock: Option<Identity>) -> Option<Seq<u8>> {
    match lock {
        Some(id) => Some(id@),
        None => None,
    }
}

/// A copy of a column.
fn copy_column(column: &Vec<Player>) -> (copy: Vec<Player>)
    ensures
        copy@ == column@,
{
    let mut copy: Vec<Player> = Vec::new();
    let mut y: usize = 0;
    while y < column.len()
        invariant
            y <= column@.len(),
            copy@ == column@.take(y as int),
        decreases column@.len() - y,
    {
        copy.push(column[y]);
        proof {
            assert(column@.take(y + 1) =~= column@.take(y as int).push(column@[y as int]));
        }
        y = y + 1;
    }
    proof {
        assert(column@.take(y as int) =~= column@);
    }
    copy
}

impl View for Matrix {
    type V = Board;

    closed spec fn view(&self) -> Board {
        Board {
            id: self.id@,
            horizontal_size: self.horizontal_size as nat,
            vertical_size: self.vertical_size as nat,
            cyclic: self.is_horizontal_cyclic,
            columns: marks(self.moves@),
            players: registry::pairs(self.player_ids),
            turn: self.current_move_player,
            finished: self.is_finished,
            lock: stamp(self.lock),
        }
    }
}

impl Matrix {
    /// The invariant of a game, stated on its model.
    pub open spec fn wf(&self) -> bool {
        self@.wf()
    }

    /// A game without marks or players, under a new identifier. `P1` moves
    /// first. The sizes are taken modulo 65536.
    pub fn new(settings: &GameSettings) -> (matrix: Self)
        ensures
            matrix.wf(),
            matrix@ == Board::initial(matrix@.id, *settings),
    {
        let horizontal_size = (settings.horizontal_size % 0x1_0000) as u16;
        let vertical_size = (settings.vertical_size % 0x1_0000) as u16;
        let mut moves: Vec<Vec<Player>> = Vec::new();
        let mut x: u16 = 0;
        while x < horizontal_size
            invariant
                x <= horizontal_size,
                moves@.len() == x,
                forall|i: int| 0 <= i < x ==> (#[trigger] moves@[i])@ == Seq::<Player>::empty(),
            decreases horizontal_size - x,
        {
            moves.push(Vec::new());
            x = x + 1;
        }
        let id = Identity::generate();
        let matrix = Self {
            id,
            horizontal_size,
            vertical_size,
            is_horizontal_cyclic: settings.is_horizontal_cyclic,
            moves,
            player_ids: registry::empty_registry(),
            current_move_player: Player::P1,
            is_finished: false,
            lock: None,
        };
        proof {
            id.lemma_len();
            assert(matrix@.columns =~= Board::initial(matrix@.id, *settings).columns);
        }
        matrix
    }

    /// The identifier under which the game is stored.
    pub fn id(&self) -> (id: Identity)
        ensures
            id@ == self@.id,
    {
        self.id
    }

    /// Seats a player under a token drawn for it: as `P1` if nobody holds
    /// that seat, else as `P2`. A full game says so and stays as it is. So
    /// does a game in which a player already holds the token that was
    /// drawn: no player is ever displaced, and a player that is seated
    /// holds a token that no other player of the game holds. Turn and marks
    /// stay.
    pub fn join(&mut self) -> (joined: Result<(Identity, Player), JoinError>)
        requires
            old(self).wf(),
        ensures
            final(self).wf(),
            old(self)@.seats(joined, final(self)@),
            old(self)@.free_seat().is_none() <==> joined == Err::<(Identity, Player), JoinError>(
                JoinError::GameAlreadyFull,
            ),
            joined.is_err() ==> *final(self) == *old(self),
    {
        self.join_as(Identity::generate())
    }

    /// Seats a player under the given token, as `join` does under the token
    /// that it draws.
    pub fn join_as(&mut self, token: Identity) -> (joined: Result<(Identity, Player), JoinError>)
        requires
            old(self).wf(),
        ensures
            final(self).wf(),
            old(self)@.seats(joined, final(self)@),
            joined == match old(self)@.seat_for(token@) {
                Ok(seat) => Ok::<(Identity, Player), JoinError>((token, seat)),
                Err(e) => Err::<(Identity, Player), JoinError>(e),
            },
            joined.is_err() ==> *final(self) == *old(self),
    {
        let new_player = if !registry::contains_right(&self.player_ids, &Player::P1) {
            Player::P1
        } else if !registry::contains_right(&self.player_ids, &Player::P2) {
            Player::P2
        } else {
            return Err(JoinError::GameAlreadyFull);
        };
        if registry::get_by_left(&self.player_ids, &token).is_some() {
            return Err(JoinError::IdentityTaken);
        }
        proof {
            token.lemma_len();
            registry::lemma_paired(self@.players, token@, new_player);
            registry::lemma_paired_grows(self@.players, token@, new_player);
        }
        registry::insert(&mut self.player_ids, token, new_player);
        Ok((token, new_player))
    }

    /// Plays a move: the player that holds the token drops a mark into
    /// column `x`. Returns whether the mark completed a line, and the player.
    /// A move that is turned down changes nothing, and a finished game
    /// turns every move down: for the token, the turn or the column where
    /// one of these is at fault, and else because the game is finished.
    pub fn try_move(&mut self, user_move: &UserMove) -> (played: Result<
        (bool, Player),
        TryMoveError,
    >)
        requires
            old(self).wf(),
        ensures
            final(self).wf(),
            old(self)@.plays(user_move.identity_token@, user_move.x as int, played, final(self)@),
            played.is_err() ==> *final(self) == *old(self),
            old(self)@.finished ==> played.is_err() && final(self)@.finished,
    {
        let token = match Identity::parse_str(user_move.identity_token.as_str()) {
            Some(token) => token,
            None => { return Err(TryMoveError::IdWrongFormat); },
        };
        let player = match registry::get_by_left(&self.player_ids, &token) {
            Some(player) => player,
            None => { return Err(TryMoveError::UnknownIdentity); },
        };
        if self.current_move_player != player {
            return Err(TryMoveError::OtherPlayerTurn);
        }
        if user_move.x >= self.horizontal_size as u32 {
            return Err(TryMoveError::MissingColumn);
        }
        let x = user_move.x as u16;
        if self.moves[x as usize].len() >= self.vertical_size as usize {
            return Err(TryMoveError::ColumnFull);
        }
        if self.is_finished {
            return Err(TryMoveError::GameFinished);
        }
        self.moves[x as usize].push(player);
        self.current_move_player = player.other();
        proof {
            let placed = old(self)@.dropped(player, x as int);
            assert(self@.columns =~= placed.columns);
            self@.lemma_wins_of_grid(placed, x as int);
        }
        self.is_finished = self.is_finished(x);
        Ok((self.is_finished, player))
    }

    /// The filter that selects the game stored under `id`.
    pub fn filter_by_id(id: &Identity) -> (filter: Filter)
        ensures
            filter == Filter::ById(*id),
    {
        Filter::ById(*id)
    }

    /// The filter that selects the game in which a player holds the token
    /// `id`.
    pub fn filter_by_token(id: &Identity) -> (filter: Filter)
        ensures
            filter == Filter::ByToken(*id),
    {
        Filter::ByToken(*id)
    }

    /// Writes the game down as the store keeps it. The pairs of the register
    /// come in whatever order the register hands them out.
    pub fn to_stored(&self) -> (record: StoredMatrix)
        requires
            self.wf(),
        ensures
            record.holds(self@),
            record.grid_fits(),
            record.board() == self@,
    {
        let mut moves: Vec<Vec<Player>> = Vec::new();
        let mut x: usize = 0;
        while x < self.moves.len()
            invariant
                x <= self.moves@.len(),
                moves@.len() == x,
                forall|i: int| 0 <= i < x ==> (#[trigger] moves@[i])@ == self.moves@[i]@,
            decreases self.moves@.len() - x,
        {
            moves.push(copy_column(&self.moves[x]));
            x = x + 1;
        }
        let record = StoredMatrix {
            id: self.id,
            horizontal_size: self.horizontal_size,
            vertical_size: self.vertical_size,
            is_horizontal_cyclic: self.is_horizontal_cyclic,
            moves,
            player_ids: registry::entries(&self.player_ids),
            current_move_player: self.current_move_player,
            is_finished: self.is_finished,
            lock: self.lock,
        };
        proof {
            assert(marks(record.moves@) =~= self@.columns);
            crate::stored::lemma_stored_round_trip(record, self@);
        }
        record
    }

    /// What storing the game comes to: the record that the store is to
    /// gain, which reads back as this game, and the identifier under which
    /// it is then found, which is the answer once the store has the record.
    /// The game itself stays as it is.
    pub fn insert(&self) -> (stored: (StoredMatrix, Identity))
        requires
            self.wf(),
        ensures
            stored.0.holds(self@),
            stored.0.grid_fits(),
            stored.0.board() == self@,
            stored.0.id == stored.1,
            stored.1@ == self@.id,
            Filter::ById(stored.1).selects(stored.0),
    {
        let record = self.to_stored();
        proof {
            record.id.lemma_same_bytes(self.id);
        }
        (record, self.id)
    }

    /// Reads a game from a record of the store. `None` when the record does
    /// not have one stack of marks for each column, or has a stack that is
    /// higher than the board. The register is filled pair by pair in the
    /// order of the record.
    pub fn from_stored(record: StoredMatrix) -> (matrix: Option<Self>)
        ensures
            matrix.is_some() == record.grid_fits(),
            matrix matches Some(m) ==> m.wf() && m@ == record.board(),
    {
        if record.moves.len() != record.horizontal_size as usize {
            return None;
        }
        let mut x: usize = 0;
        while x < record.moves.len()
            invariant
                x <= record.moves@.len(),
                forall|i: int|
                    0 <= i < x ==> (#[trigger] record.moves@[i])@.len() <= record.vertical_size,
            decreases record.moves@.len() - x,
        {
            if record.moves[x].len() > record.vertical_size as usize {
                return None;
            }
            x = x + 1;
        }
        let mut player_ids = registry::empty_registry();
        let mut i: usize = 0;
        while i < record.player_ids.len()
            invariant
                i <= record.player_ids@.len(),
                registry::pairs(player_ids) == listed(record.player_ids@.take(i as int)),
            decreases record.player_ids@.len() - i,
        {
            let entry = record.player_ids[i];
            registry::insert(&mut player_ids, entry.0, entry.1);
            proof {
                assert(record.player_ids@.take(i + 1).drop_last() =~= record.player_ids@.take(
                    i as int,
                ));
            }
            i = i + 1;
        }
        proof {
            assert(record.player_ids@.take(i as int) =~= record.player_ids@);
            lemma_listed_wf(record.player_ids@);
            record.id.lemma_len();
            if let Some(lock) = record.lock {
                lock.lemma_len();
            }
        }
        Some(
            Self {
                id: record.id,
                horizontal_size: record.horizontal_size,
                vertical_size: record.vertical_size,
                is_horizontal_cyclic: record.is_horizontal_cyclic,
                moves: record.moves,
                player_ids,
                current_move_player: record.current_move_player,
                is_finished: record.is_finished,
                lock: record.lock,
            },
        )
    }

    /// Counts the marks that continue the topmost mark of the cursor's
    /// column, walking from it by steps of `(v, h)`; the mark itself is not
    /// counted, and the count stops at three.
    pub fn length_in_dir(&self, ir: IndexRange, v: Vertical, h: Option<Horizontal>) -> (length:
        usize)
        requires
            self.wf(),
            ir.axis_size() == self@.horizontal_size,
            ir.cyclic() == self@.cyclic,
            ir.position() < self@.horizontal_size,
            self@.columns[ir.position() as int].len() > 0,
        ensures
            length == self@.run_from_top(ir.position() as int, v, h),
            length <= LINE_WITHOUT_FIRST,
    {
        let mut ir = ir;
        let first_column = &self.moves[ir.as_usize()];
        let y: usize = first_column.len() - 1;
        let last_player = first_column[y];
        let ghost board = self@;
        let ghost total = board.run_from_top(ir.position() as int, v, h);
        let ghost x0 = ir.position() as int;
        let mut count: usize = 0;
        loop
            invariant_except_break
                self.wf(),
                board == self@,
                count <= LINE_WITHOUT_FIRST,
                ir.axis_size() == board.horizontal_size,
                ir.cyclic() == board.cyclic,
                ir.position() < board.horizontal_size,
                0 <= x0 < board.columns.len(),
                y < board.columns[x0].len(),
                matches!(v, Vertical::Down) ==> count <= y,
                total == count + board.run(
                    ir.position() as int,
                    match v {
                        Vertical::Up => y + count,
                        Vertical::Down => y - count,
                        Vertical::Straight => y as int,
                    },
                    v,
                    h,
                    last_player,
                    (LINE_WITHOUT_FIRST - count) as nat,
                ),
            ensures
                count == total,
                count <= LINE_WITHOUT_FIRST,
            decreases LINE_WITHOUT_FIRST - count,
        {
            if count >= LINE_WITHOUT_FIRST {
                break ;
            }
            let moved = match h {
                Some(side) => ir.move_cursor(1, side),
                None => true,
            };
            if !moved {
                break ;
            }
            let column = &self.moves[ir.as_usize()];
            let reach: usize = count + 1;
            let row: usize = match v {
                Vertical::Up => y + reach,
                Vertical::Down => {
                    if reach > y {
                        break ;
                    }
                    y - reach
                },
                Vertical::Straight => y,
            };
            if row >= column.len() {
                break ;
            }
            if column[row] != last_player {
                break ;
            }
            count = reach;
        }
        count
    }

    /// Whether the topmost mark of the column `last_move` completes a line of
    /// four.
    pub fn is_finished(&self, last_move: u16) -> (finished: bool)
        requires
            self.wf(),
            last_move < self@.horizontal_size,
            self@.columns[last_move as int].len() > 0,
        ensures
            finished == self@.wins_at(last_move as int),
    {
        let ir = IndexRange::new(self.horizontal_size, self.is_horizontal_cyclic, last_move);
        self.line(ir, Vertical::Down, Vertical::Up, None, None) || self.line(
            ir,
            Vertical::Down,
            Vertical::Up,
            Some(Horizontal::Left),
            Some(Horizontal::Right),
        ) || self.line(
            ir,
            Vertical::Up,
            Vertical::Down,
            Some(Horizontal::Left),
            Some(Horizontal::Right),
        ) || self.line(
            ir,
            Vertical::Straight,
            Vertical::Straight,
            Some(Horizontal::Left),
            Some(Horizontal::Right),
        )
    }

    /// Whether the runs in two opposite senses make a line with the topmost
    /// mark of the cursor's column.
    fn line(
        &self,
        ir: IndexRange,
        v1: Vertical,
        v2: Vertical,
        h1: Option<Horizontal>,
        h2: Option<Horizontal>,
    ) -> (complete: bool)
        requires
            self.wf(),
            ir.axis_size() == self@.horizontal_size,
            ir.cyclic() == self@.cyclic,
            ir.position() < self@.horizontal_size,
            self@.columns[ir.position() as int].len() > 0,
        ensures
            complete == self@.completes(ir.position() as int, v1, v2, h1, h2),
    {
        let one_side_length = self.length_in_dir(ir, v1, h1);
        if one_side_length == LINE_WITHOUT_FIRST {
            return true;
        }
        let other_side_length = self.length_in_dir(ir, v2, h2);
        other_side_length == LINE_WITHOUT_FIRST || one_side_length + other_side_length
            == LINE_WITHOUT_FIRST
    }
}

} // verus!
