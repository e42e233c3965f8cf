//! The mathematical model of a game: what a board is, which cells a line
//! runs through, when a mark completes a line, and what joining and moving
//! do to a board.

use vstd::prelude::*;
use crate::errors::{JoinError, TryMoveError};
use crate::identity::{is_identity_text, text_bytes, Identity};
use crate::index_range::{destination, Horizontal, Vertical};
use crate::player::{GameSettings, Player};
use crate::registry::{has_player, one_to_one};

verus! {

/// Marks of one owner that make a line, the last-placed one included.
pub const LINE: usize = 4;

/// Marks that a line needs besides the last-placed one.
pub const LINE_WITHOUT_FIRST: usize = LINE - 1;

/// A game as a mathematical value.
pub struct Board {
    /// Key of the stored game.
    pub id: Seq<u8>,
    /// Number of columns.
    pub horizontal_size: nat,
    /// Number of marks a column can take.
    pub vertical_size: nat,
    /// Whether the first and the last column are neighbours.
    pub cyclic: bool,
    /// The marks of each column, from the bottom up.
    pub columns: Seq<Seq<Player>>,
    /// The players that joined, each under the bytes of its token.
    pub players: Map<Seq<u8>, Player>,
    /// Who moves next.
    pub turn: Player,
    /// Whether the last mark completed a line.
    pub finished: bool,
    /// Stamp of the update that last fetched the game, if the store kept one.
    pub lock: Option<Seq<u8>>,
}

/// How many columns one step to the side `h` leads to the right: one to the
/// right, one back to the left, none without a side. On a board of a single
/// column a step to the side stays in place, since steps are taken modulo
/// the size of the board.
pub open spec fn drift(size: int, h: Option<Horizontal>) -> int {
    match h {
        None => 0,
        Some(Horizontal::Left) => -(1int % size),
        Some(Horizontal::Right) => 1int % size,
    }
}

/// How many rows one step in the sense `v` leads up.
pub open spec fn rise(v: Vertical) -> int {
    match v {
        Vertical::Up => 1,
        Vertical::Down => -1,
        Vertical::Straight => 0,
    }
}

impl Board {
    /// The board of a game that was just created under `id`. Sizes are kept
    /// modulo 65536.
    pub open spec fn initial(id: Seq<u8>, settings: GameSettings) -> Board {
        Board {
            id,
            horizontal_size: (settings.horizontal_size % 0x1_0000) as nat,
            vertical_size: (settings.vertical_size % 0x1_0000) as nat,
            cyclic: settings.is_horizontal_cyclic,
            columns: Seq::new(
                (settings.horizontal_size % 0x1_0000) as nat,
                |x: int| Seq::<Player>::empty(),
            ),
            players: Map::empty(),
            turn: Player::P1,
            finished: false,
            lock: None,
        }
    }

    /// There is one stack of marks for each column, no stack is higher than
    /// the board, no player holds two tokens, and identifiers have twelve
    /// bytes.
    pub open spec fn wf(self) -> bool {
        &&& self.id.len() == 12
        &&& self.horizontal_size <= u16::MAX
        &&& self.vertical_size <= u16::MAX
        &&& self.columns.len() == self.horizontal_size
        &&& forall|x: int|
            0 <= x < self.columns.len() ==> (#[trigger] self.columns[x]).len() <= self.vertical_size
        &&& self.players.dom().finite()
        &&& one_to_one(self.players)
        &&& forall|t: Seq<u8>| #[trigger] self.players.dom().contains(t) ==> t.len() == 12
        &&& self.lock matches Some(stamp) ==> stamp.len() == 12
    }

    /// The owner of the mark in column `x` at height `y`, if there is one.
    pub open spec fn owner(self, x: int, y: int) -> Option<Player> {
        if 0 <= x < self.columns.len() && 0 <= y < self.columns[x].len() {
            Some(self.columns[x][y])
        } else {
            None
        }
    }

    /// The cell one step from `(x, y)`: one column to the side `h`, if there
    /// is a side to go to, and one row in the sense `v`. `None` when the edge
    /// of a board that is no ring blocks the step to the side.
    pub open spec fn next_cell(self, x: int, y: int, v: Vertical, h: Option<Horizontal>) -> Option<
        (int, int),
    > {
        let row = match v {
            Vertical::Up => y + 1,
            Vertical::Down => y - 1,
            Vertical::Straight => y,
        };
        match h {
            None => Some((x, row)),
            Some(side) => match destination(self.horizontal_size as int, self.cyclic, x, 1, side) {
                Some(column) => Some((column, row)),
                None => None,
            },
        }
    }

    /// How many marks of `player` follow one another from `(x, y)` on, that
    /// cell not counted, walking by steps of `(v, h)`, on at most `budget`
    /// steps. The count ends where a step is blocked, leaves the marks of
    /// the column it enters, or meets the other player's mark.
    pub open spec fn run(
        self,
        x: int,
        y: int,
        v: Vertical,
        h: Option<Horizontal>,
        player: Player,
        budget: nat,
    ) -> nat
        decreases budget,
    {
        if budget == 0 {
            0
        } else {
            match self.next_cell(x, y, v, h) {
                None => 0,
                Some(cell) => if self.owner(cell.0, cell.1) == Some(player) {
                    1 + self.run(cell.0, cell.1, v, h, player, (budget - 1) as nat)
                } else {
                    0
                },
            }
        }
    }

    /// The cell reached from `(x, y)` by `n` steps of `(v, h)`, if no step on
    /// the way is blocked.
    pub open spec fn cell_at(self, x: int, y: int, v: Vertical, h: Option<Horizontal>, n: nat)
        -> Option<(int, int)>
        decreases n,
    {
        if n == 0 {
            Some((x, y))
        } else {
            match self.next_cell(x, y, v, h) {
                None => None,
                Some(cell) => self.cell_at(cell.0, cell.1, v, h, (n - 1) as nat),
            }
        }
    }

    /// The cells of a walk lie on a straight line: the `n`th step from
    /// `(x, y)` reaches the row `y + n * rise` and the column
    /// `x + n * drift`, taken modulo the size on a ring; on a board that is
    /// no ring the walk is blocked exactly where that column is off the
    /// board.
    pub proof fn lemma_cell_at(self, x: int, y: int, v: Vertical, h: Option<Horizontal>, n: nat)
        requires
            0 < self.horizontal_size,
            0 <= x < self.horizontal_size,
        ensures
            ({
                let size = self.horizontal_size as int;
                let column = x + n * drift(size, h);
                match self.cell_at(x, y, v, h, n) {
                    Some(cell) => {
                        &&& cell.1 == y + n * rise(v)
                        &&& 0 <= cell.0 < size
                        &&& cell.0 == if self.cyclic {
                            column % size
                        } else {
                            column
                        }
                    },
                    None => !self.cyclic && !(0 <= column < size),
                }
            }),
        decreases n,
    {
        let size = self.horizontal_size as int;
        let d = drift(size, h);
        let r = rise(v);
        assert(0 <= 1int % size <= 1) by {
            if size == 1 {
                assert(1int % 1 == 0);
            } else {
                vstd::arithmetic::div_mod::lemma_small_mod(1, size as nat);
            }
        }
        if n == 0 {
            vstd::arithmetic::div_mod::lemma_small_mod(x as nat, size as nat);
            assert(n * d == 0 && n * r == 0) by (nonlinear_arith)
                requires
                    n == 0,
            ;
        } else {
            let m = (n - 1) as nat;
            assert(n * d == m * d + d && n * r == m * r + r) by (nonlinear_arith)
                requires
                    m == n - 1,
            ;
            assert(d > 0 ==> m * d >= 0) by (nonlinear_arith)
                requires
                    m >= 0,
            ;
            assert(d < 0 ==> m * d <= 0) by (nonlinear_arith)
                requires
                    m >= 0,
            ;
            match h {
                None => {},
                Some(side) => {
                    crate::index_range::lemma_destination_on_axis(size, self.cyclic, x, 1, side);
                },
            }
            match self.next_cell(x, y, v, h) {
                None => {},
                Some(cell) => {
                    self.lemma_cell_at(cell.0, cell.1, v, h, m);
                    if self.cyclic {
                        vstd::arithmetic::div_mod::lemma_small_mod(x as nat, size as nat);
                        vstd::arithmetic::div_mod::lemma_add_mod_noop(x + d, m * d, size);
                        vstd::arithmetic::div_mod::lemma_add_mod_noop(cell.0, m * d, size);
                        vstd::arithmetic::div_mod::lemma_mod_twice(x + d, size);
                    }
                },
            }
        }
    }

    /// Whether the walk from `(x, y)` reaches, with its `n`th step, a mark of
    /// `player`.
    pub open spec fn marked(
        self,
        x: int,
        y: int,
        v: Vertical,
        h: Option<Horizontal>,
        player: Player,
        n: nat,
    ) -> bool {
        match self.cell_at(x, y, v, h, n) {
            None => false,
            Some(cell) => self.owner(cell.0, cell.1) == Some(player),
        }
    }

    /// Whether each of the first `n` steps of the walk from `(x, y)` reaches
    /// a mark of `player`.
    pub open spec fn unbroken(
        self,
        x: int,
        y: int,
        v: Vertical,
        h: Option<Horizontal>,
        player: Player,
        n: nat,
    ) -> bool {
        forall|i: nat| 1 <= i <= n ==> #[trigger] self.marked(x, y, v, h, player, i)
    }

    /// A run is the number of steps, up to the budget, that reach marks of
    /// the player one after the other: every step up to that number reaches
    /// one, and the step after it, if the budget allows for it, does not.
    pub proof fn lemma_run_counts(
        self,
        x: int,
        y: int,
        v: Vertical,
        h: Option<Horizontal>,
        player: Player,
        budget: nat,
    )
        ensures
            self.run(x, y, v, h, player, budget) <= budget,
            self.unbroken(x, y, v, h, player, self.run(x, y, v, h, player, budget)),
            self.run(x, y, v, h, player, budget) < budget ==> !self.marked(
                x,
                y,
                v,
                h,
                player,
                self.run(x, y, v, h, player, budget) + 1,
            ),
        decreases budget,
    {
        let length = self.run(x, y, v, h, player, budget);
        if budget > 0 {
            match self.next_cell(x, y, v, h) {
                None => {},
                Some(cell) => {
                    self.lemma_run_counts(cell.0, cell.1, v, h, player, (budget - 1) as nat);
                    let rest = self.run(cell.0, cell.1, v, h, player, (budget - 1) as nat);
                    assert(self.cell_at(cell.0, cell.1, v, h, 0) == Some(cell));
                    if self.owner(cell.0, cell.1) == Some(player) {
                        assert forall|n: nat| 1 <= n <= length implies #[trigger] self.marked(
                            x,
                            y,
                            v,
                            h,
                            player,
                            n,
                        ) by {
                            if n > 1 {
                                assert(self.marked(cell.0, cell.1, v, h, player, (n - 1) as nat));
                            }
                        }
                        if length < budget {
                            assert(!self.marked(cell.0, cell.1, v, h, player, rest + 1));
                        }
                    }
                },
            }
        }
    }

    /// Where the topmost mark of column `x` completes a line along two
    /// opposite senses, the walk in the one and the walk in the other reach
    /// three marks of its owner between them, each an unbroken row from the
    /// mark on: with the mark itself that makes four.
    pub proof fn lemma_complete_line_has_four(
        self,
        x: int,
        v1: Vertical,
        v2: Vertical,
        h1: Option<Horizontal>,
        h2: Option<Horizontal>,
    )
        requires
            self.completes(x, v1, v2, h1, h2),
        ensures
            ({
                let y = self.columns[x].len() - 1;
                let player = self.columns[x][y];
                exists|one: nat, other: nat|
                    {
                        &&& one + other == LINE_WITHOUT_FIRST
                        &&& #[trigger] self.unbroken(x, y, v1, h1, player, one)
                        &&& #[trigger] self.unbroken(x, y, v2, h2, player, other)
                    }
            }),
    {
        let y = self.columns[x].len() - 1;
        let player = self.columns[x][y];
        let budget = LINE_WITHOUT_FIRST as nat;
        let a = self.run(x, y, v1, h1, player, budget);
        let b = self.run(x, y, v2, h2, player, budget);
        self.lemma_run_counts(x, y, v1, h1, player, budget);
        self.lemma_run_counts(x, y, v2, h2, player, budget);
        let (one, other): (nat, nat) = if a == budget {
            (budget, 0nat)
        } else if b == budget {
            (0nat, budget)
        } else {
            (a, b)
        };
        assert(one + other == LINE_WITHOUT_FIRST);
        assert(self.unbroken(x, y, v1, h1, player, one));
        assert(self.unbroken(x, y, v2, h2, player, other));
    }

    /// The run, of at most three marks, of the owner of the topmost mark of
    /// column `x`, walking from that mark by steps of `(v, h)`.
    pub open spec fn run_from_top(self, x: int, v: Vertical, h: Option<Horizontal>) -> nat {
        let y = self.columns[x].len() - 1;
        self.run(x, y, v, h, self.columns[x][y], LINE_WITHOUT_FIRST as nat)
    }

    /// Whether the topmost mark of column `x` completes a line along the two
    /// opposite senses `(v1, h1)` and `(v2, h2)`: three more marks of its
    /// owner lie in one of the senses, or three in both together.
    pub open spec fn completes(
        self,
        x: int,
        v1: Vertical,
        v2: Vertical,
        h1: Option<Horizontal>,
        h2: Option<Horizontal>,
    ) -> bool {
        let one = self.run_from_top(x, v1, h1);
        let other = self.run_from_top(x, v2, h2);
        one == LINE_WITHOUT_FIRST || other == LINE_WITHOUT_FIRST || one + other
            == LINE_WITHOUT_FIRST
    }

    /// Whether the topmost mark of column `x` completes a line: straight
    /// down, along one of the two diagonals, or along its row.
    pub open spec fn wins_at(self, x: int) -> bool {
        ||| self.completes(x, Vertical::Down, Vertical::Up, None, None)
        ||| self.completes(
            x,
            Vertical::Down,
            Vertical::Up,
            Some(Horizontal::Left),
            Some(Horizontal::Right),
        )
        ||| self.completes(
            x,
            Vertical::Up,
            Vertical::Down,
            Some(Horizontal::Left),
            Some(Horizontal::Right),
        )
        ||| self.completes(
            x,
            Vertical::Straight,
            Vertical::Straight,
            Some(Horizontal::Left),
            Some(Horizontal::Right),
        )
    }

    /// Two boards have the same grid: size, shape and marks.
    pub open spec fn same_grid(self, other: Board) -> bool {
        &&& self.horizontal_size == other.horizontal_size
        &&& self.cyclic == other.cyclic
        &&& self.columns == other.columns
    }

    /// A run depends on the grid alone.
    pub proof fn lemma_run_of_grid(
        self,
        other: Board,
        x: int,
        y: int,
        v: Vertical,
        h: Option<Horizontal>,
        player: Player,
        budget: nat,
    )
        requires
            self.same_grid(other),
        ensures
            self.run(x, y, v, h, player, budget) == other.run(x, y, v, h, player, budget),
        decreases budget,
    {
        if budget > 0 {
            match self.next_cell(x, y, v, h) {
                None => {},
                Some(cell) => {
                    let rest = (budget - 1) as nat;
                    self.lemma_run_of_grid(other, cell.0, cell.1, v, h, player, rest);
                },
            }
        }
    }

    /// Whether a mark completes a line depends on the grid alone: not on the
    /// players, the turn or the outcome so far.
    pub proof fn lemma_wins_of_grid(self, other: Board, x: int)
        requires
            self.same_grid(other),
        ensures
            self.wins_at(x) == other.wins_at(x),
    {
        let y = self.columns[x].len() - 1;
        let p = self.columns[x][y];
        let n = LINE_WITHOUT_FIRST as nat;
        let left = Some(Horizontal::Left);
        let right = Some(Horizontal::Right);
        self.lemma_run_of_grid(other, x, y, Vertical::Down, None, p, n);
        self.lemma_run_of_grid(other, x, y, Vertical::Up, None, p, n);
        self.lemma_run_of_grid(other, x, y, Vertical::Down, left, p, n);
        self.lemma_run_of_grid(other, x, y, Vertical::Up, right, p, n);
        self.lemma_run_of_grid(other, x, y, Vertical::Up, left, p, n);
        self.lemma_run_of_grid(other, x, y, Vertical::Down, right, p, n);
        self.lemma_run_of_grid(other, x, y, Vertical::Straight, left, p, n);
        self.lemma_run_of_grid(other, x, y, Vertical::Straight, right, p, n);
    }

    /// The seat that the next player to join gets: the first of `P1`, `P2`
    /// that nobody holds.
    pub open spec fn free_seat(self) -> Option<Player> {
        if !has_player(self.players, Player::P1) {
            Some(Player::P1)
        } else if !has_player(self.players, Player::P2) {
            Some(Player::P2)
        } else {
            None
        }
    }

    /// The seat that a player who comes with `token` gets, or why it gets
    /// none: the game is full, or else a player of the game holds the
    /// token already.
    pub open spec fn seat_for(self, token: Seq<u8>) -> Result<Player, JoinError> {
        match self.free_seat() {
            None => Err(JoinError::GameAlreadyFull),
            Some(seat) => if self.players.dom().contains(token) {
                Err(JoinError::IdentityTaken)
            } else {
                Ok(seat)
            },
        }
    }

    /// The board with one more pair among its players.
    pub open spec fn joined(self, token: Seq<u8>, player: Player) -> Board {
        Board { players: self.players.insert(token, player), ..self }
    }

    /// Whether a request to join a game in the state `self` is answered with
    /// `joined` and leaves the game in the state `after`. A full game stays
    /// as it is and says so. Otherwise the player gets the first seat that
    /// is free, under a token that no player of the game held, and the
    /// players grow by exactly that pair; or else the token that was drawn
    /// is taken, and the game stays as it is.
    pub open spec fn seats(
        self,
        joined: Result<(Identity, Player), JoinError>,
        after: Board,
    ) -> bool {
        match self.free_seat() {
            None => joined == Err::<(Identity, Player), JoinError>(JoinError::GameAlreadyFull)
                && after == self,
            Some(seat) => match joined {
                Ok(pair) => {
                    &&& pair.1 == seat
                    &&& !self.players.dom().contains(pair.0@)
                    &&& after == self.joined(pair.0@, seat)
                    &&& after.players.dom().len() == self.players.dom().len() + 1
                },
                Err(e) => e == JoinError::IdentityTaken && after == self,
            },
        }
    }

    /// Who may drop a mark into column `x` under the token written as
    /// `text`, or why nobody may. The checks are made in this order: the
    /// token is the text of an identifier; a player of the game holds it;
    /// it is that player's turn; the column is there; the column has room;
    /// the game is not finished. So a finished game turns down, as
    /// finished, just the moves that it would otherwise play.
    pub open spec fn mover(self, text: Seq<char>, x: int) -> Result<Player, TryMoveError> {
        if !is_identity_text(text) {
            Err(TryMoveError::IdWrongFormat)
        } else if !self.players.dom().contains(text_bytes(text)) {
            Err(TryMoveError::UnknownIdentity)
        } else if self.players[text_bytes(text)] != self.turn {
            Err(TryMoveError::OtherPlayerTurn)
        } else if !(0 <= x < self.horizontal_size) {
            Err(TryMoveError::MissingColumn)
        } else if self.columns[x].len() >= self.vertical_size {
            Err(TryMoveError::ColumnFull)
        } else if self.finished {
            Err(TryMoveError::GameFinished)
        } else {
            Ok(self.turn)
        }
    }

    /// Whether a move into column `x`, signed with the token written as
    /// `text` and sent to a game in the state `self`, is answered with
    /// `played` and leaves the game in the state `after`. A move that is
    /// turned down leaves the game as it is; one that is played is answered
    /// with the outcome of the game and the player that moved.
    pub open spec fn plays(
        self,
        text: Seq<char>,
        x: int,
        played: Result<(bool, Player), TryMoveError>,
        after: Board,
    ) -> bool {
        match self.mover(text, x) {
            Err(e) => played == Err::<(bool, Player), TryMoveError>(e) && after == self,
            Ok(player) => {
                &&& after == self.moved(player, x)
                &&& played == Ok::<(bool, Player), TryMoveError>((after.finished, player))
            },
        }
    }

    /// On a new board the first player to join is `P1` and the second `P2`,
    /// whatever their tokens, so long as the tokens differ; the same token
    /// is not seated twice; and after the two the game is full, whatever
    /// token comes third.
    pub proof fn lemma_seats_fill(
        id: Seq<u8>,
        settings: GameSettings,
        first: Seq<u8>,
        second: Seq<u8>,
        third: Seq<u8>,
    )
        ensures
            ({
                let fresh = Board::initial(id, settings);
                let one = fresh.joined(first, Player::P1);
                let two = one.joined(second, Player::P2);
                &&& fresh.seat_for(first) == Ok::<Player, JoinError>(Player::P1)
                &&& one.seat_for(first) == Err::<Player, JoinError>(JoinError::IdentityTaken)
                &&& first != second ==> {
                    &&& one.seat_for(second) == Ok::<Player, JoinError>(Player::P2)
                    &&& two.players == map![first => Player::P1, second => Player::P2]
                    &&& two.seat_for(third) == Err::<Player, JoinError>(
                        JoinError::GameAlreadyFull,
                    )
                }
            }),
    {
        let fresh = Board::initial(id, settings);
        let one = fresh.joined(first, Player::P1);
        let two = one.joined(second, Player::P2);
        assert(!has_player(fresh.players, Player::P1));
        assert(one.players.contains_pair(first, Player::P1));
        assert(!has_player(one.players, Player::P2)) by {
            if has_player(one.players, Player::P2) {
                let t = choose|t: Seq<u8>| #[trigger] one.players.contains_pair(t, Player::P2);
                assert(t == first);
            }
        }
        if first != second {
            assert(two.players.contains_pair(first, Player::P1));
            assert(two.players.contains_pair(second, Player::P2));
            assert(two.players =~= map![first => Player::P1, second => Player::P2]);
        }
    }

    /// A board has at most two players.
    pub proof fn lemma_at_most_two_players(self)
        requires
            self.wf(),
        ensures
            self.players.dom().len() <= 2,
    {
        crate::registry::lemma_at_most_two(self.players);
    }

    /// A move that is played puts one mark of the mover on top of its column
    /// and leaves every other mark, the players and the lock as they were.
    pub proof fn lemma_move_adds_one_mark(self, text: Seq<char>, x: int)
        requires
            self.wf(),
            self.mover(text, x).is_ok(),
        ensures
            ({
                let after = self.moved(self.turn, x);
                &&& after.wf()
                &&& after.columns[x] == self.columns[x].push(self.turn)
                &&& forall|z: int|
                    0 <= z < self.columns.len() && z != x ==> after.columns[z] == self.columns[z]
                &&& after.players == self.players
                &&& after.id == self.id
                &&& after.lock == self.lock
                &&& after.horizontal_size == self.horizontal_size
                &&& after.vertical_size == self.vertical_size
                &&& after.cyclic == self.cyclic
            }),
    {
    }

    /// In one state of a game only one token can sign a move that is
    /// played: two moves that would both be played are signed by the same
    /// token, that of the player whose turn it is.
    pub proof fn lemma_one_token_moves(self, text: Seq<char>, x: int, other: Seq<char>, z: int)
        requires
            self.wf(),
            self.mover(text, x).is_ok(),
            self.mover(other, z).is_ok(),
        ensures
            text_bytes(text) == text_bytes(other),
            self.mover(text, x) == Ok::<Player, TryMoveError>(self.turn),
    {
    }

    /// Once a move is played, a second move signed by the same token is
    /// turned down because the turn has passed to the opponent: of two
    /// moves that one player sends against one state, at most the first is
    /// played.
    pub proof fn lemma_turn_passes(self, text: Seq<char>, x: int, z: int)
        requires
            self.wf(),
            self.mover(text, x).is_ok(),
        ensures
            self.moved(self.turn, x).turn == self.turn.opponent(),
            self.moved(self.turn, x).mover(text, z) == Err::<Player, TryMoveError>(
                TryMoveError::OtherPlayerTurn,
            ),
    {
    }

    /// A move that is turned down for the token, the turn, the column or
    /// its height is turned down for the same reason whether or not the
    /// game is finished; a finished game adds only that the move which
    /// would be played is turned down as well.
    pub proof fn lemma_finished_turns_down_last(self, text: Seq<char>, x: int)
        ensures
            ({
                let open = Board { finished: false, ..self };
                match open.mover(text, x) {
                    Err(e) => self.mover(text, x) == Err::<Player, TryMoveError>(e),
                    Ok(player) => self.mover(text, x) == if self.finished {
                        Err::<Player, TryMoveError>(TryMoveError::GameFinished)
                    } else {
                        Ok::<Player, TryMoveError>(player)
                    },
                }
            }),
    {
    }

    /// A finished game stays as it is, whatever move is sent to it, and so
    /// stays finished: the outcome of a game goes from open to finished and
    /// never back.
    pub proof fn lemma_finished_is_final(
        self,
        text: Seq<char>,
        x: int,
        played: Result<(bool, Player), TryMoveError>,
        after: Board,
    )
        requires
            self.finished,
            self.plays(text, x, played, after),
        ensures
            played.is_err(),
            after == self,
            after.finished,
    {
    }

    /// A move is played only in a game that is not finished, and the game
    /// is finished afterwards exactly if the new mark completes a line.
    pub proof fn lemma_played_in_open_game(
        self,
        text: Seq<char>,
        x: int,
        played: Result<(bool, Player), TryMoveError>,
        after: Board,
    )
        requires
            self.plays(text, x, played, after),
            played.is_ok(),
        ensures
            !self.finished,
            after.finished == self.dropped(self.turn, x).wins_at(x),
            played.unwrap().0 == after.finished,
    {
    }

    /// The board with one more mark of `player` on top of column `x`.
    pub open spec fn dropped(self, player: Player, x: int) -> Board {
        Board { columns: self.columns.update(x, self.columns[x].push(player)), ..self }
    }

    /// The board after `player` played column `x`: the mark is placed, the
    /// turn passes to the opponent, and the game is finished exactly if the
    /// new mark completes a line.
    pub open spec fn moved(self, player: Player, x: int) -> Board {
        let placed = self.dropped(player, x);
        Board { turn: player.opponent(), finished: placed.wins_at(x), ..placed }
    }
}

} // verus!
