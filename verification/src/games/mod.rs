//! Coordinates, players, and the abstract position that every board game of
//! this crate is a view of.

use vstd::prelude::*;

pub mod chance;
pub mod connect4spin;
pub mod lines;
pub mod notation;
pub mod spin;

verus! {

/// An `(x, y)` coordinate pair: column first, then row.
#[derive(Copy, Clone, Debug, Hash, PartialEq, Eq, Structural)]
pub struct Move(pub usize, pub usize);

impl Move {
    /// The linear index of this coordinate on a board with `columns` columns.
    pub open spec fn linear(self, columns: int) -> int {
        self.0 + self.1 * columns
    }

    /// The coordinate that stands at linear index `i` on a board with
    /// `columns` columns.
    pub open spec fn at(i: int, columns: int) -> Move {
        Move((i % columns) as usize, (i / columns) as usize)
    }

    /// Joins the coordinate into its linear index, `x + y * columns`.
    pub fn to_1d(&self, columns: usize) -> (i: usize)
        requires
            self.linear(columns as int) <= usize::MAX,
        ensures
            i == self.linear(columns as int),
    {
        assert(self.1 * columns >= 0) by (nonlinear_arith);
        self.0 + self.1 * columns
    }

    /// Splits a linear index into its coordinate, `(i mod columns, i div columns)`.
    pub fn from_1d(i: usize, columns: usize) -> (m: Move)
        requires
            columns > 0,
        ensures
            m == Move::at(i as int, columns as int),
            m.0 < columns,
            m.linear(columns as int) == i,
    {
        proof {
            lemma_round_trip(i as int, columns as int);
        }
        Move(i % columns, i / columns)
    }
}

/// Splitting a linear index into a coordinate and joining the coordinate
/// again gives the index back, whatever the (positive) number of columns.
pub proof fn lemma_round_trip(index: int, columns: int)
    requires
        columns >= 1,
        index >= 0,
    ensures
        0 <= index % columns < columns,
        0 <= index / columns <= index,
        (index % columns) + (index / columns) * columns == index,
        index <= usize::MAX ==> Move::at(index, columns).linear(columns) == index,
{
    vstd::arithmetic::div_mod::lemma_fundamental_div_mod(index, columns);
    vstd::arithmetic::div_mod::lemma_div_pos_is_pos(index, columns);
    vstd::arithmetic::div_mod::lemma_div_is_ordered_by_denominator(index, 1, columns);
    assert(columns * (index / columns) == (index / columns) * columns) by (nonlinear_arith);
}

/// A cell `(x, y)` that lies on a `columns` by `rows` board has a linear
/// index below the number of cells, and that index splits back into `x` and `y`.
pub proof fn lemma_cell_index(x: int, y: int, columns: int, rows: int)
    requires
        0 <= x < columns,
        0 <= y < rows,
    ensures
        0 <= x + y * columns < columns * rows,
        (x + y * columns) % columns == x,
        (x + y * columns) / columns == y,
{
    assert(0 <= y * columns && y * columns + columns <= rows * columns
        && rows * columns == columns * rows) by (nonlinear_arith)
        requires
            0 <= y < rows,
            0 < columns,
    ;
    vstd::arithmetic::div_mod::lemma_fundamental_div_mod_converse(x + y * columns, columns, y, x);
}

/// The owner of a space, or of a finished game.
#[derive(Copy, Clone, Debug, Hash, PartialEq, Eq, Structural)]
pub enum Player {
    /// An unassigned space, or a tie between the players.
    Empty,
    /// The player who has the first action.
    One,
    /// The player who has the second action.
    Two,
}

impl Player {
    /// The opponent of a player; the empty owner has none and stays as it is.
    pub open spec fn opponent(self) -> Player {
        match self {
            Player::One => Player::Two,
            Player::Two => Player::One,
            Player::Empty => Player::Empty,
        }
    }

    /// The numeric code under which a policy sees this owner.
    pub open spec fn code(self) -> u8 {
        match self {
            Player::Empty => 0,
            Player::One => 1,
            Player::Two => 2,
        }
    }

    /// Whether this is one of the two players, and not the empty owner.
    pub open spec fn is_player(self) -> bool {
        self == Player::One || self == Player::Two
    }

    /// Hands the turn to the other player.
    pub fn flip(&self) -> (p: Player)
        ensures
            p == self.opponent(),
    {
        match self {
            Player::One => Player::Two,
            Player::Two => Player::One,
            Player::Empty => Player::Empty,
        }
    }
}

impl From<Player> for u8 {
    fn from(p: Player) -> (code: u8) {
        match p {
            Player::Empty => 0,
            Player::One => 1,
            Player::Two => 2,
        }
    }
}

impl vstd::std_specs::convert::FromSpecImpl<Player> for u8 {
    open spec fn obeys_from_spec() -> bool {
        true
    }

    open spec fn from_spec(p: Player) -> u8 {
        p.code()
    }
}

/// Handing the turn over twice gives it back, and a player's opponent is a
/// player again.
pub proof fn lemma_flip_twice(p: Player)
    ensures
        p.opponent().opponent() == p,
        p.is_player() ==> p.opponent().is_player() && p.opponent() != p,
{
}

/// Why a move was not accepted.
#[derive(Copy, Clone, Debug, PartialEq, Eq, Structural)]
pub enum MoveError {
    /// The move names no cell of the board: its column or its row lies
    /// beyond the board's.
    OutOfBounds(Move),
    /// The space that the move names already belongs to the given player.
    SpaceOccupied(Move, Player),
}

/// What a game is at one moment: the size of its board, the owner of every
/// space in the order of the linear index, and the player who moves next.
pub struct Position {
    pub columns: nat,
    pub rows: nat,
    pub board: Seq<Player>,
    pub turn: Player,
}

impl Position {
    /// The board has one space for every cell, and one of the two players is
    /// to move.
    pub open spec fn wf(self) -> bool {
        &&& self.board.len() == self.columns * self.rows
        &&& self.turn.is_player()
    }

    /// The position from which every game starts: nothing is owned, and the
    /// first player moves.
    pub open spec fn fresh(columns: nat, rows: nat) -> Position {
        Position {
            columns,
            rows,
            board: Seq::new(columns * rows, |i: int| Player::Empty),
            turn: Player::One,
        }
    }

    /// Whether a move's linear index falls outside the board.
    pub open spec fn is_oob(self, pmove: Move) -> bool {
        pmove.linear(self.columns as int) >= self.board.len()
    }

    /// Whether a move names a cell that is not on the board: its column or
    /// its row lies beyond the board's.
    pub open spec fn is_off_board(self, pmove: Move) -> bool {
        pmove.0 >= self.columns || self.is_oob(pmove)
    }

    /// The error that a move meets in this position, if it meets one: a
    /// move that names no cell of the board is out of bounds, and a move to
    /// a cell that has an owner finds the space occupied.
    pub open spec fn refusal(self, pmove: Move) -> Option<MoveError> {
        let index = pmove.linear(self.columns as int);
        if self.is_off_board(pmove) {
            Some(MoveError::OutOfBounds(pmove))
        } else if self.board[index] != Player::Empty {
            Some(MoveError::SpaceOccupied(pmove, self.board[index]))
        } else {
            None
        }
    }
}

/// The game of connect four with turning columns, by its own name.
pub type Connect4Spin = connect4spin::Game;

/// A move names no cell of the board exactly if its column or its row lies
/// beyond the board's; and a move that names a cell has that cell's linear
/// index, which lies on the board in the column of the move.
pub proof fn lemma_off_board(pos: Position, pmove: Move)
    requires
        pos.wf(),
    ensures
        pos.is_off_board(pmove) <==> pmove.0 >= pos.columns || pmove.1 >= pos.rows,
        !pos.is_off_board(pmove) ==> 0 <= pmove.linear(pos.columns as int) < pos.board.len(),
        !pos.is_off_board(pmove) ==> pmove.linear(pos.columns as int) % (pos.columns as int)
            == pmove.0,
{
    let columns = pos.columns as int;
    let rows = pos.rows as int;
    let (x, y) = (pmove.0 as int, pmove.1 as int);
    if x < columns {
        if y < rows {
            lemma_cell_index(x, y, columns, rows);
        } else {
            assert(y * columns >= columns * rows) by (nonlinear_arith)
                requires
                    y >= rows,
                    columns > 0,
            ;
        }
    }
}

/// How many spaces of a board nobody owns.
pub open spec fn count_empty(board: Seq<Player>) -> nat {
    board.to_multiset().count(Player::Empty)
}

/// Whether every space of a board has an owner.
pub open spec fn is_full(board: Seq<Player>) -> bool {
    forall|i: int| 0 <= i < board.len() ==> board[i] != Player::Empty
}

/// The numeric encoding of a board, space by space.
pub open spec fn encoding(board: Seq<Player>) -> Seq<u8> {
    Seq::new(board.len(), |i: int| board[i].code())
}

/// A board is full exactly when it counts no empty space, and it never counts
/// more empty spaces than it has spaces.
pub proof fn lemma_count_empty(board: Seq<Player>)
    ensures
        is_full(board) <==> count_empty(board) == 0,
        count_empty(board) <= board.len(),
{
    broadcast use vstd::seq_lib::to_multiset_contains;
    if !is_full(board) {
        let i = choose|i: int| 0 <= i < board.len() && board[i] == Player::Empty;
        assert(board.contains(board[i]));
    }
    if count_empty(board) > 0 {
        assert(board.contains(Player::Empty));
    }
    vstd::seq_lib::to_multiset_len(board);
    vstd::multiset::axiom_count_le_len(board.to_multiset(), Player::Empty);
}

/// Taking an empty space for a player leaves one empty space fewer.
pub proof fn lemma_take_space(board: Seq<Player>, index: int, p: Player)
    requires
        0 <= index < board.len(),
        board[index] == Player::Empty,
        p != Player::Empty,
    ensures
        count_empty(board.update(index, p)) + 1 == count_empty(board),
{
    broadcast use vstd::multiset::group_multiset_axioms;
    let before = board.to_multiset();
    vstd::seq_lib::to_multiset_update(board, index, p);
    assert(before.insert(p).count(Player::Empty) == before.count(Player::Empty));
    assert(board.contains(board[index]));
    vstd::seq_lib::to_multiset_contains(board, Player::Empty);
    assert(before.insert(p).remove(Player::Empty).count(Player::Empty) + 1 == before.count(
        Player::Empty,
    ));
}

/// One entry of a target vector: the fraction `numerator / denominator`.
/// A denominator of zero stands for a value beyond every number, as the
/// division of a positive number by zero does.
#[derive(Copy, Clone, Debug, PartialEq, Eq, Structural)]
pub struct Reward {
    pub numerator: u32,
    pub denominator: usize,
}

/// The target vector for one chosen move: one entry for each of `cells`
/// spaces, `scale / turn_count` at the linear index of the move, and zero
/// everywhere else.
pub open spec fn answer(cells: nat, index: int, scale: u32, turn_count: usize) -> Seq<Reward> {
    Seq::new(
        cells,
        |i: int|
            if i == index {
                Reward { numerator: scale, denominator: turn_count }
            } else {
                Reward { numerator: 0, denominator: 1 }
            },
    )
}

/// Builds the target vector for one chosen move on a board of `cells` spaces
/// in rows of `columns`.
pub fn answer_vector(
    cells: usize,
    columns: usize,
    pmove: Move,
    turn_count: usize,
    scale: u32,
) -> (target: Vec<Reward>)
    ensures
        target@ == answer(cells as nat, pmove.linear(columns as int), scale, turn_count),
{
    let hot: Option<usize> = match pmove.1.checked_mul(columns) {
        Some(below) => below.checked_add(pmove.0),
        None => None,
    };
    let mut target: Vec<Reward> = Vec::new();
    let mut i: usize = 0;
    while i < cells
        invariant
            i <= cells,
            target@ == answer(i as nat, pmove.linear(columns as int), scale, turn_count),
            match hot {
                Some(h) => h == pmove.linear(columns as int),
                None => pmove.linear(columns as int) > usize::MAX,
            },
        decreases cells - i,
    {
        let entry = if hot == Some(i) {
            Reward { numerator: scale, denominator: turn_count }
        } else {
            Reward { numerator: 0, denominator: 1 }
        };
        target.push(entry);
        i += 1;
        assert(target@ == answer(i as nat, pmove.linear(columns as int), scale, turn_count));
    }
    target
}

/// The position in which a move leaves the game when it leaves the board as
/// `board`: the size is kept, and the turn has passed to the opponent.
pub open spec fn advanced(pos: Position, board: Seq<Player>) -> Position {
    Position { columns: pos.columns, rows: pos.rows, board, turn: pos.turn.opponent() }
}

/// What every board game of this crate can do.
pub trait BoardGame: Sized {
    /// The position that the game stands in.
    spec fn position(&self) -> Position;

    /// What holds of every game that its own functions hand out.
    spec fn valid(&self) -> bool;

    /// What the rules make of the board after a piece was set at `index`.
    spec fn settled(
        board: Seq<Player>,
        columns: nat,
        rows: nat,
        index: int,
        chance: bool,
    ) -> Seq<Player>;

    /// How a position stands under the rules: a winner, the empty owner for
    /// a tie, or nothing while the game goes on.
    spec fn outcome(pos: Position) -> Option<Player>;

    /// A valid game stands in a well-formed position.
    proof fn lemma_valid(&self)
        requires
            self.valid(),
        ensures
            self.position().wf(),
    ;

    /// Settling the board moves owners about: it keeps the number of spaces
    /// and the number of empty ones.
    proof fn lemma_settled(board: Seq<Player>, columns: nat, rows: nat, index: int, chance: bool)
        requires
            board.len() == columns * rows,
            0 <= index < board.len(),
        ensures
            Self::settled(board, columns, rows, index, chance).len() == board.len(),
            count_empty(Self::settled(board, columns, rows, index, chance)) == count_empty(board),
    ;

    /// A full board ends the game.
    proof fn lemma_full_board_ends(pos: Position)
        requires
            pos.wf(),
            is_full(pos.board),
        ensures
            Self::outcome(pos) is Some,
    ;

    /// A game at its start.
    fn new() -> (game: Self)
        ensures
            game.valid(),
            game.position() == Position::fresh(game.position().columns, game.position().rows),
    ;

    /// Puts the game back to its start, on the board that it has.
    fn reset(&mut self)
        requires
            old(self).valid(),
        ensures
            final(self).valid(),
            final(self).position() == Position::fresh(
                old(self).position().columns,
                old(self).position().rows,
            ),
    ;

    /// Plays a move for the player whose turn it is. A move that is out of
    /// bounds or names an owned space is refused and changes nothing. An
    /// accepted move gives the space to the mover, passes the turn, lets the
    /// rules settle the board, and tells how the game then stands.
    fn play(&mut self, pmove: Move) -> (result: Result<Option<Player>, MoveError>)
        requires
            old(self).valid(),
        ensures
            final(self).valid(),
            match old(self).position().refusal(pmove) {
                Some(e) => result == Err::<Option<Player>, MoveError>(e) && *final(self) == *old(
                    self,
                ),
                None => {
                    let index = pmove.linear(old(self).position().columns as int);
                    let taken = old(self).position().board.update(
                        index,
                        old(self).position().turn,
                    );
                    let columns = old(self).position().columns;
                    let rows = old(self).position().rows;
                    &&& result == Ok::<Option<Player>, MoveError>(
                        Self::outcome(final(self).position()),
                    )
                    &&& (final(self).position() == advanced(
                        old(self).position(),
                        Self::settled(taken, columns, rows, index, true),
                    ) || final(self).position() == advanced(
                        old(self).position(),
                        Self::settled(taken, columns, rows, index, false),
                    ))
                },
            },
    ;

    /// Whether a move's linear index falls outside the board.
    fn is_move_oob(&self, pmove: Move) -> (oob: bool)
        requires
            self.valid(),
        ensures
            oob == self.position().is_oob(pmove),
    ;

    /// The player whose turn it is.
    fn get_turn(&self) -> (turn: Player)
        requires
            self.valid(),
        ensures
            turn == self.position().turn,
    ;

    /// A copy of the board, which later moves do not change.
    fn get_board(&self) -> (board: Vec<Player>)
        requires
            self.valid(),
        ensures
            board@ == self.position().board,
    ;

    /// The number of columns of the board.
    fn columns(&self) -> (n: usize)
        requires
            self.valid(),
        ensures
            n == self.position().columns,
    ;

    /// The number of rows of the board.
    fn rows(&self) -> (n: usize)
        requires
            self.valid(),
        ensures
            n == self.position().rows,
    ;

    /// Whether a space has no owner.
    fn is_space_empty(space: &Player) -> (empty: bool)
        ensures
            empty == (*space == Player::Empty),
    ;

    /// The target vector that rewards `pmove` in an episode of `turn_count`
    /// turns: `scale / turn_count` at the move's space, zero at the others.
    fn create_answer_tensor(&self, pmove: Move, turn_count: usize, scale: u32) -> (target:
        Vec<Reward>)
        requires
            self.valid(),
        ensures
            target@ == answer(
                self.position().board.len(),
                pmove.linear(self.position().columns as int),
                scale,
                turn_count,
            ),
    ;
}

/// The position that follows an accepted move to the space at `index`: the
/// mover owns that space, the turn has passed to the opponent, and the board
/// was settled as the rules of the game `G` have it, with `chance` deciding
/// what they leave to chance.
pub open spec fn moved<G: BoardGame>(pos: Position, index: int, chance: bool) -> Position {
    advanced(
        pos,
        G::settled(pos.board.update(index, pos.turn), pos.columns, pos.rows, index, chance),
    )
}

/// The position after a series of accepted moves, each given by the linear
/// index of its space and by what chance decided after it.
pub open spec fn after_moves<G: BoardGame>(start: Position, moves: Seq<(int, bool)>) -> Position
    decreases moves.len(),
{
    if moves.len() == 0 {
        start
    } else {
        moved::<G>(after_moves::<G>(start, moves.drop_last()), moves.last().0, moves.last().1)
    }
}

/// The turn passes from one player to the other with every accepted move,
/// whatever chance decides: after an even number of moves the player who
/// began is to move again, after an odd number the opponent; and the board
/// keeps its size.
pub proof fn lemma_turns_alternate<G: BoardGame>(start: Position, moves: Seq<(int, bool)>)
    requires
        start.turn.is_player(),
    ensures
        after_moves::<G>(start, moves).turn == if moves.len() % 2 == 0 {
            start.turn
        } else {
            start.turn.opponent()
        },
        after_moves::<G>(start, moves).turn.is_player(),
        after_moves::<G>(start, moves).columns == start.columns,
        after_moves::<G>(start, moves).rows == start.rows,
    decreases moves.len(),
{
    if moves.len() > 0 {
        lemma_turns_alternate::<G>(start, moves.drop_last());
    }
}

} // verus!
