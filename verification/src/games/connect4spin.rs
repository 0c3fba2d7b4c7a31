//! Connect four on a board whose columns may turn over after a move.

use vstd::prelude::*;

use crate::games::advanced;
use crate::games::answer_vector;
use crate::games::chance::SpinSource;
use crate::games::lemma_cell_index;
use crate::games::moved;
use crate::games::lines::has_four;
use crate::games::lines::has_line;
use crate::games::lines::line_fits;
use crate::games::lines::line_owned;
use crate::games::lines::winner;
use crate::games::lines::Direction;
use crate::games::spin::half_spun;
use crate::games::spin::lemma_half_spun_none;
use crate::games::spin::lemma_half_spun_step;
use crate::games::spin::lemma_half_spun_whole;
use crate::games::spin::lemma_index_cell;
use crate::games::spin::lemma_spin_conserves;
use crate::games::spin::spun;
use crate::games::BoardGame;
use crate::games::Move;
use crate::games::MoveError;
use crate::games::Reward;
use crate::text::decimal;
use crate::text::push_char;
use crate::text::push_code;
use crate::text::push_decimal;
use crate::games::Player;
use crate::games::Position;
use crate::Named;

verus! {

/// The number of columns of the customary board.
pub const BOARD_COLUMNS: usize = 5;

/// The number of rows of the customary board.
pub const BOARD_ROWS: usize = 8;

/// The number of spaces of the customary board.
pub fn space_count() -> (cells: usize)
    ensures
        cells == BOARD_COLUMNS * BOARD_ROWS,
{
    BOARD_COLUMNS * BOARD_ROWS
}

/// What the coin makes of a board on which a piece was set at `index`: on
/// heads the column of that piece is turned over, on tails nothing happens.
pub open spec fn settle(
    board: Seq<Player>,
    columns: nat,
    rows: nat,
    index: int,
    heads: bool,
) -> Seq<Player> {
    if heads {
        spun(board, columns as int, rows as int, index % (columns as int))
    } else {
        board
    }
}

/// The position after an accepted move to the space at `index`: the mover
/// owns the space, the turn has passed, and then the coin has settled the
/// board.
pub open spec fn after_move(pos: Position, index: int, heads: bool) -> Position {
    advanced(pos, settle(pos.board.update(index, pos.turn), pos.columns, pos.rows, index, heads))
}

/// The sign that shows the owner of a space: a blue disc for the first
/// player, a red one for the second, a green square for an empty space.
pub open spec fn icon(p: Player) -> char {
    match p {
        Player::One => '\u{1F535}',
        Player::Two => '\u{1F534}',
        Player::Empty => '\u{1F7E9}',
    }
}

/// The signs of the first `k` spaces of row `y`.
pub open spec fn icons(pos: Position, y: int, k: nat) -> Seq<char> {
    Seq::new(k, |x: int| icon(pos.board[x + y * pos.columns]))
}

/// The line that shows row `y`: its number, counted from one, the signs of
/// its spaces, and a line feed.
pub open spec fn row_text(pos: Position, y: int) -> Seq<char> {
    decimal((y + 1) as nat) + icons(pos, y, pos.columns).push('\n')
}

/// The lines that show the first `k` rows.
pub open spec fn rows_text(pos: Position, k: nat) -> Seq<char>
    decreases k,
{
    if k == 0 {
        Seq::empty()
    } else {
        rows_text(pos, (k - 1) as nat) + row_text(pos, k - 1)
    }
}

/// The letters of the first `k` columns, counted from `a`, each followed by
/// a blank.
pub open spec fn letters(k: nat) -> Seq<char> {
    Seq::new(
        2 * k,
        |i: int|
            if i % 2 == 0 {
                (97 + i / 2) as char
            } else {
                ' '
            },
    )
}

/// The picture of a position: a line for each row, and below them a blank
/// and the letters of the columns.
pub open spec fn picture(pos: Position) -> Seq<char> {
    rows_text(pos, pos.rows).push(' ') + letters(pos.columns)
}

/// A game of connect four with turning columns.
pub struct Game {
    columns: usize,
    rows: usize,
    current_state: Vec<Player>,
    turn: Player,
    spins: SpinSource,
}

impl Named for Game {
    const NAME: &'static str = "connect-4-spin";
}

/// A board of `cells` spaces that nobody owns.
fn empty_board(cells: usize) -> (board: Vec<Player>)
    ensures
        board@ == Seq::new(cells as nat, |i: int| Player::Empty),
{
    let mut board: Vec<Player> = Vec::new();
    let mut i: usize = 0;
    while i < cells
        invariant
            i <= cells,
            board@ == Seq::new(i as nat, |i: int| Player::Empty),
        decreases cells - i,
    {
        board.push(Player::Empty);
        i += 1;
        assert(board@ == Seq::new(i as nat, |i: int| Player::Empty));
    }
    board
}

impl Game {
    /// The owner of the cell in column `x` and row `y`.
    fn cell(&self, x: usize, y: usize) -> (p: Player)
        requires
            self.valid(),
            x < self.columns,
            y < self.rows,
        ensures
            p == self.position().board[x + y * self.columns],
    {
        proof {
            lemma_cell_index(x as int, y as int, self.columns as int, self.rows as int);
            assert(self.current_state.len() == self.columns as int * self.rows as int);
        }
        self.current_state[Move(x, y).to_1d(self.columns)]
    }

    /// Whether the four cells from `(x, y)` in direction `d` all belong to `p`.
    fn owns_four(&self, x: usize, y: usize, d: Direction, p: Player) -> (owned: bool)
        requires
            self.valid(),
            line_fits(self.columns as int, self.rows as int, x as int, y as int, d),
        ensures
            owned == line_owned(self.position(), x as int, y as int, d, p),
    {
        match d {
            Direction::Horizontal => {
                self.cell(x, y) == p && self.cell(x + 1, y) == p && self.cell(x + 2, y) == p
                    && self.cell(x + 3, y) == p
            },
            Direction::Vertical => {
                self.cell(x, y) == p && self.cell(x, y + 1) == p && self.cell(x, y + 2) == p
                    && self.cell(x, y + 3) == p
            },
            Direction::Falling => {
                self.cell(x, y) == p && self.cell(x + 1, y + 1) == p && self.cell(x + 2, y + 2)
                    == p && self.cell(x + 3, y + 3) == p
            },
            Direction::Rising => {
                self.cell(x, y) == p && self.cell(x + 1, y - 1) == p && self.cell(x + 2, y - 2)
                    == p && self.cell(x + 3, y - 3) == p
            },
        }
    }

    /// Looks for four cells of `p` in a row in direction `d`, row by row and
    /// in each row from the left, and stops at the first that it finds.
    fn scan(&self, d: Direction, p: Player) -> (found: bool)
        requires
            self.valid(),
        ensures
            found == has_line(self.position(), d, p),
    {
        let x_end = match d {
            Direction::Vertical => self.columns,
            _ => self.columns - 3,
        };
        let (y_start, y_end) = match d {
            Direction::Horizontal => (0, self.rows),
            Direction::Rising => (3, self.rows),
            _ => (0, self.rows - 3),
        };
        assert(forall|x: int, y: int|
            line_fits(self.columns as int, self.rows as int, x, y, d) <==> 0 <= x < x_end
                && y_start <= y < y_end);
        let mut y = y_start;
        while y < y_end
            invariant
                self.valid(),
                y_start <= y <= y_end,
                forall|x: int, y: int|
                    line_fits(self.columns as int, self.rows as int, x, y, d) <==> 0 <= x < x_end
                        && y_start <= y < y_end,
                forall|x: int, yy: int|
                    0 <= x < x_end && y_start <= yy < y ==> !#[trigger] line_owned(
                        self.position(),
                        x,
                        yy,
                        d,
                        p,
                    ),
            decreases y_end - y,
        {
            let mut x: usize = 0;
            while x < x_end
                invariant
                    self.valid(),
                    y_start <= y < y_end,
                    0 <= x <= x_end,
                    forall|x: int, y: int|
                        line_fits(self.columns as int, self.rows as int, x, y, d) <==> 0 <= x
                            < x_end && y_start <= y < y_end,
                    forall|xx: int|
                        0 <= xx < x ==> !#[trigger] line_owned(self.position(), xx, y as int, d, p),
                decreases x_end - x,
            {
                if self.owns_four(x, y, d, p) {
                    return true;
                }
                x += 1;
            }
            y += 1;
        }
        false
    }

    /// Whether `p` owns four cells in a row: along a row, down a column, or
    /// along either diagonal, looked for in that order.
    fn wins(&self, p: Player) -> (won: bool)
        requires
            self.valid(),
        ensures
            won == has_four(self.position(), p),
    {
        let won = self.scan(Direction::Horizontal, p) || self.scan(Direction::Vertical, p)
            || self.scan(Direction::Falling, p) || self.scan(Direction::Rising, p);
        proof {
            if has_four(self.position(), p) {
                let d = choose|d: Direction| #[trigger] has_line(self.position(), d, p);
                assert(d == Direction::Horizontal || d == Direction::Vertical || d
                    == Direction::Falling || d == Direction::Rising);
            }
        }
        won
    }

    /// Whether no space of the board is empty.
    fn board_full(&self) -> (full: bool)
        ensures
            full == crate::games::is_full(self.position().board),
    {
        let mut i: usize = 0;
        while i < self.current_state.len()
            invariant
                0 <= i <= self.current_state.len(),
                forall|j: int| 0 <= j < i ==> self.current_state@[j] != Player::Empty,
            decreases self.current_state.len() - i,
        {
            if self.current_state[i] == Player::Empty {
                return false;
            }
            i += 1;
        }
        true
    }

    /// Tells how the game stands: the player who owns four cells in a row,
    /// the first player before the second; the empty owner for a tie on a
    /// full board; nothing while the game goes on.
    pub fn check_winner(&self) -> (result: Option<Player>)
        requires
            self.valid(),
        ensures
            result == winner(self.position()),
    {
        if self.wins(Player::One) {
            Some(Player::One)
        } else if self.wins(Player::Two) {
            Some(Player::Two)
        } else if self.board_full() {
            Some(Player::Empty)
        } else {
            None
        }
    }

    /// A game at its start on a board of the given size. There is one for
    /// every size in which a line of four fits both ways and whose number of
    /// cells a `usize` can hold.
    pub fn with_dimensions(columns: usize, rows: usize) -> (game: Option<Game>)
        ensures
            game is Some <==> columns >= 4 && rows >= 4 && columns * rows <= usize::MAX,
            game matches Some(g) ==> g.valid() && !g.is_seeded() && g.position()
                == Position::fresh(columns as nat, rows as nat),
    {
        if columns < 4 || rows < 4 {
            return None;
        }
        match columns.checked_mul(rows) {
            None => None,
            Some(cells) => Some(
                Game {
                    columns,
                    rows,
                    current_state: empty_board(cells),
                    turn: Player::One,
                    spins: SpinSource::Thread,
                },
            ),
        }
    }

    /// A game that stands in a given position: `board` holds the owner of
    /// every space in the order of the linear index, and `turn` moves next.
    /// There is one whenever a line of four fits both ways, the board has
    /// one space for every cell, and `turn` is one of the two players.
    pub fn from_parts(columns: usize, rows: usize, board: Vec<Player>, turn: Player) -> (game:
        Option<Game>)
        ensures
            game is Some <==> columns >= 4 && rows >= 4 && board@.len() == columns * rows
                && turn.is_player(),
            game matches Some(g) ==> g.valid() && !g.is_seeded() && g.position() == (Position {
                columns: columns as nat,
                rows: rows as nat,
                board: board@,
                turn,
            }),
    {
        if columns < 4 || rows < 4 || turn == Player::Empty {
            return None;
        }
        if columns.checked_mul(rows) != Some(board.len()) {
            return None;
        }
        Some(Game { columns, rows, current_state: board, turn, spins: SpinSource::Thread })
    }

    /// From now on the game draws its coin flips from a generator of its own
    /// that starts from `seed`. The position stays as it is.
    pub fn seed(&mut self, seed: u64)
        requires
            old(self).valid(),
        ensures
            final(self).valid(),
            final(self).is_seeded(),
            final(self).position() == old(self).position(),
    {
        self.spins = SpinSource::seeded(seed);
    }

    /// Whether the game draws its coin flips from a generator of its own
    /// that was started from a seed, and not from the generator of the
    /// thread. A game is made without one, and keeps the one that it is
    /// given through every move and reset.
    pub closed spec fn is_seeded(&self) -> bool {
        self.spins is Seeded
    }

    /// The number of spaces of the board.
    pub fn space_count(&self) -> (cells: usize)
        requires
            self.valid(),
        ensures
            cells == self.position().columns * self.position().rows,
            cells == self.position().board.len(),
    {
        self.current_state.len()
    }

    /// Draws the board, row by row, with the numbers of the rows in front
    /// and the letters of the columns below. The board must not have more
    /// columns than there are characters from `a` on.
    pub fn render(&self) -> (drawn: String)
        requires
            self.valid(),
            self.position().columns + 97 <= 0xD800,
        ensures
            drawn@ == picture(self.position()),
    {
        let ghost pos = self.position();
        let mut drawn = String::new();
        let mut y: usize = 0;
        while y < self.rows
            invariant
                self.valid(),
                pos == self.position(),
                y <= self.rows,
                drawn@ == rows_text(pos, y as nat),
            decreases self.rows - y,
        {
            push_decimal(&mut drawn, y + 1);
            let mut x: usize = 0;
            while x < self.columns
                invariant
                    self.valid(),
                    pos == self.position(),
                    y < self.rows,
                    x <= self.columns,
                    drawn@ == rows_text(pos, y as nat) + decimal((y + 1) as nat) + icons(
                        pos,
                        y as int,
                        x as nat,
                    ),
                decreases self.columns - x,
            {
                let sign = match self.cell(x, y) {
                    Player::One => '\u{1F535}',
                    Player::Two => '\u{1F534}',
                    Player::Empty => '\u{1F7E9}',
                };
                push_char(&mut drawn, sign);
                proof {
                    assert(icons(pos, y as int, x as nat).push(sign) == icons(
                        pos,
                        y as int,
                        (x + 1) as nat,
                    ));
                }
                x += 1;
            }
            push_char(&mut drawn, '\n');
            y += 1;
            assert(drawn@ == rows_text(pos, y as nat));
        }
        push_char(&mut drawn, ' ');
        let mut x: usize = 0;
        while x < self.columns
            invariant
                self.valid(),
                pos == self.position(),
                pos.columns + 97 <= 0xD800,
                x <= self.columns,
                drawn@ == rows_text(pos, pos.rows).push(' ') + letters(x as nat),
            decreases self.columns - x,
        {
            push_code(&mut drawn, 97 + x as u32);
            push_char(&mut drawn, ' ');
            proof {
                assert(letters(x as nat).push((97 + x) as char).push(' ') == letters(
                    (x + 1) as nat,
                ));
            }
            x += 1;
        }
        drawn
    }

    /// Turns column `x` over, top to bottom, by swapping its rows in pairs
    /// from the outside in.
    fn spin_column(&mut self, x: usize)
        requires
            old(self).valid(),
            x < old(self).columns,
        ensures
            final(self).valid(),
            final(self).position() == (Position {
                board: spun(
                    old(self).position().board,
                    old(self).columns as int,
                    old(self).rows as int,
                    x as int,
                ),
                ..old(self).position()
            }),
            final(self).spins == old(self).spins,
    {
        let ghost before = self.current_state@;
        let ghost c = self.columns as int;
        let ghost r = self.rows as int;
        let mut top: usize = 0;
        let mut bottom: usize = self.rows - 1;
        proof {
            lemma_half_spun_none(before, c, r, x as int);
        }
        while top < bottom
            invariant
                top <= bottom + 1,
                self.columns == old(self).columns,
                self.rows == old(self).rows,
                self.turn == old(self).turn,
                self.spins == old(self).spins,
                c == self.columns,
                r == self.rows,
                x < self.columns,
                before.len() == c * r,
                top + bottom == r - 1,
                self.current_state@ == half_spun(before, c, r, x as int, top as int),
            decreases bottom + 1 - top,
        {
            proof {
                lemma_half_spun_step(before, c, r, x as int, top as int);
                assert(self.current_state.len() == c * r);
            }
            let a = Move(x, top).to_1d(self.columns);
            let b = Move(x, bottom).to_1d(self.columns);
            let above = self.current_state[a];
            let below = self.current_state[b];
            self.current_state.set(a, below);
            self.current_state.set(b, above);
            top += 1;
            bottom -= 1;
        }
        proof {
            assert(top as int == r / 2);
            lemma_half_spun_whole(before, c, r, x as int);
        }
    }

    /// Tells whether a move can be played, and the linear index of its space
    /// if it can.
    fn accept(&self, pmove: Move) -> (index: Result<usize, MoveError>)
        requires
            self.valid(),
        ensures
            match self.position().refusal(pmove) {
                Some(e) => index == Err::<usize, MoveError>(e),
                None => index matches Ok(i) && i == pmove.linear(self.columns as int),
            },
    {
        if pmove.0 >= self.columns || self.is_move_oob(pmove) {
            return Err(MoveError::OutOfBounds(pmove));
        }
        assert(pmove.linear(self.columns as int) < self.current_state.len());
        let index = pmove.to_1d(self.columns);
        let owner = self.current_state[index];
        if owner != Player::Empty {
            return Err(MoveError::SpaceOccupied(pmove, owner));
        }
        Ok(index)
    }

    /// Gives the empty space at `index` to the mover, passes the turn, turns
    /// the column of that space over if `spin` says so, and only then looks
    /// for a winner.
    fn commit(&mut self, index: usize, spin: bool) -> (result: Option<Player>)
        requires
            old(self).valid(),
            index < old(self).current_state@.len(),
            old(self).current_state@[index as int] == Player::Empty,
        ensures
            final(self).valid(),
            final(self).position() == after_move(old(self).position(), index as int, spin),
            result == winner(final(self).position()),
            final(self).spins == old(self).spins,
    {
        let mover = self.turn;
        self.current_state.set(index, mover);
        self.turn = mover.flip();
        if spin {
            proof {
                lemma_index_cell(self.columns as int, self.rows as int, index as int);
            }
            self.spin_column(index % self.columns);
        }
        self.check_winner()
    }

    /// Plays a move as `play` does, with the coin flip given by the caller:
    /// the column of the move turns over exactly if `spin` is true. A move
    /// whose column or row lies beyond the board's is out of bounds.
    pub fn play_with_spin(&mut self, pmove: Move, spin: bool) -> (result: Result<
        Option<Player>,
        MoveError,
    >)
        requires
            old(self).valid(),
        ensures
            final(self).valid(),
            final(self).is_seeded() == old(self).is_seeded(),
            match old(self).position().refusal(pmove) {
                Some(e) => result == Err::<Option<Player>, MoveError>(e) && *final(self) == *old(
                    self,
                ),
                None => {
                    let index = pmove.linear(old(self).position().columns as int);
                    &&& result == Ok::<Option<Player>, MoveError>(winner(final(self).position()))
                    &&& final(self).position() == moved::<Game>(old(self).position(), index, spin)
                },
            },
    {
        match self.accept(pmove) {
            Err(e) => Err(e),
            Ok(index) => Ok(self.commit(index, spin)),
        }
    }
}

impl BoardGame for Game {
    closed spec fn position(&self) -> Position {
        Position {
            columns: self.columns as nat,
            rows: self.rows as nat,
            board: self.current_state@,
            turn: self.turn,
        }
    }

    closed spec fn valid(&self) -> bool {
        &&& self.position().wf()
        &&& self.columns >= 4
        &&& self.rows >= 4
    }

    /// With the coin on heads the column of the new piece is turned over;
    /// with tails the board stays as the move left it.
    open spec fn settled(
        board: Seq<Player>,
        columns: nat,
        rows: nat,
        index: int,
        chance: bool,
    ) -> Seq<Player> {
        settle(board, columns, rows, index, chance)
    }

    open spec fn outcome(pos: Position) -> Option<Player> {
        winner(pos)
    }

    proof fn lemma_valid(&self) {
    }

    proof fn lemma_settled(board: Seq<Player>, columns: nat, rows: nat, index: int, chance: bool) {
        if chance {
            assert(columns > 0) by (nonlinear_arith)
                requires
                    0 <= index < columns * rows,
            ;
            lemma_index_cell(columns as int, rows as int, index);
            lemma_spin_conserves(board, columns as int, rows as int, index % (columns as int));
        }
    }

    proof fn lemma_full_board_ends(pos: Position) {
    }

    /// A game at its start on the customary board of five columns and
    /// eight rows.
    fn new() -> (game: Self)
        ensures
            game.position().columns == BOARD_COLUMNS,
            game.position().rows == BOARD_ROWS,
            !game.is_seeded(),
    {
        Game {
            columns: BOARD_COLUMNS,
            rows: BOARD_ROWS,
            current_state: empty_board(BOARD_COLUMNS * BOARD_ROWS),
            turn: Player::One,
            spins: SpinSource::Thread,
        }
    }

    /// Empties the board and gives the turn to the first player. The game
    /// keeps its size and the source of its coin flips.
    fn reset(&mut self)
        ensures
            final(self).is_seeded() == old(self).is_seeded(),
    {
        self.current_state = empty_board(self.current_state.len());
        self.turn = Player::One;
    }

    /// Plays a move, and flips the game's coin once the move is accepted:
    /// on heads the column of the move turns over.
    fn play(&mut self, pmove: Move) -> (result: Result<Option<Player>, MoveError>)
        ensures
            final(self).is_seeded() == old(self).is_seeded(),
    {
        match self.accept(pmove) {
            Err(e) => Err(e),
            Ok(index) => {
                let spin = self.spins.flip();
                Ok(self.commit(index, spin))
            },
        }
    }

    fn is_move_oob(&self, pmove: Move) -> (oob: bool) {
        if pmove.1 >= self.rows {
            proof {
                assert(pmove.1 * self.columns >= self.columns * self.rows) by (nonlinear_arith)
                    requires
                        pmove.1 >= self.rows,
                ;
            }
            true
        } else {
            proof {
                lemma_cell_index(0, pmove.1 as int, self.columns as int, self.rows as int);
                assert(self.current_state.len() == self.columns as int * self.rows as int);
            }
            pmove.0 >= self.current_state.len() - pmove.1 * self.columns
        }
    }

    fn get_turn(&self) -> (turn: Player) {
        self.turn
    }

    fn get_board(&self) -> (board: Vec<Player>) {
        let mut board: Vec<Player> = Vec::new();
        let mut i: usize = 0;
        while i < self.current_state.len()
            invariant
                i <= self.current_state.len(),
                board@ == self.current_state@.take(i as int),
            decreases self.current_state.len() - i,
        {
            board.push(self.current_state[i]);
            i += 1;
            assert(board@ == self.current_state@.take(i as int));
        }
        assert(self.current_state@.take(i as int) == self.current_state@);
        board
    }

    fn columns(&self) -> (n: usize) {
        self.columns
    }

    fn rows(&self) -> (n: usize) {
        self.rows
    }

    fn is_space_empty(space: &Player) -> (empty: bool) {
        *space == Player::Empty
    }

    fn create_answer_tensor(&self, pmove: Move, turn_count: usize, scale: u32) -> (target:
        Vec<Reward>) {
        answer_vector(self.current_state.len(), self.columns, pmove, turn_count, scale)
    }
}

} // verus!
