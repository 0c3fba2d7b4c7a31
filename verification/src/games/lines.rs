//! Lines of four, and what they make of a position.

use vstd::prelude::*;

use crate::games::is_full;
use crate::games::Player;
use crate::games::Position;

verus! {

/// The four ways in which a line of four can run from its first cell.
#[derive(Copy, Clone, Debug, PartialEq, Eq, Structural)]
pub enum Direction {
    /// To the right along a row.
    Horizontal,
    /// Down along a column.
    Vertical,
    /// To the right and down.
    Falling,
    /// To the right and up.
    Rising,
}

impl Direction {
    /// The step in `x` from one cell of a line to the next.
    pub open spec fn dx(self) -> int {
        match self {
            Direction::Vertical => 0,
            _ => 1,
        }
    }

    /// The step in `y` from one cell of a line to the next.
    pub open spec fn dy(self) -> int {
        match self {
            Direction::Horizontal => 0,
            Direction::Vertical => 1,
            Direction::Falling => 1,
            Direction::Rising => -1,
        }
    }
}

/// The linear index of cell `k` of the line that starts at `(x, y)` and runs
/// in direction `d`.
pub open spec fn line_cell(columns: int, x: int, y: int, d: Direction, k: int) -> int {
    (x + k * d.dx()) + (y + k * d.dy()) * columns
}

/// Whether all four cells of the line from `(x, y)` in direction `d` lie on
/// the board.
pub open spec fn line_fits(columns: int, rows: int, x: int, y: int, d: Direction) -> bool {
    &&& 0 <= x
    &&& x + 3 * d.dx() < columns
    &&& 0 <= y < rows
    &&& 0 <= y + 3 * d.dy() < rows
}

/// Whether the line from `(x, y)` in direction `d` lies on the board and all
/// four of its cells belong to `p`.
pub open spec fn line_owned(pos: Position, x: int, y: int, d: Direction, p: Player) -> bool {
    let c = pos.columns as int;
    &&& line_fits(c, pos.rows as int, x, y, d)
    &&& pos.board[line_cell(c, x, y, d, 0)] == p
    &&& pos.board[line_cell(c, x, y, d, 1)] == p
    &&& pos.board[line_cell(c, x, y, d, 2)] == p
    &&& pos.board[line_cell(c, x, y, d, 3)] == p
}

/// Whether `p` owns four cells in a row in direction `d` somewhere on the board.
pub open spec fn has_line(pos: Position, d: Direction, p: Player) -> bool {
    exists|x: int, y: int| #[trigger] line_owned(pos, x, y, d, p)
}

/// Whether `p` owns four cells in a row in any direction.
pub open spec fn has_four(pos: Position, p: Player) -> bool {
    exists|d: Direction| #[trigger] has_line(pos, d, p)
}

/// How a position stands: the first player wins with four in a row, else the
/// second does; else a full board is a tie, told by the empty owner; else the
/// game goes on and there is no result.
pub open spec fn winner(pos: Position) -> Option<Player> {
    if has_four(pos, Player::One) {
        Some(Player::One)
    } else if has_four(pos, Player::Two) {
        Some(Player::Two)
    } else if is_full(pos.board) {
        Some(Player::Empty)
    } else {
        None
    }
}

/// Four cells of one player in a straight line decide the game for that
/// player, wherever else pieces lie. The first player is looked for first:
/// a line of the second player decides only where the first has none.
pub proof fn lemma_line_wins(pos: Position, x: int, y: int, d: Direction, p: Player)
    requires
        p.is_player(),
        line_owned(pos, x, y, d, p),
        p == Player::Two ==> !has_four(pos, Player::One),
    ensures
        winner(pos) == Some(p),
{
    assert(has_line(pos, d, p));
    assert(has_four(pos, p));
}

/// A board on which every space is owned and neither player has four in a
/// row is a tie, which the empty owner tells; while a space is empty and
/// neither player has four in a row, the game goes on.
pub proof fn lemma_no_line(pos: Position)
    requires
        !has_four(pos, Player::One),
        !has_four(pos, Player::Two),
    ensures
        is_full(pos.board) ==> winner(pos) == Some(Player::Empty),
        !is_full(pos.board) ==> winner(pos) is None,
{
}

} // verus!
