//! Turning a column of the board over, top to bottom.

use vstd::prelude::*;

use crate::games::count_empty;
use crate::games::lemma_cell_index;
use crate::games::lemma_round_trip;
use crate::games::Player;

verus! {

/// The linear index of the cell that lies in the same column as cell `i`
/// and as far from the last row as `i` lies from the first.
pub open spec fn mirror(columns: int, rows: int, i: int) -> int {
    (i % columns) + (rows - 1 - i / columns) * columns
}

/// The board after column `x` was turned over in its rows `0..k` and in its
/// last `k` rows: those cells hold what their mirror cells held.
pub open spec fn half_spun(
    board: Seq<Player>,
    columns: int,
    rows: int,
    x: int,
    k: int,
) -> Seq<Player> {
    Seq::new(
        board.len(),
        |i: int|
            if i % columns == x && (i / columns < k || i / columns >= rows - k) {
                board[mirror(columns, rows, i)]
            } else {
                board[i]
            },
    )
}

/// The board after the whole of column `x` was turned over, top to bottom:
/// every cell of that column holds what its mirror cell held, and the other
/// columns are as they were.
pub open spec fn spun(board: Seq<Player>, columns: int, rows: int, x: int) -> Seq<Player> {
    Seq::new(
        board.len(),
        |i: int|
            if i % columns == x {
                board[mirror(columns, rows, i)]
            } else {
                board[i]
            },
    )
}

/// Column `x` of a board, from the first row to the last.
pub open spec fn column(board: Seq<Player>, columns: int, rows: int, x: int) -> Seq<Player> {
    Seq::new(rows as nat, |y: int| board[x + y * columns])
}

/// Every linear index of a board splits into a column and a row of the
/// board, and its mirror cell lies on the board in the same column.
pub proof fn lemma_index_cell(columns: int, rows: int, i: int)
    requires
        columns > 0,
        0 <= i < columns * rows,
    ensures
        0 <= i % columns < columns,
        0 <= i / columns < rows,
        i == i % columns + (i / columns) * columns,
        0 <= mirror(columns, rows, i) < columns * rows,
        mirror(columns, rows, i) % columns == i % columns,
        mirror(columns, rows, i) / columns == rows - 1 - i / columns,
{
    lemma_round_trip(i, columns);
    let y = i / columns;
    assert(y < rows) by (nonlinear_arith)
        requires
            y * columns <= i,
            i < columns * rows,
            columns > 0,
    ;
    lemma_cell_index(i % columns, rows - 1 - y, columns, rows);
}

/// A column of which no pair of rows was turned over is as it was.
pub(crate) proof fn lemma_half_spun_none(board: Seq<Player>, columns: int, rows: int, x: int)
    requires
        board.len() == columns * rows,
        0 <= x < columns,
    ensures
        half_spun(board, columns, rows, x, 0) == board,
{
    assert forall|i: int| 0 <= i < board.len() implies half_spun(board, columns, rows, x, 0)[i]
        == board[i] by {
        lemma_index_cell(columns, rows, i);
    }
    assert(half_spun(board, columns, rows, x, 0) =~= board);
}

/// Turning over one more pair of rows is a swap of two cells.
pub(crate) proof fn lemma_half_spun_step(
    board: Seq<Player>,
    columns: int,
    rows: int,
    x: int,
    k: int,
)
    requires
        board.len() == columns * rows,
        0 <= x < columns,
        0 <= k,
        2 * k + 1 < rows,
    ensures
        ({
            let cur = half_spun(board, columns, rows, x, k);
            let a = x + k * columns;
            let b = x + (rows - 1 - k) * columns;
            &&& 0 <= a < b < board.len()
            &&& cur[a] == board[a]
            &&& cur[b] == board[b]
            &&& half_spun(board, columns, rows, x, k + 1) == cur.update(a, cur[b]).update(
                b,
                cur[a],
            )
        }),
{
    let cur = half_spun(board, columns, rows, x, k);
    let next = half_spun(board, columns, rows, x, k + 1);
    let a = x + k * columns;
    let b = x + (rows - 1 - k) * columns;
    lemma_cell_index(x, k, columns, rows);
    lemma_cell_index(x, rows - 1 - k, columns, rows);
    assert(a < b) by (nonlinear_arith)
        requires
            a == x + k * columns,
            b == x + (rows - 1 - k) * columns,
            k < rows - 1 - k,
            columns > 0,
    ;
    let swapped = cur.update(a, cur[b]).update(b, cur[a]);
    assert forall|i: int| 0 <= i < board.len() implies next[i] == swapped[i] by {
        lemma_index_cell(columns, rows, i);
        if i == a || i == b {
        } else {
            assert(!(i % columns == x && (i / columns == k || i / columns == rows - 1 - k)));
        }
    }
    assert(next =~= swapped);
}

/// Turning over the outer rows of a column pair by pair moves the owners
/// about and changes none of them.
proof fn lemma_half_spun_multiset(board: Seq<Player>, columns: int, rows: int, x: int, k: int)
    requires
        board.len() == columns * rows,
        0 <= x < columns,
        0 <= k,
        2 * k <= rows,
    ensures
        half_spun(board, columns, rows, x, k).to_multiset() == board.to_multiset(),
    decreases k,
{
    broadcast use vstd::multiset::group_multiset_axioms;
    if k == 0 {
        lemma_half_spun_none(board, columns, rows, x);
    } else {
        let j = k - 1;
        lemma_half_spun_multiset(board, columns, rows, x, j);
        let cur = half_spun(board, columns, rows, x, j);
        let a = x + j * columns;
        let b = x + (rows - 1 - j) * columns;
        lemma_half_spun_step(board, columns, rows, x, j);
        let mid = cur.update(a, cur[b]);
        vstd::seq_lib::to_multiset_update(cur, a, cur[b]);
        vstd::seq_lib::to_multiset_update(mid, b, cur[a]);
        vstd::seq_lib::to_multiset_contains(cur, cur[a]);
        assert(cur.contains(cur[a]));
        assert(mid[b] == cur[b]);
        assert(mid.update(b, cur[a]).to_multiset() =~= cur.to_multiset());
    }
}

/// A column that was turned over in all its pairs of rows is turned over.
pub(crate) proof fn lemma_half_spun_whole(board: Seq<Player>, columns: int, rows: int, x: int)
    requires
        board.len() == columns * rows,
        0 <= x < columns,
        0 <= rows,
    ensures
        half_spun(board, columns, rows, x, rows / 2) == spun(board, columns, rows, x),
{
    let k = rows / 2;
    let half = half_spun(board, columns, rows, x, k);
    let whole = spun(board, columns, rows, x);
    assert forall|i: int| 0 <= i < board.len() implies half[i] == whole[i] by {
        lemma_index_cell(columns, rows, i);
        let y = i / columns;
        if i % columns == x && !(y < k || y >= rows - k) {
            assert(2 * y == rows - 1);
            assert(rows - 1 - y == y);
            assert(mirror(columns, rows, i) == i);
        }
    }
    assert(half =~= whole);
}

/// Turning a column over changes the rows in which its owners stand and
/// nothing else: the column holds the same owners as often as before, in
/// the opposite order; every other column is as it was; and so the board
/// as a whole holds the same owners, and as many empty spaces.
pub proof fn lemma_spin_conserves(board: Seq<Player>, columns: int, rows: int, x: int)
    requires
        board.len() == columns * rows,
        0 <= x < columns,
        0 <= rows,
    ensures
        spun(board, columns, rows, x).len() == board.len(),
        column(spun(board, columns, rows, x), columns, rows, x) == column(
            board,
            columns,
            rows,
            x,
        ).reverse(),
        column(spun(board, columns, rows, x), columns, rows, x).to_multiset() == column(
            board,
            columns,
            rows,
            x,
        ).to_multiset(),
        forall|other: int|
            0 <= other < columns && other != x ==> #[trigger] column(
                spun(board, columns, rows, x),
                columns,
                rows,
                other,
            ) == column(board, columns, rows, other),
        spun(board, columns, rows, x).to_multiset() == board.to_multiset(),
        count_empty(spun(board, columns, rows, x)) == count_empty(
            board,
        ),
{
    let after = spun(board, columns, rows, x);
    let before_column = column(board, columns, rows, x);
    let after_column = column(after, columns, rows, x);
    assert forall|y: int| 0 <= y < rows implies after_column[y] == before_column.reverse()[y] by {
        lemma_cell_index(x, y, columns, rows);
        lemma_cell_index(x, rows - 1 - y, columns, rows);
    }
    assert(after_column =~= before_column.reverse());
    before_column.lemma_reverse_to_multiset();
    assert forall|other: int| 0 <= other < columns && other != x implies #[trigger] column(
        after,
        columns,
        rows,
        other,
    ) == column(board, columns, rows, other) by {
        assert forall|y: int| 0 <= y < rows implies column(after, columns, rows, other)[y]
            == column(board, columns, rows, other)[y] by {
            lemma_cell_index(other, y, columns, rows);
        }
        assert(column(after, columns, rows, other) =~= column(board, columns, rows, other));
    }
    lemma_half_spun_whole(board, columns, rows, x);
    lemma_half_spun_multiset(board, columns, rows, x, rows / 2);
}

} // verus!
