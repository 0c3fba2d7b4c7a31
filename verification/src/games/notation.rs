//! Moves as a player writes them: a column letter and a row number, as in `d3`.

use vstd::prelude::*;
use vstd::string::StrSliceExecFns;

use crate::games::Move;

verus! {

/// Why a written move was not understood.
#[derive(Copy, Clone, Debug, PartialEq, Eq, Structural)]
pub enum NotationError {
    /// The text holds fewer than two characters between its white space.
    NotFormatted,
    /// The first two characters name no column and row of the board.
    OffBoard(char, char),
}

/// Whether a character is white space, as Unicode defines it.
pub open spec fn is_space(c: char) -> bool {
    let code = c as u32;
    ||| 0x09 <= code <= 0x0D
    ||| code == 0x20
    ||| code == 0x85
    ||| code == 0xA0
    ||| code == 0x1680
    ||| 0x2000 <= code <= 0x200A
    ||| code == 0x2028
    ||| code == 0x2029
    ||| code == 0x202F
    ||| code == 0x205F
    ||| code == 0x3000
}

/// A text without the white space at its start.
pub open spec fn trim_start(text: Seq<char>) -> Seq<char>
    decreases text.len(),
{
    if text.len() > 0 && is_space(text[0]) {
        trim_start(text.drop_first())
    } else {
        text
    }
}

/// A text without the white space at its end.
pub open spec fn trim_end(text: Seq<char>) -> Seq<char>
    decreases text.len(),
{
    if text.len() > 0 && is_space(text.last()) {
        trim_end(text.drop_last())
    } else {
        text
    }
}

/// What a written move means on a board of the given size. Of the text
/// between the white space the first character is the column, counted from
/// `a`, and the second is the row, counted from `1`; what follows them is
/// not read. The move must lie on the board.
pub open spec fn reading(text: Seq<char>, columns: nat, rows: nat) -> Result<Move, NotationError> {
    let word = trim_end(trim_start(text));
    if word.len() < 2 {
        Err(NotationError::NotFormatted)
    } else {
        let x = word[0] as int - 'a' as int;
        let y = word[1] as int - '1' as int;
        if 0 <= x < columns && 0 <= y < rows {
            Ok(Move(x as usize, y as usize))
        } else {
            Err(NotationError::OffBoard(word[0], word[1]))
        }
    }
}

/// Tells whether a character is white space.
pub fn is_whitespace(c: char) -> (space: bool)
    ensures
        space == is_space(c),
{
    let code = c as u32;
    (0x09 <= code && code <= 0x0D) || code == 0x20 || code == 0x85 || code == 0xA0 || code
        == 0x1680 || (0x2000 <= code && code <= 0x200A) || code == 0x2028 || code == 0x2029
        || code == 0x202F || code == 0x205F || code == 0x3000
}

/// Dropping white space from the start of a text leaves the text from its
/// first character that is none.
proof fn lemma_trim_start(text: Seq<char>, start: int)
    requires
        0 <= start <= text.len(),
        forall|i: int| 0 <= i < start ==> is_space(text[i]),
        start < text.len() ==> !is_space(text[start]),
    ensures
        trim_start(text) == text.subrange(start, text.len() as int),
    decreases start,
{
    if start == 0 {
        assert(text.subrange(0, text.len() as int) == text);
    } else {
        let rest = text.drop_first();
        assert forall|i: int| 0 <= i < start - 1 implies is_space(rest[i]) by {
            assert(rest[i] == text[i + 1]);
        }
        lemma_trim_start(rest, start - 1);
        assert(rest.subrange(start - 1, rest.len() as int) == text.subrange(
            start,
            text.len() as int,
        ));
    }
}

/// Dropping white space from the end of a text leaves the text up to its
/// last character that is none.
proof fn lemma_trim_end(text: Seq<char>, end: int)
    requires
        0 <= end <= text.len(),
        forall|i: int| end <= i < text.len() ==> is_space(text[i]),
        end > 0 ==> !is_space(text[end - 1]),
    ensures
        trim_end(text) == text.subrange(0, end),
    decreases text.len() - end,
{
    if end == text.len() {
        assert(text.subrange(0, end) == text);
    } else {
        let rest = text.drop_last();
        lemma_trim_end(rest, end);
        assert(rest.subrange(0, end) == text.subrange(0, end));
    }
}

/// Reads a move as a player writes it, for a board of the given size.
pub fn parse_move(text: &str, columns: usize, rows: usize) -> (pmove: Result<Move, NotationError>)
    ensures
        pmove == reading(text@, columns as nat, rows as nat),
        pmove matches Ok(m) ==> m.0 < columns && m.1 < rows,
{
    let n = text.unicode_len();
    let mut start: usize = 0;
    while start < n && is_whitespace(text.get_char(start))
        invariant
            n == text@.len(),
            start <= n,
            forall|i: int| 0 <= i < start ==> is_space(text@[i]),
        decreases n - start,
    {
        start += 1;
    }
    let mut end: usize = n;
    while end > start && is_whitespace(text.get_char(end - 1))
        invariant
            n == text@.len(),
            start <= end <= n,
            forall|i: int| end <= i < n ==> is_space(text@[i]),
        decreases end,
    {
        end -= 1;
    }
    proof {
        let tail = text@.subrange(start as int, n as int);
        lemma_trim_start(text@, start as int);
        assert forall|i: int| end - start <= i < tail.len() implies is_space(tail[i]) by {
            assert(tail[i] == text@[i + start]);
        }
        lemma_trim_end(tail, end - start);
        assert(tail.subrange(0, end - start) == text@.subrange(start as int, end as int));
    }
    if end - start < 2 {
        return Err(NotationError::NotFormatted);
    }
    let letter = text.get_char(start);
    let digit = text.get_char(start + 1);
    let first_letter = 'a' as u32;
    let first_digit = '1' as u32;
    if (letter as u32) < first_letter || (digit as u32) < first_digit {
        return Err(NotationError::OffBoard(letter, digit));
    }
    let x = letter as u32 - first_letter;
    let y = digit as u32 - first_digit;
    if x as u64 >= columns as u64 || y as u64 >= rows as u64 {
        return Err(NotationError::OffBoard(letter, digit));
    }
    Ok(Move(x as usize, y as usize))
}

} // verus!
