//! Building text character by character.

use vstd::prelude::*;

verus! {

/// The decimal digit for a number below ten.
pub open spec fn digit(d: nat) -> char {
    (48 + d) as char
}

/// A number written in decimal digits, without leading zeros.
pub open spec fn decimal(n: nat) -> Seq<char>
    decreases n,
{
    if n < 10 {
        seq![digit(n)]
    } else {
        decimal(n / 10).push(digit(n % 10))
    }
}

/// Calls `char::from_u32`, which gives the character with the given code
/// point where there is one, and nothing for a code point that no
/// character has; every code point below `0xD800` has a character.
#[verifier::external_body]
fn from_code(code: u32) -> (c: Option<char>)
    ensures
        c matches Some(ch) ==> ch == code as char,
        code < 0xD800 ==> c is Some,
{
    char::from_u32(code)
}

/// Calls `String::push`, which appends one character to the text.
#[verifier::external_body]
pub(crate) fn push_char(text: &mut String, c: char)
    ensures
        final(text)@ == old(text)@.push(c),
{
    text.push(c)
}

/// Appends the character with the given code point.
pub(crate) fn push_code(text: &mut String, code: u32)
    requires
        code < 0xD800,
    ensures
        final(text)@ == old(text)@.push(code as char),
{
    match from_code(code) {
        Some(c) => push_char(text, c),
        None => unreached(),
    }
}

/// Appends a number in decimal digits.
pub fn push_decimal(text: &mut String, n: usize)
    ensures
        final(text)@ == old(text)@ + decimal(n as nat),
    decreases n,
{
    if n >= 10 {
        push_decimal(text, n / 10);
    }
    let last = (n % 10) as u32;
    push_code(text, 48 + last);
    proof {
        if n < 10 {
            assert(old(text)@.push(digit(n as nat)) == old(text)@ + decimal(n as nat));
        } else {
            assert((old(text)@ + decimal((n / 10) as nat)).push(digit((n % 10) as nat)) == old(
                text,
            )@ + decimal(n as nat));
        }
    }
}

} // verus!
