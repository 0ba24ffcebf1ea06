//! ASCII character classes, and searching a text for a member of one.

use vstd::prelude::*;

verus! {

/// `c` is one of the ten ASCII digits `'0'` to `'9'`.
pub open spec fn is_ascii_digit(c: char) -> bool {
    '0' <= c && c <= '9'
}

/// `c` is ASCII punctuation: a printable ASCII character that is neither a
/// letter, a digit nor the space.
pub open spec fn is_ascii_punctuation(c: char) -> bool {
    ||| ('!' <= c && c <= '/')
    ||| (':' <= c && c <= '@')
    ||| ('[' <= c && c <= '`')
    ||| ('{' <= c && c <= '~')
}

/// Some character of `s` is an ASCII digit.
pub open spec fn has_digit(s: Seq<char>) -> bool {
    exists|i: int| 0 <= i < s.len() && is_ascii_digit(#[trigger] s[i])
}

/// Some character of `s` is ASCII punctuation.
pub open spec fn has_punctuation(s: Seq<char>) -> bool {
    exists|i: int| 0 <= i < s.len() && is_ascii_punctuation(#[trigger] s[i])
}

/// Tells whether `c` is an ASCII digit.
pub fn char_is_digit(c: char) -> (b: bool)
    ensures
        b == is_ascii_digit(c),
{
    '0' <= c && c <= '9'
}

/// Tells whether `c` is ASCII punctuation.
pub fn char_is_punctuation(c: char) -> (b: bool)
    ensures
        b == is_ascii_punctuation(c),
{
    ('!' <= c && c <= '/') || (':' <= c && c <= '@') || ('[' <= c && c <= '`') || ('{' <= c
        && c <= '~')
}

/// Tells whether `s` holds an ASCII digit.
pub fn contains_digit(s: &str) -> (b: bool)
    ensures
        b == has_digit(s@),
{
    let mut found = false;
    for c in it: s.chars()
        invariant
            it.seq() == s@,
            found == (exists|i: int| 0 <= i < it.index() && is_ascii_digit(#[trigger] s@[i])),
    {
        if char_is_digit(c) {
            found = true;
        }
    }
    found
}

/// Tells whether `s` holds ASCII punctuation.
pub fn contains_punctuation(s: &str) -> (b: bool)
    ensures
        b == has_punctuation(s@),
{
    let mut found = false;
    for c in it: s.chars()
        invariant
            it.seq() == s@,
            found == (exists|i: int|
                0 <= i < it.index() && is_ascii_punctuation(#[trigger] s@[i])),
    {
        if char_is_punctuation(c) {
            found = true;
        }
    }
    found
}

} // verus!
