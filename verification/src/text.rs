//! Texts as sequences of characters: taking one apart, comparing two, and
//! putting the first character in upper case.

use vstd::prelude::*;
use vstd::string::*;
use vstd::utf8::{encode_utf8, encode_utf8_decode_utf8};

verus! {

/// The characters of `s`, one by one.
pub fn chars_of(s: &str) -> (v: Vec<char>)
    ensures
        v@ == s@,
{
    let mut v: Vec<char> = Vec::new();
    for c in it: s.chars()
        invariant
            it.seq() == s@,
            v@ == s@.subrange(0, it.index()),
    {
        v.push(c);
        assert(v@ =~= s@.subrange(0, it.index() + 1));
    }
    assert(v@ =~= s@);
    v
}

/// Two texts with the same UTF-8 bytes hold the same characters.
pub proof fn lemma_same_bytes_same_chars(a: Seq<char>, b: Seq<char>)
    requires
        encode_utf8(a) == encode_utf8(b),
    ensures
        a == b,
{
    encode_utf8_decode_utf8(a);
    encode_utf8_decode_utf8(b);
}

/// Tells whether two texts hold the same characters in the same order.
pub fn same_text(a: &str, b: &str) -> (same: bool)
    ensures
        same == (a@ == b@),
{
    let x = a.as_bytes();
    let y = b.as_bytes();
    let n = x.len();
    if n != y.len() {
        return false;
    }
    let mut i: usize = 0;
    while i < n
        invariant
            i <= n,
            n == x@.len(),
            n == y@.len(),
            x@ == encode_utf8(a@),
            y@ == encode_utf8(b@),
            x@.subrange(0, i as int) == y@.subrange(0, i as int),
        decreases n - i,
    {
        if x[i] != y[i] {
            return false;
        }
        assert(x@.subrange(0, i + 1) =~= x@.subrange(0, i as int).push(x@[i as int]));
        assert(y@.subrange(0, i + 1) =~= y@.subrange(0, i as int).push(y@[i as int]));
        i += 1;
    }
    proof {
        assert(x@ =~= x@.subrange(0, n as int));
        assert(y@ =~= y@.subrange(0, n as int));
        lemma_same_bytes_same_chars(a@, b@);
    }
    true
}

/// Why a text could not be capitalized.
#[derive(Clone, Copy, Debug, PartialEq, Eq, Structural)]
pub enum TextError {
    /// The text has no character, so none to put in upper case.
    EmptyInput,
}

/// The upper-case form of a character as Unicode maps it. It may be longer
/// than one character.
pub uninterp spec fn uppercase_of(c: char) -> Seq<char>;

/// `s` with `head` in the place of its first character.
pub open spec fn with_first_replaced(s: Seq<char>, head: Seq<char>) -> Seq<char>
    recommends
        s.len() > 0,
{
    head + s.subrange(1, s.len() as int)
}

/// Calls `char::to_uppercase` of the standard library and gathers what it
/// yields into a `String`. The mapping is Unicode's and is not spelled out
/// here: the contract only gives it its name, `uppercase_of`.
#[verifier::external_body]
fn uppercase(c: char) -> (upper: String)
    ensures
        upper@ == uppercase_of(c),
{
    c.to_uppercase().collect()
}

/// Puts `head` in the place of the first character of `s` and leaves the rest
/// as it is. A text without a first character is turned down.
pub fn replace_first(s: &str, head: &str) -> (r: Result<String, TextError>)
    ensures
        s@.len() == 0 ==> r is Err && r->Err_0 == TextError::EmptyInput,
        s@.len() > 0 ==> r is Ok && r->Ok_0@ == with_first_replaced(s@, head@),
{
    let n = s.unicode_len();
    if n == 0 {
        return Err(TextError::EmptyInput);
    }
    let rest = s.substring_char(1, n);
    Ok(head.to_owned().concat(rest))
}

/// Puts the first character of `s` in upper case, in full even where that
/// takes more than one character, and leaves the rest as it is. A text
/// without a first character is turned down.
pub fn capitalize_firstchar(s: &str) -> (r: Result<String, TextError>)
    ensures
        s@.len() == 0 ==> r is Err && r->Err_0 == TextError::EmptyInput,
        s@.len() > 0 ==> r is Ok && r->Ok_0@ == with_first_replaced(s@, uppercase_of(s@[0])),
{
    if s.is_empty() {
        return Err(TextError::EmptyInput);
    }
    let upper = uppercase(s.get_char(0));
    replace_first(s, upper.as_str())
}

} // verus!
