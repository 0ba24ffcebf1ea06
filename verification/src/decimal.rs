//! Decimal numerals: writing a number in base ten, and reading one back.

use crate::ascii::{char_is_digit, is_ascii_digit};
use crate::text::chars_of;
use vstd::prelude::*;
use vstd::slice::slice_subrange;
use vstd::string::*;

verus! {

/// The digit character that stands for `d`, for `d` below ten.
pub open spec fn digit_char(d: nat) -> char
    recommends
        d < 10,
{
    (d + 48) as char
}

/// The number that the digit character `c` stands for.
pub open spec fn digit_value(c: char) -> nat
    recommends
        is_ascii_digit(c),
{
    (c as nat - 48) as nat
}

/// The decimal numeral of `n`: most significant digit first, no sign, and no
/// leading zero except for zero itself.
pub open spec fn decimal(n: nat) -> Seq<char>
    decreases n,
{
    if n < 10 {
        seq![digit_char(n)]
    } else {
        decimal(n / 10).push(digit_char(n % 10))
    }
}

/// Every character of `s` is an ASCII digit.
pub open spec fn all_digits(s: Seq<char>) -> bool {
    forall|i: int| 0 <= i < s.len() ==> is_ascii_digit(#[trigger] s[i])
}

/// The number that a run of digits denotes in base ten; zero for the empty run.
pub open spec fn digits_value(s: Seq<char>) -> nat
    decreases s.len(),
{
    if s.len() == 0 {
        0
    } else {
        digits_value(s.drop_last()) * 10 + digit_value(s.last())
    }
}

/// `s` without its leading plus sign, if it has one.
pub open spec fn unsigned_part(s: Seq<char>) -> Seq<char> {
    if s.len() > 0 && s[0] == '+' {
        s.subrange(1, s.len() as int)
    } else {
        s
    }
}

/// `s` is a numeral: an optional plus sign, then one or more ASCII digits.
pub open spec fn is_numeral(s: Seq<char>) -> bool {
    unsigned_part(s).len() > 0 && all_digits(unsigned_part(s))
}

/// What reading `s` as a number gives: the value of the numeral, where `s` is
/// one and the value fits in 128 bits.
pub open spec fn parsed_numeral(s: Seq<char>) -> Option<u128> {
    if is_numeral(s) && digits_value(unsigned_part(s)) <= u128::MAX {
        Some(digits_value(unsigned_part(s)) as u128)
    } else {
        None
    }
}

/// The text of one digit.
fn digit_text(d: usize) -> (t: &'static str)
    requires
        d < 10,
    ensures
        t@ == seq![digit_char(d as nat)],
{
    proof {
        reveal_strlit("0");
        reveal_strlit("1");
        reveal_strlit("2");
        reveal_strlit("3");
        reveal_strlit("4");
        reveal_strlit("5");
        reveal_strlit("6");
        reveal_strlit("7");
        reveal_strlit("8");
        reveal_strlit("9");
    }
    let t = if d == 0 {
        "0"
    } else if d == 1 {
        "1"
    } else if d == 2 {
        "2"
    } else if d == 3 {
        "3"
    } else if d == 4 {
        "4"
    } else if d == 5 {
        "5"
    } else if d == 6 {
        "6"
    } else if d == 7 {
        "7"
    } else if d == 8 {
        "8"
    } else {
        "9"
    };
    assert(t@ =~= seq![digit_char(d as nat)]);
    t
}

/// Writes `n` in base ten.
pub fn render_decimal(n: usize) -> (s: String)
    ensures
        s@ == decimal(n as nat),
    decreases n,
{
    if n < 10 {
        digit_text(n).to_owned()
    } else {
        let s = render_decimal(n / 10).concat(digit_text(n % 10));
        assert(s@ =~= decimal(n as nat));
        s
    }
}

/// The value of the digit `c`.
fn value_of_digit(c: char) -> (d: u128)
    requires
        is_ascii_digit(c),
    ensures
        d == digit_value(c),
        d < 10,
{
    (c as u32 - 48) as u128
}

/// The value of a run of digits is at least that of each run it begins with.
pub proof fn lemma_prefix_value(s: Seq<char>, k: int)
    requires
        0 <= k <= s.len(),
    ensures
        digits_value(s.subrange(0, k)) <= digits_value(s),
    decreases s.len(),
{
    if k == s.len() {
        assert(s.subrange(0, k) =~= s);
    } else {
        assert(s.drop_last().subrange(0, k) =~= s.subrange(0, k));
        lemma_prefix_value(s.drop_last(), k);
    }
}

/// Reads a run of digits: the number it denotes, where it is not empty, holds
/// digits only and denotes a number that fits.
fn parse_digits(s: &[char]) -> (r: Option<u128>)
    ensures
        r == if s@.len() > 0 && all_digits(s@) && digits_value(s@) <= u128::MAX {
            Some(digits_value(s@) as u128)
        } else {
            None
        },
{
    let n = s.len();
    if n == 0 {
        return None;
    }
    let mut acc: u128 = 0;
    let mut i: usize = 0;
    while i < n
        invariant
            i <= n,
            n == s@.len(),
            all_digits(s@.subrange(0, i as int)),
            acc == digits_value(s@.subrange(0, i as int)),
        decreases n - i,
    {
        let c = s[i];
        if !char_is_digit(c) {
            return None;
        }
        let d = value_of_digit(c);
        proof {
            assert(s@.subrange(0, i + 1).drop_last() =~= s@.subrange(0, i as int));
            assert(s@.subrange(0, i + 1).last() == c);
            lemma_prefix_value(s@, i + 1);
        }
        let grown = match acc.checked_mul(10) {
            Some(m) => m.checked_add(d),
            None => None,
        };
        match grown {
            Some(v) => {
                acc = v;
            },
            None => {
                return None;
            },
        }
        i += 1;
    }
    assert(s@.subrange(0, n as int) =~= s@);
    Some(acc)
}

/// Reads the characters `s` as a number.
pub fn parse_numeral_chars(s: &[char]) -> (r: Option<u128>)
    ensures
        r == parsed_numeral(s@),
{
    if s.len() > 0 && s[0] == '+' {
        parse_digits(slice_subrange(s, 1, s.len()))
    } else {
        parse_digits(s)
    }
}

/// Reads the text `s` as a number.
pub fn parse_numeral(s: &str) -> (r: Option<u128>)
    ensures
        r == parsed_numeral(s@),
{
    let chars = chars_of(s);
    parse_numeral_chars(chars.as_slice())
}

/// The numeral of a number holds digits only, is not empty, and denotes that
/// number.
pub proof fn lemma_decimal_digits(n: nat)
    ensures
        decimal(n).len() > 0,
        all_digits(decimal(n)),
        digits_value(decimal(n)) == n,
    decreases n,
{
    if n < 10 {
        assert(decimal(n).drop_last() =~= Seq::<char>::empty());
        assert(digits_value(decimal(n).drop_last()) == 0);
    } else {
        lemma_decimal_digits(n / 10);
        assert(decimal(n).drop_last() =~= decimal(n / 10));
    }
}

/// Reading the numeral of a number gives the number back.
pub proof fn lemma_parse_of_decimal(n: nat)
    requires
        n <= u128::MAX,
    ensures
        parsed_numeral(decimal(n)) == Some(n as u128),
{
    lemma_decimal_digits(n);
    assert(is_ascii_digit(decimal(n)[0]));
}

} // verus!
