//! The history of fingerprints: a text with one decimal numeral on each line,
//! read into the numbers it records.

use crate::decimal::{parse_numeral_chars, parsed_numeral};
use crate::lines::{lines_of, next_line};
use crate::text::chars_of;
use vstd::prelude::*;
use vstd::slice::slice_subrange;

verus! {

/// Why a history could not be had.
#[derive(Clone, Copy, Debug, PartialEq, Eq, Structural)]
pub enum HistoryCause {
    /// Nothing exists at the place that was named.
    NotFound,
    /// The place exists and may not be read.
    PermissionDenied,
    /// Reading failed in another way.
    IoError,
    /// A line is no numeral, or its number does not fit.
    ParseError,
    /// Reading took too long.
    Timeout,
}

/// Every line is a numeral whose number fits.
pub open spec fn all_numerals(lines: Seq<Seq<char>>) -> bool {
    forall|i: int| 0 <= i < lines.len() ==> (#[trigger] parsed_numeral(lines[i])) is Some
}

/// The numbers that a history text records, line by line, where every line
/// is a numeral whose number fits.
pub open spec fn parsed_history(text: Seq<char>) -> Option<Seq<u128>> {
    let lines = lines_of(text);
    if all_numerals(lines) {
        Some(Seq::new(lines.len(), |i: int| parsed_numeral(lines[i]).unwrap()))
    } else {
        None
    }
}

/// Reads a history text into the numbers it records, in the order of its
/// lines. A single line that is no numeral, or whose number does not fit,
/// fails the whole text.
pub fn parse_history(text: &str) -> (r: Result<Vec<u128>, HistoryCause>)
    ensures
        match parsed_history(text@) {
            Some(numbers) => r is Ok && r.unwrap()@ == numbers,
            None => r == Err::<Vec<u128>, HistoryCause>(HistoryCause::ParseError),
        },
{
    let chars = chars_of(text);
    let s = chars.as_slice();
    let n = s.len();
    let mut numbers: Vec<u128> = Vec::new();
    let mut start: usize = 0;
    let ghost mut done: Seq<Seq<char>> = Seq::empty();
    assert(s@.subrange(0, n as int) =~= s@);
    while start < n
        invariant
            start <= n,
            n == s@.len(),
            s@ == text@,
            lines_of(s@) == done + lines_of(s@.subrange(start as int, n as int)),
            numbers@.len() == done.len(),
            forall|i: int|
                0 <= i < done.len() ==> (#[trigger] parsed_numeral(done[i])) == Some(
                    numbers@[i],
                ),
        decreases n - start,
    {
        let (stop, next) = next_line(s, start);
        let line = slice_subrange(s, start, stop);
        proof {
            assert(lines_of(s@) =~= done.push(line@) + lines_of(
                s@.subrange(next as int, n as int),
            ));
            assert(lines_of(s@)[done.len() as int] == line@);
        }
        match parse_numeral_chars(line) {
            Some(v) => {
                numbers.push(v);
            },
            None => {
                return Err(HistoryCause::ParseError);
            },
        }
        proof {
            done = done.push(line@);
        }
        start = next;
    }
    proof {
        assert(lines_of(s@) =~= done);
        assert(numbers@ =~= parsed_history(text@).unwrap());
    }
    Ok(numbers)
}

} // verus!
