//! The lines of a text.

use crate::text::chars_of;
use vstd::prelude::*;

verus! {

/// The number of characters of `s` that stand before its first line feed; all
/// of them, where it has none.
pub open spec fn line_end(s: Seq<char>) -> int
    decreases s.len(),
{
    if s.len() == 0 || s[0] == '\n' {
        0
    } else {
        1 + line_end(s.subrange(1, s.len() as int))
    }
}

/// `line` without its last character, where that is a carriage return.
pub open spec fn without_cr(line: Seq<char>) -> Seq<char> {
    if line.len() > 0 && line.last() == '\r' {
        line.drop_last()
    } else {
        line
    }
}

/// The lines of a text. A line ends at a line feed or at the end of the text.
/// The line feed is no part of the line, nor is a carriage return directly
/// before it. What follows the last line feed is a line unless it is empty.
pub open spec fn lines_of(s: Seq<char>) -> Seq<Seq<char>>
    decreases s.len(),
{
    let k = line_end(s);
    if s.len() == 0 {
        Seq::empty()
    } else if 0 <= k < s.len() {
        seq![without_cr(s.subrange(0, k))] + lines_of(s.subrange(k + 1, s.len() as int))
    } else {
        seq![s]
    }
}

/// Where no line feed stands before position `m` of `s`, and one stands
/// there or `s` ends there, the first line of `s` ends at `m`.
pub proof fn lemma_line_end(s: Seq<char>, m: int)
    requires
        0 <= m <= s.len(),
        forall|k: int| 0 <= k < m ==> s[k] != '\n',
        m < s.len() ==> s[m] == '\n',
    ensures
        line_end(s) == m,
    decreases m,
{
    if m > 0 {
        let rest = s.subrange(1, s.len() as int);
        assert forall|k: int| 0 <= k < m - 1 implies rest[k] != '\n' by {
            assert(rest[k] == s[k + 1]);
        }
        lemma_line_end(rest, m - 1);
    }
}

/// Finds the line of `s` that begins at `start`. Of the two positions
/// returned, the line stands between `start` and the first, and what is left
/// of the text begins at the second.
pub fn next_line(s: &[char], start: usize) -> (r: (usize, usize))
    requires
        start < s@.len(),
    ensures
        start <= r.0 <= r.1 <= s@.len(),
        start < r.1,
        lines_of(s@.subrange(start as int, s@.len() as int)) == seq![
            s@.subrange(start as int, r.0 as int),
        ] + lines_of(s@.subrange(r.1 as int, s@.len() as int)),
{
    let n = s.len();
    let ghost rest = s@.subrange(start as int, n as int);
    let mut end: usize = start;
    while end < n && s[end] != '\n'
        invariant
            start <= end <= n,
            n == s@.len(),
            forall|k: int| start <= k < end ==> s@[k] != '\n',
        decreases n - end,
    {
        end += 1;
    }
    proof {
        lemma_line_end(rest, end - start);
    }
    if end == n {
        proof {
            assert(s@.subrange(start as int, end as int) =~= rest);
            assert(s@.subrange(n as int, n as int) =~= Seq::<char>::empty());
            assert(lines_of(rest) =~= seq![rest] + lines_of(s@.subrange(n as int, n as int)));
        }
        (n, n)
    } else {
        let stop: usize = if end > start && s[end - 1] == '\r' {
            (end - 1) as usize
        } else {
            end
        };
        proof {
            let whole = rest.subrange(0, end - start);
            assert(whole =~= s@.subrange(start as int, end as int));
            assert(without_cr(whole) =~= s@.subrange(start as int, stop as int));
            assert(rest.subrange(end - start + 1, rest.len() as int) =~= s@.subrange(
                end + 1,
                n as int,
            ));
        }
        (stop, (end + 1) as usize)
    }
}

/// Appends one character to a `String` with `String::push` of the standard
/// library: afterwards the text is what it was, and then `c`.
#[verifier::external_body]
fn push_char(s: &mut String, c: char)
    ensures
        final(s)@ == old(s)@.push(c),
{
    s.push(c)
}

/// The lines of `text` one after the other, with nothing between them: the
/// text without its line ends.
pub fn join_lines(text: &str) -> (joined: String)
    ensures
        joined@ == lines_of(text@).flatten(),
{
    let chars = chars_of(text);
    let s = chars.as_slice();
    let n = s.len();
    let mut joined = String::new();
    let mut start: usize = 0;
    assert(s@.subrange(0, n as int) =~= s@);
    while start < n
        invariant
            start <= n,
            n == s@.len(),
            s@ == text@,
            lines_of(s@).flatten() == joined@ + lines_of(
                s@.subrange(start as int, n as int),
            ).flatten(),
        decreases n - start,
    {
        let (stop, next) = next_line(s, start);
        let ghost before = joined@;
        let ghost line = s@.subrange(start as int, stop as int);
        let ghost later = lines_of(s@.subrange(next as int, n as int));
        let mut k: usize = start;
        while k < stop
            invariant
                start <= k <= stop <= n,
                n == s@.len(),
                joined@ == before + s@.subrange(start as int, k as int),
            decreases stop - k,
        {
            push_char(&mut joined, s[k]);
            assert(joined@ =~= before + s@.subrange(start as int, k + 1));
            k += 1;
        }
        proof {
            assert((seq![line] + later).first() == line);
            assert((seq![line] + later).drop_first() =~= later);
            assert((seq![line] + later).flatten() == line + later.flatten());
            assert(before + (line + later.flatten()) =~= (before + line) + later.flatten());
        }
        start = next;
    }
    assert(joined@ =~= lines_of(s@).flatten());
    joined
}

} // verus!
