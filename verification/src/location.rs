//! Maps a character offset in the source text to a 1-based line and column,
//! for diagnostics.
use vstd::prelude::*;
use crate::chars::collect_chars;

verus! {

/// Number of newline characters among the first `n` characters of `s`.
pub open spec fn newlines_before(s: Seq<char>, n: int) -> int
    decreases n,
{
    if n <= 0 {
        0
    } else {
        newlines_before(s, n - 1) + if s[n - 1] == '\n' {
            1int
        } else {
            0int
        }
    }
}

/// Index of the last newline among the first `n` characters of `s`,
/// or -1 if there is none.
pub open spec fn last_newline_before(s: Seq<char>, n: int) -> int
    decreases n,
{
    if n <= 0 {
        -1
    } else if s[n - 1] == '\n' {
        n - 1
    } else {
        last_newline_before(s, n - 1)
    }
}

/// 1-based line of the character at offset `off`.
pub open spec fn line_of(s: Seq<char>, off: int) -> int {
    1 + newlines_before(s, off)
}

/// 1-based column of the character at offset `off` within its line.
pub open spec fn column_of(s: Seq<char>, off: int) -> int {
    off - last_newline_before(s, off)
}

proof fn lemma_newline_bounds(s: Seq<char>, n: int)
    ensures
        0 <= newlines_before(s, n),
        n > 0 ==> newlines_before(s, n) <= n,
        -1 <= last_newline_before(s, n),
        n > 0 ==> last_newline_before(s, n) <= n - 1,
    decreases n,
{
    if n > 0 {
        lemma_newline_bounds(s, n - 1);
    }
}

/// Maps a character offset in `program` to its 1-based (line, column).
/// Offsets count Unicode scalar values; for ASCII text they coincide with
/// byte offsets.
pub fn find_location(location: usize, program: &str) -> (r: (usize, usize))
    requires
        location < program@.len(),
    ensures
        r.0 == line_of(program@, location as int),
        r.1 == column_of(program@, location as int),
{
    let chars = collect_chars(program);
    let mut count: usize = 0;
    // One past the index of the last newline seen so far; 0 when none.
    let mut nl1: usize = 0;
    let mut i: usize = 0;
    while i < location
        invariant
            i <= location,
            location < chars@.len(),
            chars@ == program@,
            count == newlines_before(program@, i as int),
            count <= i,
            nl1 == last_newline_before(program@, i as int) + 1,
            nl1 <= i,
        decreases location - i,
    {
        if chars[i] == '\n' {
            count += 1;
            nl1 = i + 1;
        }
        i += 1;
    }
    let n_chars = chars.len();
    proof {
        lemma_newline_bounds(program@, location as int);
        assert(location < n_chars);
    }
    (count + 1, location - nl1 + 1)
}

} // verus!
