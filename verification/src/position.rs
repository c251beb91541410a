//! Line and column of a character offset, both zero-based.

use vstd::prelude::*;

verus! {

/// The number of line breaks before offset `p`: the zero-based line number.
pub open spec fn line_of(s: Seq<char>, p: int) -> int
    decreases p,
{
    if p <= 0 {
        0
    } else {
        line_of(s, p - 1) + if s[p - 1] == '\n' {
            1int
        } else {
            0int
        }
    }
}

/// The number of characters between the last line break before `p` and `p`
/// itself: the zero-based column number.
pub open spec fn col_of(s: Seq<char>, p: int) -> int
    decreases p,
{
    if p <= 0 {
        0
    } else if s[p - 1] == '\n' {
        0
    } else {
        col_of(s, p - 1) + 1
    }
}

proof fn lemma_position_bounds(s: Seq<char>, p: int)
    requires
        p >= 0,
    ensures
        0 <= line_of(s, p) <= p,
        0 <= col_of(s, p) <= p,
    decreases p,
{
    if p > 0 {
        lemma_position_bounds(s, p - 1);
    }
}

/// The zero-based line and column of offset `p`, counted over the characters
/// before it.
pub fn position_of(s: &str, n: usize, p: usize) -> (lc: (usize, usize))
    requires
        n == s@.len(),
        p <= n,
    ensures
        lc.0 as int == line_of(s@, p as int),
        lc.1 as int == col_of(s@, p as int),
{
    let mut line: usize = 0;
    let mut col: usize = 0;
    let mut i: usize = 0;
    while i < p
        invariant
            i <= p <= n,
            n == s@.len(),
            line as int == line_of(s@, i as int),
            col as int == col_of(s@, i as int),
            line <= i,
            col <= i,
        decreases p - i,
    {
        if s.get_char(i) == '\n' {
            line = line + 1;
            col = 0;
        } else {
            col = col + 1;
        }
        i = i + 1;
    }
    (line, col)
}

} // verus!
