//! Character-level helpers for reading attribute text: whitespace trimming,
//! identifier prefixes and comparisons on ranges of a `&str`.

use vstd::prelude::*;

verus! {

/// Whitespace between tokens.
pub open spec fn is_ws(c: char) -> bool {
    c == ' ' || c == '\t' || c == '\n' || c == '\r'
}

/// A character that may continue an identifier.
pub open spec fn is_ident_char(c: char) -> bool {
    ('a' <= c && c <= 'z') || ('A' <= c && c <= 'Z') || ('0' <= c && c <= '9') || c == '_'
}

/// `s` without its leading whitespace.
pub open spec fn trim_start(s: Seq<char>) -> Seq<char>
    decreases s.len(),
{
    if s.len() > 0 && is_ws(s[0]) {
        trim_start(s.drop_first())
    } else {
        s
    }
}

/// `s` without its trailing whitespace.
pub open spec fn trim_end(s: Seq<char>) -> Seq<char>
    decreases s.len(),
{
    if s.len() > 0 && is_ws(s.last()) {
        trim_end(s.drop_last())
    } else {
        s
    }
}

/// `s` without leading and trailing whitespace.
pub open spec fn trim(s: Seq<char>) -> Seq<char> {
    trim_end(trim_start(s))
}

/// The number of identifier characters that `s` starts with.
pub open spec fn ident_len(s: Seq<char>) -> nat
    decreases s.len(),
{
    if s.len() > 0 && is_ident_char(s[0]) {
        1 + ident_len(s.drop_first())
    } else {
        0
    }
}

/// `s` between its first and its last character.
pub open spec fn inside(s: Seq<char>) -> Seq<char> {
    s.subrange(1, s.len() - 1)
}

/// `s` is a parenthesised group `( .. )`.
pub open spec fn is_parenthesised(s: Seq<char>) -> bool {
    s.len() >= 2 && s[0] == '(' && s.last() == ')'
}

/// The first index in `lo..hi` that is not whitespace, or `hi`.
pub fn skip_ws(s: &str, lo: usize, hi: usize) -> (r: usize)
    requires
        lo <= hi <= s@.len(),
    ensures
        lo <= r <= hi,
        trim_start(s@.subrange(lo as int, hi as int)) == s@.subrange(r as int, hi as int),
{
    let mut i = lo;
    while i < hi
        invariant
            lo <= i <= hi <= s@.len(),
            trim_start(s@.subrange(lo as int, hi as int)) == trim_start(
                s@.subrange(i as int, hi as int),
            ),
        decreases hi - i,
    {
        let c = s.get_char(i);
        if c == ' ' || c == '\t' || c == '\n' || c == '\r' {
            assert(s@.subrange(i as int, hi as int).drop_first() =~= s@.subrange(
                i + 1,
                hi as int,
            ));
            i = i + 1;
        } else {
            return i;
        }
    }
    assert(s@.subrange(i as int, hi as int).len() == 0);
    i
}

/// One past the last index in `lo..hi` that is not whitespace, or `lo`.
pub fn skip_ws_back(s: &str, lo: usize, hi: usize) -> (r: usize)
    requires
        lo <= hi <= s@.len(),
    ensures
        lo <= r <= hi,
        trim_end(s@.subrange(lo as int, hi as int)) == s@.subrange(lo as int, r as int),
{
    let mut j = hi;
    while j > lo
        invariant
            lo <= j <= hi <= s@.len(),
            trim_end(s@.subrange(lo as int, hi as int)) == trim_end(
                s@.subrange(lo as int, j as int),
            ),
        decreases j - lo,
    {
        let c = s.get_char(j - 1);
        if c == ' ' || c == '\t' || c == '\n' || c == '\r' {
            assert(s@.subrange(lo as int, j as int).drop_last() =~= s@.subrange(
                lo as int,
                j - 1,
            ));
            j = j - 1;
        } else {
            return j;
        }
    }
    assert(s@.subrange(lo as int, j as int).len() == 0);
    j
}

/// The range of `lo..hi` without surrounding whitespace.
pub fn trim_range(s: &str, lo: usize, hi: usize) -> (r: (usize, usize))
    requires
        lo <= hi <= s@.len(),
    ensures
        lo <= r.0 <= r.1 <= hi,
        trim(s@.subrange(lo as int, hi as int)) == s@.subrange(r.0 as int, r.1 as int),
{
    let a = skip_ws(s, lo, hi);
    let b = skip_ws_back(s, a, hi);
    (a, b)
}

/// One past the end of the identifier that starts at `lo`.
pub fn ident_end(s: &str, lo: usize, hi: usize) -> (r: usize)
    requires
        lo <= hi <= s@.len(),
    ensures
        lo <= r <= hi,
        r - lo == ident_len(s@.subrange(lo as int, hi as int)),
{
    let mut i = lo;
    while i < hi
        invariant
            lo <= i <= hi <= s@.len(),
            ident_len(s@.subrange(lo as int, hi as int)) == (i - lo) + ident_len(
                s@.subrange(i as int, hi as int),
            ),
        decreases hi - i,
    {
        let c = s.get_char(i);
        if ('a' <= c && c <= 'z') || ('A' <= c && c <= 'Z') || ('0' <= c && c <= '9') || c == '_' {
            assert(s@.subrange(i as int, hi as int).drop_first() =~= s@.subrange(
                i + 1,
                hi as int,
            ));
            i = i + 1;
        } else {
            return i;
        }
    }
    assert(s@.subrange(i as int, hi as int).len() == 0);
    i
}

/// Whether the characters of `s` in `lo..hi` are exactly those of `w`.
pub fn range_is(s: &str, lo: usize, hi: usize, w: &str) -> (r: bool)
    requires
        lo <= hi <= s@.len(),
    ensures
        r == (s@.subrange(lo as int, hi as int) == w@),
{
    let n = w.unicode_len();
    if hi - lo != n {
        return false;
    }
    let mut k: usize = 0;
    while k < n
        invariant
            n == w@.len(),
            hi - lo == n,
            lo <= hi <= s@.len(),
            k <= n,
            forall|m: int| 0 <= m < k ==> s@[lo + m] == w@[m],
        decreases n - k,
    {
        if s.get_char(lo + k) != w.get_char(k) {
            assert(s@.subrange(lo as int, hi as int)[k as int] != w@[k as int]);
            return false;
        }
        k = k + 1;
    }
    assert(s@.subrange(lo as int, hi as int) =~= w@);
    true
}

} // verus!
