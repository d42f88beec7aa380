//! Characters and substring containment.
//!
//! The comparison policy of the search is stated here: a per-character
//! lowercase mapping over ASCII letters, and plain substring containment over
//! character sequences.

use vstd::prelude::*;

verus! {

/// Simple per-character lowercase mapping: an ASCII uppercase letter maps to
/// its lowercase counterpart, every other character is unchanged.
pub open spec fn lower_char(c: char) -> char {
    if 'A' <= c && c <= 'Z' {
        ((c as u32) + 32) as char
    } else {
        c
    }
}

/// A sequence lowered character by character.
pub open spec fn lower_seq(s: Seq<char>) -> Seq<char> {
    s.map_values(|c: char| lower_char(c))
}

/// How a sequence takes part in a comparison under the given policy:
/// unchanged when case-sensitive, lowered when not.
pub open spec fn fold_case(s: Seq<char>, case_sensitive: bool) -> Seq<char> {
    if case_sensitive {
        s
    } else {
        lower_seq(s)
    }
}

/// `needle` occurs in `hay` starting at position `i`.
pub open spec fn contains_at(hay: Seq<char>, needle: Seq<char>, i: int) -> bool {
    &&& 0 <= i
    &&& i + needle.len() <= hay.len()
    &&& hay.subrange(i, i + needle.len()) == needle
}

/// `needle` occurs somewhere in `hay`.  The empty needle occurs in every
/// `hay`, the empty one included.
pub open spec fn contains_seq(hay: Seq<char>, needle: Seq<char>) -> bool {
    exists|i: int| contains_at(hay, needle, i)
}

/// The lowercase mapping, executed.
fn to_lower(c: char) -> (r: char)
    ensures
        r == lower_char(c),
{
    if 'A' <= c && c <= 'Z' {
        (((c as u8) + 32) as char)
    } else {
        c
    }
}

/// The character of `s` at position `i`, as the comparison sees it under the
/// given policy.
fn key_char(s: &str, i: usize, case_sensitive: bool) -> (r: char)
    requires
        i < s@.len(),
    ensures
        r == fold_case(s@, case_sensitive)[i as int],
{
    let c = s.get_char(i);
    if case_sensitive {
        c
    } else {
        assert(lower_seq(s@)[i as int] == lower_char(s@[i as int]));
        to_lower(c)
    }
}

/// Whether `needle` occurs in `hay` at position `i`, under the given policy.
fn match_at(hay: &str, needle: &str, i: usize, case_sensitive: bool) -> (r: bool)
    requires
        i + needle@.len() <= hay@.len(),
        hay@.len() <= usize::MAX,
    ensures
        r == contains_at(
            fold_case(hay@, case_sensitive),
            fold_case(needle@, case_sensitive),
            i as int,
        ),
{
    let ghost h = fold_case(hay@, case_sensitive);
    let ghost q = fold_case(needle@, case_sensitive);
    let m = needle.unicode_len();
    let mut j: usize = 0;
    while j < m
        invariant
            j <= m,
            m == needle@.len(),
            i + m <= hay@.len(),
            hay@.len() <= usize::MAX,
            h == fold_case(hay@, case_sensitive),
            q == fold_case(needle@, case_sensitive),
            h.len() == hay@.len(),
            q.len() == needle@.len(),
            forall|k: int| 0 <= k < j ==> h[i + k] == q[k],
        decreases m - j,
    {
        let hc = key_char(hay, i + j, case_sensitive);
        let nc = key_char(needle, j, case_sensitive);
        if hc != nc {
            assert(!contains_at(h, q, i as int)) by {
                if h.subrange(i as int, i + q.len()) == q {
                    assert(h.subrange(i as int, i + q.len())[j as int] == q[j as int]);
                }
            }
            return false;
        }
        j += 1;
    }
    assert(h.subrange(i as int, i + q.len()) =~= q);
    true
}

/// Whether `query` occurs somewhere in `line`, each taken under the given
/// comparison policy.  This is the test one line of text must pass to be a
/// search result.
pub fn line_contains(line: &str, query: &str, case_sensitive: bool) -> (r: bool)
    ensures
        r == contains_seq(
            fold_case(line@, case_sensitive),
            fold_case(query@, case_sensitive),
        ),
{
    let ghost h = fold_case(line@, case_sensitive);
    let ghost q = fold_case(query@, case_sensitive);
    let n = line.unicode_len();
    let m = query.unicode_len();
    proof {
        assert(h.len() == line@.len());
        assert(q.len() == query@.len());
    }
    if m == 0 {
        assert(contains_at(h, q, 0)) by {
            assert(h.subrange(0, 0) =~= q);
        }
        return true;
    }
    if m > n {
        assert(!contains_seq(h, q)) by {
            assert(forall|i: int| !contains_at(h, q, i));
        }
        return false;
    }
    let mut i: usize = 0;
    while i <= n - m
        invariant
            1 <= m <= n,
            n == line@.len(),
            m == query@.len(),
            h == fold_case(line@, case_sensitive),
            q == fold_case(query@, case_sensitive),
            h.len() == n,
            q.len() == m,
            i <= n - m + 1,
            forall|p: int| 0 <= p < i ==> !contains_at(h, q, p),
        decreases n - i,
    {
        if match_at(line, query, i, case_sensitive) {
            return true;
        }
        i += 1;
    }
    assert(!contains_seq(h, q)) by {
        assert(forall|p: int| p >= i ==> !contains_at(h, q, p));
    }
    false
}

/// Whether `s`, lowered character by character, reads exactly as `t`.
pub(crate) fn lowered_eq(s: &str, t: &str) -> (r: bool)
    ensures
        r == (lower_seq(s@) == t@),
{
    let n = s.unicode_len();
    if n != t.unicode_len() {
        return false;
    }
    let mut i: usize = 0;
    while i < n
        invariant
            i <= n,
            n == s@.len(),
            n == t@.len(),
            forall|k: int| 0 <= k < i ==> lower_seq(s@)[k] == t@[k],
        decreases n - i,
    {
        assert(lower_seq(s@)[i as int] == lower_char(s@[i as int]));
        if to_lower(s.get_char(i)) != t.get_char(i) {
            assert(lower_seq(s@) != t@) by {
                if lower_seq(s@) == t@ {
                    assert(lower_seq(s@)[i as int] == t@[i as int]);
                }
            }
            return false;
        }
        i += 1;
    }
    assert(lower_seq(s@) =~= t@);
    true
}

} // verus!
