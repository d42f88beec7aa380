//! Splitting text into lines.
//!
//! A line is a maximal run of characters between line breaks.  A break is a
//! line feed, optionally preceded by a carriage return, and it belongs to no
//! line.  A final break ends the last line; it does not open an empty line
//! after it.

use vstd::prelude::*;

verus! {

/// Position of the first line feed in `s`, or `s.len()` when there is none.
pub open spec fn first_newline(s: Seq<char>) -> int
    decreases s.len(),
{
    if s.len() == 0 {
        0
    } else if s[0] == '\n' {
        0
    } else {
        1 + first_newline(s.drop_first())
    }
}

/// A piece of text with a trailing carriage return removed: the carriage
/// return of a `\r\n` break belongs to the break, not to the line it ends.
pub open spec fn strip_cr(s: Seq<char>) -> Seq<char> {
    if s.len() > 0 && s.last() == '\r' {
        s.drop_last()
    } else {
        s
    }
}

/// The lines of `s`, in order.
pub open spec fn lines_of(s: Seq<char>) -> Seq<Seq<char>>
    decreases s.len(),
    via lines_of_decreases
{
    if s.len() == 0 {
        Seq::empty()
    } else {
        let i = first_newline(s);
        if i == s.len() {
            seq![s]
        } else {
            seq![strip_cr(s.subrange(0, i))] + lines_of(s.subrange(i + 1, s.len() as int))
        }
    }
}

#[via_fn]
proof fn lines_of_decreases(s: Seq<char>) {
    lemma_first_newline(s);
}

/// Where the first line feed stands: before it there is none, and at it,
/// when it lies inside `s`, there is one.
pub proof fn lemma_first_newline(s: Seq<char>)
    ensures
        0 <= first_newline(s) <= s.len(),
        forall|j: int| 0 <= j < first_newline(s) ==> s[j] != '\n',
        first_newline(s) < s.len() ==> s[first_newline(s)] == '\n',
    decreases s.len(),
{
    if s.len() != 0 && s[0] != '\n' {
        lemma_first_newline(s.drop_first());
        assert forall|j: int| 0 <= j < first_newline(s) implies s[j] != '\n' by {
            if j > 0 {
                assert(s.drop_first()[j - 1] == s[j]);
                assert(s.drop_first()[j - 1] != '\n');
            }
        }
        if first_newline(s) < s.len() {
            assert(s.drop_first()[first_newline(s.drop_first())] == s[first_newline(s)]);
        }
    }
}

/// The first line feed is pinned down by its characterisation: no line feed
/// before position `i`, and `i` is either a line feed or the end of `s`.
pub proof fn lemma_first_newline_at(s: Seq<char>, i: int)
    requires
        0 <= i <= s.len(),
        forall|j: int| 0 <= j < i ==> s[j] != '\n',
        i < s.len() ==> s[i] == '\n',
    ensures
        first_newline(s) == i,
{
    lemma_first_newline(s);
    let f = first_newline(s);
    if f < i {
        assert(s[f] == '\n');
        assert(s[f] != '\n');
    } else if f > i {
        assert(s[i] != '\n');
    }
}

/// Splits `contents` into its lines, each an owned copy.
pub fn split_lines(contents: &str) -> (r: Vec<String>)
    ensures
        r.deep_view() == lines_of(contents@),
{
    let ghost s = contents@;
    let n = contents.unicode_len();
    let mut out: Vec<String> = Vec::new();
    let mut start: usize = 0;
    let mut i: usize = 0;
    proof {
        assert(s.subrange(0, n as int) =~= s);
        assert(out.deep_view() + lines_of(s.subrange(0, n as int)) =~= lines_of(s));
    }
    while i < n
        invariant
            start <= i <= n,
            n == s.len(),
            s == contents@,
            out.deep_view() + lines_of(s.subrange(start as int, n as int)) == lines_of(s),
            forall|j: int| start <= j < i ==> s[j] != '\n',
        decreases n - i,
    {
        if contents.get_char(i) == '\n' {
            let end = if i > start && contents.get_char(i - 1) == '\r' {
                i - 1
            } else {
                i
            };
            let piece = contents.substring_char(start, end);
            proof {
                lemma_split_step(s, start as int, i as int);
                assert(piece@ =~= strip_cr(s.subrange(start as int, i as int)));
            }
            let ghost old_out = out.deep_view();
            out.push(piece.to_owned());
            proof {
                assert(out.deep_view() =~= old_out.push(piece@));
                assert(out.deep_view() + lines_of(s.subrange(i + 1, n as int))
                    =~= old_out + lines_of(s.subrange(start as int, n as int)));
            }
            start = i + 1;
        }
        i += 1;
    }
    if start < n {
        let piece = contents.substring_char(start, n);
        proof {
            let rest = s.subrange(start as int, n as int);
            lemma_first_newline_at(rest, rest.len() as int);
            assert(lines_of(rest) == seq![rest]);
        }
        let ghost old_out = out.deep_view();
        out.push(piece.to_owned());
        proof {
            assert(out.deep_view() =~= old_out.push(piece@));
            assert(out.deep_view() =~= old_out + lines_of(s.subrange(start as int, n as int)));
        }
    } else {
        proof {
            assert(s.subrange(start as int, n as int).len() == 0);
            assert(out.deep_view() + lines_of(s.subrange(start as int, n as int))
                =~= out.deep_view());
        }
    }
    out
}

/// One step of the split: with no line feed strictly between `start` and
/// `i`, and a line feed at `i`, the lines of the tail from `start` open with
/// the piece up to `i` (its carriage return stripped), followed by the lines
/// of the tail from past the break.
proof fn lemma_split_step(s: Seq<char>, start: int, i: int)
    requires
        0 <= start <= i < s.len(),
        forall|j: int| start <= j < i ==> s[j] != '\n',
        s[i] == '\n',
    ensures
        lines_of(s.subrange(start, s.len() as int)) == seq![
            strip_cr(s.subrange(start, i)),
        ] + lines_of(s.subrange(i + 1, s.len() as int)),
{
    let rest = s.subrange(start, s.len() as int);
    assert(forall|j: int| 0 <= j < i - start ==> rest[j] != '\n');
    lemma_first_newline_at(rest, i - start);
    assert(rest.subrange(0, i - start) =~= s.subrange(start, i));
    assert(rest.subrange(i - start + 1, rest.len() as int)
        =~= s.subrange(i + 1, s.len() as int));
}

} // verus!
