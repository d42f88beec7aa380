//! The search engine.
//!
//! A search takes a query and a block of text and returns, in original order
//! and original spelling, every line of the text that contains the query,
//! compared either exactly or under the lowercase mapping.

use vstd::prelude::*;

use crate::config::Config;
use crate::lines::lines_of;
use crate::lines::split_lines;
use crate::text::contains_at;
use crate::text::contains_seq;
use crate::text::fold_case;
use crate::text::line_contains;

verus! {

/// Whether one line of text is a search result for `query` under the given
/// comparison policy.
pub open spec fn line_matches(line: Seq<char>, query: Seq<char>, case_sensitive: bool) -> bool {
    contains_seq(fold_case(line, case_sensitive), fold_case(query, case_sensitive))
}

/// The lines among `lines`, kept in order, that match `query` under the
/// given policy.
pub open spec fn matching_lines(
    lines: Seq<Seq<char>>,
    query: Seq<char>,
    case_sensitive: bool,
) -> Seq<Seq<char>>
    decreases lines.len(),
{
    if lines.len() == 0 {
        Seq::empty()
    } else {
        let rest = matching_lines(lines.drop_last(), query, case_sensitive);
        if line_matches(lines.last(), query, case_sensitive) {
            rest.push(lines.last())
        } else {
            rest
        }
    }
}

/// What a search returns: the lines of `contents` that contain `query` under
/// the given policy, in their original order and original spelling.
pub open spec fn search_results(
    query: Seq<char>,
    contents: Seq<char>,
    case_sensitive: bool,
) -> Seq<Seq<char>> {
    matching_lines(lines_of(contents), query, case_sensitive)
}

/// The search pass shared by both policies.
fn search_with(query: &str, contents: &str, case_sensitive: bool) -> (r: Vec<String>)
    ensures
        r.deep_view() == search_results(query@, contents@, case_sensitive),
{
    let lines = split_lines(contents);
    let mut out: Vec<String> = Vec::new();
    let ghost all = lines.deep_view();
    let mut i: usize = 0;
    proof {
        assert(all.subrange(0, 0) =~= Seq::<Seq<char>>::empty());
        assert(out.deep_view() =~= matching_lines(
            all.subrange(0, 0),
            query@,
            case_sensitive,
        ));
    }
    while i < lines.len()
        invariant
            i <= lines.len(),
            all == lines.deep_view(),
            all == lines_of(contents@),
            all.len() == lines@.len(),
            out.deep_view() == matching_lines(all.subrange(0, i as int), query@, case_sensitive),
        decreases lines.len() - i,
    {
        let line: &String = &lines[i];
        proof {
            assert(line@ == all[i as int]);
        }
        let ghost old_out = out.deep_view();
        if line_contains(line.as_str(), query, case_sensitive) {
            out.push(line.clone());
            proof {
                assert(out.deep_view() =~= old_out.push(line@));
            }
        }
        proof {
            let pre = all.subrange(0, i as int);
            let cur = all.subrange(0, i + 1);
            assert(cur.drop_last() =~= pre);
            assert(cur.last() == all[i as int]);
            assert(out.deep_view() == matching_lines(cur, query@, case_sensitive));
        }
        i += 1;
    }
    proof {
        assert(all.subrange(0, all.len() as int) =~= all);
    }
    out
}

/// Case-sensitive search: every line of `contents` that contains `query`
/// character for character, in original order.
pub fn search(query: &str, contents: &str) -> (r: Vec<String>)
    ensures
        r.deep_view() == search_results(query@, contents@, true),
{
    search_with(query, contents, true)
}

/// Case-insensitive search: every line of `contents` that contains `query`
/// once both are lowered, in original order and original spelling.
pub fn search_case_insenstive(query: &str, contents: &str) -> (r: Vec<String>)
    ensures
        r.deep_view() == search_results(query@, contents@, false),
{
    search_with(query, contents, false)
}

/// The search pass of a run: searches the contents read from the configured
/// file for the configured query, under the configured policy.  The lines
/// returned are the ones the run prints, in order.
pub fn run_on_contents(config: &Config, contents: &str) -> (r: Vec<String>)
    ensures
        r.deep_view() == search_results(config.query@, contents@, config.case_sensitive),
{
    if config.case_sensitive {
        search(config.query.as_str(), contents)
    } else {
        search_case_insenstive(config.query.as_str(), contents)
    }
}

/// `idx` places each element of `a` at a strictly later position of `b` than
/// the one before it.
pub open spec fn subseq_witness<A>(a: Seq<A>, b: Seq<A>, idx: Seq<int>) -> bool {
    &&& idx.len() == a.len()
    &&& forall|k: int| 0 <= k < idx.len() ==> 0 <= #[trigger] idx[k] < b.len()
    &&& forall|k: int| 0 <= k < idx.len() - 1 ==> #[trigger] idx[k] < idx[k + 1]
    &&& forall|k: int| 0 <= k < idx.len() ==> a[k] == b[#[trigger] idx[k]]
}

/// `a` reads off `b` at strictly increasing positions: `a` is a subsequence
/// of `b`.
pub open spec fn is_subseq_of<A>(a: Seq<A>, b: Seq<A>) -> bool {
    exists|idx: Seq<int>| subseq_witness(a, b, idx)
}

proof fn lemma_matching_lines_subseq(lines: Seq<Seq<char>>, query: Seq<char>, case_sensitive: bool)
    ensures
        is_subseq_of(matching_lines(lines, query, case_sensitive), lines),
    decreases lines.len(),
{
    let m = matching_lines(lines, query, case_sensitive);
    if lines.len() == 0 {
        assert(subseq_witness(m, lines, Seq::<int>::empty()));
    } else {
        let d = lines.drop_last();
        lemma_matching_lines_subseq(d, query, case_sensitive);
        let md = matching_lines(d, query, case_sensitive);
        let idx0 = choose|idx: Seq<int>| subseq_witness(md, d, idx);
        if line_matches(lines.last(), query, case_sensitive) {
            let idx = idx0.push(lines.len() - 1);
            assert(subseq_witness(m, lines, idx)) by {
                assert forall|k: int| 0 <= k < idx.len() implies 0 <= #[trigger] idx[k]
                    < lines.len() by {
                    if k < idx0.len() {
                        assert(idx[k] == idx0[k]);
                    }
                }
                assert forall|k: int| 0 <= k < idx.len() - 1 implies #[trigger] idx[k]
                    < idx[k + 1] by {
                    if k < idx0.len() - 1 {
                        assert(idx[k] == idx0[k] && idx[k + 1] == idx0[k + 1]);
                    } else {
                        assert(idx[k] == idx0[k] && idx0[k] < d.len());
                    }
                }
                assert forall|k: int| 0 <= k < idx.len() implies m[k] == lines[#[trigger] idx[
                    k
                ]] by {
                    if k < idx0.len() {
                        assert(m[k] == md[k] && md[k] == d[idx0[k]] && d[idx0[k]] == lines[idx0[
                            k
                        ]]);
                    } else {
                        assert(m[k] == lines.last());
                    }
                }
            }
        } else {
            assert(subseq_witness(m, lines, idx0)) by {
                assert forall|k: int| 0 <= k < idx0.len() implies m[k] == lines[#[trigger] idx0[
                    k
                ]] by {
                    assert(m[k] == md[k] && md[k] == d[idx0[k]] && d[idx0[k]] == lines[idx0[k]]);
                }
            }
        }
    }
}

/// The search is order-preserving: its results are a subsequence of the
/// lines of `contents`, read at strictly increasing positions.
pub proof fn lemma_search_preserves_order(
    query: Seq<char>,
    contents: Seq<char>,
    case_sensitive: bool,
)
    ensures
        is_subseq_of(search_results(query, contents, case_sensitive), lines_of(contents)),
{
    lemma_matching_lines_subseq(lines_of(contents), query, case_sensitive);
}

proof fn lemma_matching_lines_all(lines: Seq<Seq<char>>, query: Seq<char>, case_sensitive: bool)
    requires
        query.len() == 0,
    ensures
        matching_lines(lines, query, case_sensitive) == lines,
    decreases lines.len(),
{
    assert(fold_case(query, case_sensitive).len() == 0);
    if lines.len() > 0 {
        lemma_matching_lines_all(lines.drop_last(), query, case_sensitive);
        let line = lines.last();
        assert(line_matches(line, query, case_sensitive)) by {
            let h = fold_case(line, case_sensitive);
            let q = fold_case(query, case_sensitive);
            assert(h.subrange(0, 0) =~= q);
            assert(contains_at(h, q, 0));
        }
        assert(lines.drop_last().push(lines.last()) =~= lines);
    }
}

/// The empty query matches every line: searching for it returns every line
/// of `contents`, unchanged and in order.
pub proof fn lemma_empty_query_matches_all(
    query: Seq<char>,
    contents: Seq<char>,
    case_sensitive: bool,
)
    requires
        query.len() == 0,
    ensures
        search_results(query, contents, case_sensitive) == lines_of(contents),
{
    lemma_matching_lines_all(lines_of(contents), query, case_sensitive);
}

/// The search has no hidden state: any two runs over the same query, the
/// same contents and the same policy return the same results.
pub proof fn lemma_search_deterministic(
    query: Seq<char>,
    contents: Seq<char>,
    case_sensitive: bool,
    r1: Seq<Seq<char>>,
    r2: Seq<Seq<char>>,
)
    requires
        r1 == search_results(query, contents, case_sensitive),
        r2 == search_results(query, contents, case_sensitive),
    ensures
        r1 == r2,
{
}

} // verus!
