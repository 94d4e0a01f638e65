//! Fuzzy matching of names against a search pattern.
use vstd::prelude::*;

use fuzzy_matcher::FuzzyMatcher;

verus! {

/// The score that the skim matcher (default settings) gives `choice` for
/// `pattern`; `None` where the pattern does not match.
pub uninterp spec fn skim_score(choice: Seq<char>, pattern: Seq<char>) -> Option<i64>;

/// Calls `SkimMatcherV2::default().fuzzy_match(choice, pattern)`. Its score is
/// named, not stated; its source returns `Some(0)` for an empty pattern.
#[verifier::external_body]
pub fn fuzzy_match(choice: &str, pattern: &str) -> (r: Option<i64>)
    ensures
        r == skim_score(choice@, pattern@),
        pattern@.len() == 0 ==> r == Some(0i64),
{
    fuzzy_matcher::skim::SkimMatcherV2::default().fuzzy_match(choice, pattern)
}

/// The score by which search results are ranked: no match counts as zero.
pub open spec fn search_score(choice: Seq<char>, pattern: Seq<char>) -> i64 {
    match skim_score(choice, pattern) {
        Some(s) => s,
        None => 0,
    }
}

/// Whether the element at `a` comes before the element at `b` when ranked by
/// descending score, ties keeping their order.
pub open spec fn ranks_before(scores: Seq<i64>, a: int, b: int) -> bool {
    scores[a] > scores[b] || (scores[a] == scores[b] && a < b)
}

/// Whether `order` lists every index below `n` exactly once.
pub open spec fn is_permutation(order: Seq<usize>, n: nat) -> bool {
    &&& order.len() == n
    &&& order.no_duplicates()
    &&& forall|k: int| 0 <= k < order.len() ==> order[k] < n
}

/// The indices of `scores` ranked by descending score, ties keeping their order.
pub fn rank_by_score(scores: &Vec<i64>) -> (order: Vec<usize>)
    ensures
        is_permutation(order@, scores@.len()),
        forall|a: int, b: int|
            0 <= a < b < order@.len() ==> ranks_before(scores@, order@[a] as int, order@[b] as int),
{
    let mut order: Vec<usize> = Vec::new();
    let mut i: usize = 0;
    while i < scores.len()
        invariant
            i <= scores.len(),
            is_permutation(order@, i as nat),
            forall|a: int, b: int|
                0 <= a < b < order@.len() ==> ranks_before(scores@, order@[a] as int, order@[b] as int),
        decreases scores.len() - i,
    {
        let mut p: usize = 0;
        while p < order.len() && (scores[order[p]] > scores[i] || scores[order[p]] == scores[i])
            invariant
                p <= order.len(),
                i < scores.len(),
                is_permutation(order@, i as nat),
                forall|a: int| 0 <= a < p ==> ranks_before(scores@, order@[a] as int, i as int),
            decreases order.len() - p,
        {
            p += 1;
        }
        proof {
            if p < order.len() {
                assert(ranks_before(scores@, i as int, order@[p as int] as int));
                assert forall|a: int| p <= a < order@.len() implies ranks_before(
                    scores@,
                    i as int,
                    order@[a] as int,
                ) by {
                    if a > p {
                        assert(ranks_before(scores@, order@[p as int] as int, order@[a] as int));
                    }
                }
            }
        }
        let ghost old_order = order@;
        order.insert(p, i);
        proof {
            assert forall|a: int, b: int| 0 <= a < b < order@.len() implies ranks_before(
                scores@,
                order@[a] as int,
                order@[b] as int,
            ) by {
                if b < p {
                } else if b == p {
                } else if a < p {
                    assert(order@[b] == old_order[b - 1]);
                } else if a == p {
                    assert(order@[b] == old_order[b - 1]);
                } else {
                    assert(order@[a] == old_order[a - 1]);
                    assert(order@[b] == old_order[b - 1]);
                }
            }
            assert forall|a: int, b: int| 0 <= a < b < order@.len() implies order@[a] != order@[b] by {
                assert(ranks_before(scores@, order@[a] as int, order@[b] as int));
            }
        }
        i += 1;
    }
    order
}

} // verus!
