//! Ordering of fuzzy-match results: best score first, ties in list order.
use vstd::prelude::*;

verus! {

/// Whether the entry at index `i` is listed before the entry at index `j`:
/// a higher score comes first, and between equal scores the earlier index.
pub open spec fn ranked_before(scores: Seq<Option<i64>>, i: int, j: int) -> bool {
    scores[i].unwrap() > scores[j].unwrap() || (scores[i].unwrap() == scores[j].unwrap() && i < j)
}

/// Whether `r` lists the indices of the entries below `bound` that have a
/// score, each exactly once, in ranking order.
pub open spec fn ranks_below(scores: Seq<Option<i64>>, r: Seq<usize>, bound: int) -> bool {
    &&& forall|k: int| 0 <= k < r.len() ==> (#[trigger] r[k]) < bound && scores[r[k] as int] is Some
    &&& forall|i: int| 0 <= i < bound && #[trigger] scores[i] is Some ==> r.contains(i as usize)
    &&& forall|a: int, b: int|
        0 <= a < b < r.len() ==> ranked_before(scores, #[trigger] r[a] as int, #[trigger] r[b] as int)
}

/// Whether `r` is the ranking of all scored entries of `scores`.
pub open spec fn is_ranking(scores: Seq<Option<i64>>, r: Seq<usize>) -> bool {
    bound_ok(scores) && ranks_below(scores, r, scores.len() as int)
}

/// Scores are indexed by `usize`.
pub open spec fn bound_ok(scores: Seq<Option<i64>>) -> bool {
    scores.len() <= usize::MAX
}

/// Two sequences that are both strictly ordered by `ranked_before` and hold
/// the same elements are equal.
pub proof fn lemma_sorted_unique(scores: Seq<Option<i64>>, r1: Seq<usize>, r2: Seq<usize>)
    requires
        forall|a: int, b: int|
            0 <= a < b < r1.len() ==> ranked_before(scores, #[trigger] r1[a] as int, #[trigger] r1[b] as int),
        forall|a: int, b: int|
            0 <= a < b < r2.len() ==> ranked_before(scores, #[trigger] r2[a] as int, #[trigger] r2[b] as int),
        forall|x: usize| r1.contains(x) <==> r2.contains(x),
    ensures
        r1 == r2,
    decreases r1.len(),
{
    if r1.len() == 0 {
        if r2.len() > 0 {
            assert(r2.contains(r2[0]));
        }
        assert(r1 =~= r2);
    } else {
        assert(r1.contains(r1[0]));
        assert(r2.len() > 0);
        assert(r2.contains(r2[0]));
        let p = choose|p: int| 0 <= p < r1.len() && r1[p] == r2[0];
        let q = choose|q: int| 0 <= q < r2.len() && r2[q] == r1[0];
        if p > 0 {
            assert(ranked_before(scores, r1[0] as int, r1[p] as int));
            if q > 0 {
                assert(ranked_before(scores, r2[0] as int, r2[q] as int));
                assert(false);
            }
        }
        assert(r1[0] == r2[0]);
        let t1 = r1.drop_first();
        let t2 = r2.drop_first();
        assert forall|x: usize| t1.contains(x) implies t2.contains(x) by {
            let i = choose|i: int| 0 <= i < t1.len() && t1[i] == x;
            assert(r1[i + 1] == x);
            assert(r1.contains(x));
            let j = choose|j: int| 0 <= j < r2.len() && r2[j] == x;
            if j == 0 {
                assert(ranked_before(scores, r1[0] as int, r1[i + 1] as int));
                assert(false);
            }
            assert(t2[j - 1] == x);
        }
        assert forall|x: usize| t2.contains(x) implies t1.contains(x) by {
            let i = choose|i: int| 0 <= i < t2.len() && t2[i] == x;
            assert(r2[i + 1] == x);
            assert(r2.contains(x));
            let j = choose|j: int| 0 <= j < r1.len() && r1[j] == x;
            if j == 0 {
                assert(ranked_before(scores, r2[0] as int, r2[i + 1] as int));
                assert(false);
            }
            assert(t1[j - 1] == x);
        }
        assert forall|a: int, b: int| 0 <= a < b < t1.len() implies ranked_before(
            scores,
            #[trigger] t1[a] as int,
            #[trigger] t1[b] as int,
        ) by {
            assert(t1[a] == r1[a + 1] && t1[b] == r1[b + 1]);
        }
        assert forall|a: int, b: int| 0 <= a < b < t2.len() implies ranked_before(
            scores,
            #[trigger] t2[a] as int,
            #[trigger] t2[b] as int,
        ) by {
            assert(t2[a] == r2[a + 1] && t2[b] == r2[b + 1]);
        }
        lemma_sorted_unique(scores, t1, t2);
        assert(r1.len() == r2.len());
        assert forall|k: int| 0 <= k < r1.len() implies r1[k] == r2[k] by {
            if k > 0 {
                assert(r1[k] == t1[k - 1] && r2[k] == t2[k - 1]);
            }
        }
        assert(r1 =~= r2);
    }
}

/// A list of scores has at most one ranking.
pub proof fn lemma_ranking_unique(scores: Seq<Option<i64>>, r1: Seq<usize>, r2: Seq<usize>)
    requires
        is_ranking(scores, r1),
        is_ranking(scores, r2),
    ensures
        r1 == r2,
{
    assert forall|x: usize| r1.contains(x) implies r2.contains(x) by {
        let k = choose|k: int| 0 <= k < r1.len() && r1[k] == x;
        assert(scores[r1[k] as int] is Some);
    }
    assert forall|x: usize| r2.contains(x) implies r1.contains(x) by {
        let k = choose|k: int| 0 <= k < r2.len() && r2[k] == x;
        assert(scores[r2[k] as int] is Some);
    }
    lemma_sorted_unique(scores, r1, r2);
}

/// Inserting index `i`, of score `s`, after the entries that score at
/// least `s` and before those that score less keeps the list a ranking.
proof fn lemma_insert_ranked(scores: Seq<Option<i64>>, r: Seq<usize>, p: int, i: int, s: i64)
    requires
        0 <= i < scores.len() <= usize::MAX,
        scores[i] == Some(s),
        ranks_below(scores, r, i),
        0 <= p <= r.len(),
        forall|a: int| 0 <= a < p ==> scores[r[a] as int].unwrap() >= s,
        p < r.len() ==> scores[r[p] as int].unwrap() < s,
    ensures
        ranks_below(scores, r.insert(p, i as usize), i + 1),
{
    let nr = r.insert(p, i as usize);
    assert forall|k: int| 0 <= k < nr.len() implies (#[trigger] nr[k]) < i + 1
        && scores[nr[k] as int] is Some by {
        if k < p {
            assert(nr[k] == r[k]);
        } else if k > p {
            assert(nr[k] == r[k - 1]);
        }
    }
    assert forall|j: int| 0 <= j < i + 1 && #[trigger] scores[j] is Some implies nr.contains(
        j as usize,
    ) by {
        if j == i {
            assert(nr[p] == i);
        } else {
            assert(r.contains(j as usize));
            let k = choose|k: int| 0 <= k < r.len() && r[k] == j as usize;
            if k < p {
                assert(nr[k] == j as usize);
            } else {
                assert(nr[k + 1] == j as usize);
            }
        }
    }
    assert forall|a: int, b: int| 0 <= a < b < nr.len() implies ranked_before(
        scores,
        #[trigger] nr[a] as int,
        #[trigger] nr[b] as int,
    ) by {
        if b < p {
            assert(nr[a] == r[a] && nr[b] == r[b]);
        } else if b == p {
            assert(nr[a] == r[a]);
            assert(r[a] < i);
        } else if a < p {
            assert(nr[a] == r[a] && nr[b] == r[b - 1]);
            assert(scores[r[a] as int].unwrap() >= s);
            if p < b - 1 {
                assert(ranked_before(scores, r[p] as int, r[b - 1] as int));
            }
        } else if a == p {
            assert(nr[b] == r[b - 1]);
            if p < b - 1 {
                assert(ranked_before(scores, r[p] as int, r[b - 1] as int));
            }
        } else {
            assert(nr[a] == r[a - 1] && nr[b] == r[b - 1]);
        }
    }
}

/// The indices of the scored entries, best score first, entries of equal
/// score in their original order.
pub fn rank_matches(scores: &Vec<Option<i64>>) -> (r: Vec<usize>)
    ensures
        is_ranking(scores@, r@),
{
    let n = scores.len();
    let mut r: Vec<usize> = Vec::new();
    for i in 0..n
        invariant
            n == scores@.len(),
            ranks_below(scores@, r@, i as int),
    {
        if let Some(s) = scores[i] {
            let mut p: usize = 0;
            let mut found = false;
            while !found && p < r.len()
                invariant
                    n == scores@.len(),
                    i < n,
                    ranks_below(scores@, r@, i as int),
                    p <= r@.len(),
                    found ==> p < r@.len() && scores@[r@[p as int] as int].unwrap() < s,
                    forall|a: int| 0 <= a < p ==> scores@[r@[a] as int].unwrap() >= s,
                decreases r@.len() - p, if found { 0int } else { 1int },
            {
                assert(scores@[r@[p as int] as int] is Some);
                let t = match scores[r[p]] {
                    Some(t) => t,
                    None => s,
                };
                if t < s {
                    found = true;
                } else {
                    p = p + 1;
                }
            }
            proof {
                lemma_insert_ranked(scores@, r@, p as int, i as int, s);
            }
            r.insert(p, i);
        }
    }
    r
}

} // verus!
