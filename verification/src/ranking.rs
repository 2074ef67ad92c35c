//! Ordering of scored candidates: filter by a minimum score, sort by score
//! with earlier candidates first among equals, keep the best few.

use crate::fraction::{Fraction, Ratio};
use vstd::prelude::*;

verus! {

/// The values that a sequence of fractions stands for.
pub open spec fn ratios(scores: Seq<Fraction>) -> Seq<Ratio> {
    scores.map_values(|f: Fraction| f@)
}

/// Every score has a positive denominator.
pub open spec fn all_wf(scores: Seq<Ratio>) -> bool {
    forall|k: int| 0 <= k < scores.len() ==> (#[trigger] scores[k]).den > 0
}

/// Candidate `k` exists and its score is not below the minimum.
pub open spec fn passes(scores: Seq<Ratio>, min_score: Ratio, k: int) -> bool {
    0 <= k < scores.len() && min_score.le(scores[k])
}

/// Candidate `x` is listed before candidate `y`: its score is higher, or
/// the scores are equal and `x` came first.
pub open spec fn outranks(scores: Seq<Ratio>, x: int, y: int) -> bool {
    scores[y].lt(scores[x]) || (scores[x].same(scores[y]) && x < y)
}

/// `order` lists candidates that pass, best first.
pub open spec fn is_sorted_selection(scores: Seq<Ratio>, min_score: Ratio, order: Seq<usize>) -> bool {
    &&& forall|p: int| 0 <= p < order.len() ==> passes(scores, min_score, #[trigger] order[p] as int)
    &&& forall|p: int, q: int|
        0 <= p < q < order.len() ==> outranks(
            scores,
            #[trigger] order[p] as int,
            #[trigger] order[q] as int,
        )
}

/// `order` is the ranking of the candidates: the candidates that pass, best
/// first, cut off after `max` entries. A candidate that passes and is left
/// out is outranked by every entry of a full list.
pub open spec fn is_ranking(scores: Seq<Ratio>, min_score: Ratio, max: int, order: Seq<usize>) -> bool {
    &&& order.len() <= max
    &&& is_sorted_selection(scores, min_score, order)
    &&& forall|k: int| #[trigger]
        passes(scores, min_score, k) && !order.contains(k as usize) ==> order.len() == max
            && forall|p: int|
            0 <= p < order.len() ==> outranks(scores, #[trigger] order[p] as int, k)
}

/// `order` lists, best first, every candidate below `k` that passes.
pub open spec fn is_ranking_of_first(
    scores: Seq<Ratio>,
    min_score: Ratio,
    k: int,
    order: Seq<usize>,
) -> bool {
    &&& is_sorted_selection(scores, min_score, order)
    &&& forall|p: int| 0 <= p < order.len() ==> (#[trigger] order[p]) < k
    &&& forall|j: int|
        0 <= j < k && #[trigger] passes(scores, min_score, j) ==> order.contains(j as usize)
}

/// The order of rationals with positive denominators is transitive.
pub proof fn lemma_le_lt_transitive(a: Ratio, b: Ratio, c: Ratio)
    requires
        a.den > 0,
        b.den > 0,
        c.den > 0,
        a.le(b),
        b.lt(c),
    ensures
        a.lt(c),
{
    assert(a.num * b.den * c.den <= b.num * a.den * c.den) by (nonlinear_arith)
        requires
            a.num * b.den <= b.num * a.den,
            c.den > 0,
    ;
    assert(b.num * c.den * a.den < c.num * b.den * a.den) by (nonlinear_arith)
        requires
            b.num * c.den < c.num * b.den,
            a.den > 0,
    ;
    assert(b.num * a.den * c.den == b.num * c.den * a.den) by (nonlinear_arith);
    assert(a.num * c.den * b.den == a.num * b.den * c.den) by (nonlinear_arith);
    assert(c.num * a.den * b.den == c.num * b.den * a.den) by (nonlinear_arith);
    assert(a.num * c.den < c.num * a.den) by (nonlinear_arith)
        requires
            (a.num * c.den) * b.den < (c.num * a.den) * b.den,
            b.den > 0,
    ;
}

/// A candidate that outranks the entry at position `p` of a sorted list
/// outranks every later entry too.
proof fn lemma_outranks_rest(scores: Seq<Ratio>, min_score: Ratio, order: Seq<usize>, k: int, p: int)
    requires
        all_wf(scores),
        is_sorted_selection(scores, min_score, order),
        0 <= k < scores.len(),
        0 <= p < order.len(),
        scores[order[p] as int].lt(scores[k]),
    ensures
        forall|q: int| p <= q < order.len() ==> scores[#[trigger] order[q] as int].lt(scores[k]),
{
    assert forall|q: int| p <= q < order.len() implies scores[#[trigger] order[q] as int].lt(
        scores[k],
    ) by {
        if q > p {
            let x = order[p] as int;
            let y = order[q] as int;
            assert(passes(scores, min_score, x));
            assert(passes(scores, min_score, y));
            assert(outranks(scores, x, y));
            lemma_le_lt_transitive(scores[y], scores[x], scores[k]);
        }
    }
}

/// The ranking of scored candidates: the positions of the candidates whose
/// score is at least `min_score`, sorted by falling score, earlier
/// candidates first among equal scores, and cut off after `max` entries.
pub fn rank_order(scores: &Vec<Fraction>, min_score: &Fraction, max: usize) -> (order: Vec<usize>)
    requires
        all_wf(ratios(scores@)),
    ensures
        is_ranking(ratios(scores@), min_score@, max as int, order@),
{
    let ghost rs = ratios(scores@);
    let mut order: Vec<usize> = Vec::new();
    let mut k: usize = 0;
    while k < scores.len()
        invariant
            k <= scores.len(),
            rs == ratios(scores@),
            all_wf(rs),
            is_ranking_of_first(rs, min_score@, k as int, order@),
        decreases scores.len() - k,
    {
        assert(rs[k as int] == scores[k as int]@);
        if min_score.le(&scores[k]) {
            let mut p: usize = 0;
            while p < order.len() && !scores[order[p]].lt(&scores[k])
                invariant
                    p <= order.len(),
                    k < scores.len(),
                    rs == ratios(scores@),
                    is_ranking_of_first(rs, min_score@, k as int, order@),
                    forall|q: int| 0 <= q < p ==> outranks(rs, #[trigger] order[q] as int, k as int),
                decreases order.len() - p,
            {
                assert(passes(rs, min_score@, order[p as int] as int));
                assert(rs[order[p as int] as int] == scores[order[p as int] as int]@);
                p += 1;
            }
            let ghost before = order@;
            proof {
                if p < order.len() {
                    assert(passes(rs, min_score@, order[p as int] as int));
                    assert(rs[order[p as int] as int] == scores[order[p as int] as int]@);
                    lemma_outranks_rest(rs, min_score@, before, k as int, p as int);
                }
            }
            order.insert(p, k);
            proof {
                let after = order@;
                assert(after == before.insert(p as int, k));
                assert(passes(rs, min_score@, k as int));
                assert forall|x: int| 0 <= x < after.len() implies passes(
                    rs,
                    min_score@,
                    #[trigger] after[x] as int,
                ) && after[x] < k + 1 by {
                    if x < p {
                        assert(after[x] == before[x]);
                    } else if x > p {
                        assert(after[x] == before[x - 1]);
                    }
                }
                assert forall|x: int, y: int| 0 <= x < y < after.len() implies outranks(
                    rs,
                    #[trigger] after[x] as int,
                    #[trigger] after[y] as int,
                ) by {
                    if y < p {
                        assert(after[x] == before[x] && after[y] == before[y]);
                    } else if y == p {
                        assert(after[x] == before[x]);
                    } else if x < p {
                        assert(after[x] == before[x] && after[y] == before[y - 1]);
                    } else if x == p {
                        assert(after[y] == before[y - 1]);
                    } else {
                        assert(after[x] == before[x - 1] && after[y] == before[y - 1]);
                    }
                }
                assert forall|j: int| 0 <= j < k + 1 && #[trigger] passes(
                    rs,
                    min_score@,
                    j,
                ) implies after.contains(j as usize) by {
                    if j == k {
                        assert(after[p as int] == k);
                    } else {
                        assert(before.contains(j as usize));
                        let x = choose|x: int| 0 <= x < before.len() && before[x] == j as usize;
                        if x < p {
                            assert(after[x] == before[x]);
                        } else {
                            assert(after[x + 1] == before[x]);
                        }
                    }
                }
            }
        }
        k += 1;
    }
    let ghost full = order@;
    order.truncate(max);
    proof {
        let kept = order@;
        assert forall|p: int| 0 <= p < kept.len() implies kept[p] == full[p] by {}
        assert forall|j: int| #[trigger]
            passes(rs, min_score@, j) && !kept.contains(j as usize) implies kept.len() == max
            && forall|p: int|
            0 <= p < kept.len() ==> outranks(rs, #[trigger] kept[p] as int, j) by {
            assert(full.contains(j as usize));
            let x = choose|x: int| 0 <= x < full.len() && full[x] == j as usize;
            if x < kept.len() {
                assert(kept[x] == j as usize);
            }
            assert forall|p: int| 0 <= p < kept.len() implies outranks(
                rs,
                #[trigger] kept[p] as int,
                j,
            ) by {
                assert(kept[p] == full[p]);
                assert(outranks(rs, full[p] as int, full[x] as int));
            }
        }
    }
    order
}

/// Where two rankings first differ, the entry of each outranks the entry of
/// the other: the other's entry either comes later in the ranking or is
/// left out of it.
proof fn lemma_entry_outranks(
    scores: Seq<Ratio>,
    min_score: Ratio,
    max: int,
    mine: Seq<usize>,
    other: Seq<usize>,
    p: int,
)
    requires
        is_ranking(scores, min_score, max, mine),
        is_ranking(scores, min_score, max, other),
        0 <= p < mine.len(),
        p < other.len(),
        forall|q: int| 0 <= q < p ==> mine[q] == other[q],
        mine[p] != other[p],
    ensures
        outranks(scores, mine[p] as int, other[p] as int),
{
    let x = other[p];
    assert(passes(scores, min_score, x as int));
    if mine.contains(x) {
        let q = choose|q: int| 0 <= q < mine.len() && mine[q] == x;
        if q < p {
            assert(other[q] == x);
            assert(outranks(scores, other[q] as int, other[p] as int));
        } else {
            assert(outranks(scores, mine[p] as int, mine[q] as int));
        }
    }
}

proof fn lemma_rankings_agree(
    scores: Seq<Ratio>,
    min_score: Ratio,
    max: int,
    first: Seq<usize>,
    second: Seq<usize>,
    p: int,
)
    requires
        is_ranking(scores, min_score, max, first),
        is_ranking(scores, min_score, max, second),
        0 <= p <= first.len(),
        p <= second.len(),
    ensures
        forall|q: int| 0 <= q < p ==> first[q] == second[q],
    decreases p,
{
    if p > 0 {
        lemma_rankings_agree(scores, min_score, max, first, second, p - 1);
        if first[p - 1] != second[p - 1] {
            lemma_entry_outranks(scores, min_score, max, first, second, p - 1);
            lemma_entry_outranks(scores, min_score, max, second, first, p - 1);
        }
    }
}

proof fn lemma_not_longer(
    scores: Seq<Ratio>,
    min_score: Ratio,
    max: int,
    first: Seq<usize>,
    second: Seq<usize>,
)
    requires
        is_ranking(scores, min_score, max, first),
        is_ranking(scores, min_score, max, second),
    ensures
        second.len() <= first.len(),
{
    if first.len() < second.len() {
        let n = first.len() as int;
        lemma_rankings_agree(scores, min_score, max, first, second, n);
        let y = second[n];
        assert(passes(scores, min_score, y as int));
        if first.contains(y) {
            let q = choose|q: int| 0 <= q < first.len() && first[q] == y;
            assert(second[q] == y);
            assert(outranks(scores, second[q] as int, second[n] as int));
        }
    }
}

/// Scores, a minimum and a limit have one ranking only.
pub proof fn lemma_ranking_unique(
    scores: Seq<Ratio>,
    min_score: Ratio,
    max: int,
    first: Seq<usize>,
    second: Seq<usize>,
)
    requires
        is_ranking(scores, min_score, max, first),
        is_ranking(scores, min_score, max, second),
    ensures
        first == second,
{
    lemma_not_longer(scores, min_score, max, first, second);
    lemma_not_longer(scores, min_score, max, second, first);
    lemma_rankings_agree(scores, min_score, max, first, second, first.len() as int);
    assert(first =~= second);
}

/// A ranking holds at most `max` entries, and the score of each is at least
/// the minimum.
pub proof fn lemma_ranking_bounds(
    scores: Seq<Ratio>,
    min_score: Ratio,
    max: int,
    order: Seq<usize>,
)
    requires
        is_ranking(scores, min_score, max, order),
    ensures
        order.len() <= max,
        forall|p: int| 0 <= p < order.len() ==> min_score.le(scores[#[trigger] order[p] as int]),
{
    assert forall|p: int| 0 <= p < order.len() implies min_score.le(
        scores[#[trigger] order[p] as int],
    ) by {
        assert(passes(scores, min_score, order[p] as int));
    }
}

} // verus!
