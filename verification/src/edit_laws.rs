//! Laws of the edit distances, proved from their recurrences.

use crate::edit_distance::{
    damerau_distance, dl_at, indel_distance_of, last_match, lcs_at, lcs_length, lev_at,
    levenshtein_distance, max2, min2, osa_at, osa_distance_of,
};
use vstd::prelude::*;

verus! {

proof fn lemma_lev_symmetric_at(a: Seq<char>, b: Seq<char>, i: int, j: int)
    ensures
        lev_at(a, b, i, j) == lev_at(b, a, j, i),
    decreases max2(i, 0) + max2(j, 0),
{
    if i > 0 && j > 0 {
        lemma_lev_symmetric_at(a, b, i - 1, j);
        lemma_lev_symmetric_at(a, b, i, j - 1);
        lemma_lev_symmetric_at(a, b, i - 1, j - 1);
    }
}

proof fn lemma_osa_symmetric_at(a: Seq<char>, b: Seq<char>, i: int, j: int)
    ensures
        osa_at(a, b, i, j) == osa_at(b, a, j, i),
    decreases max2(i, 0) + max2(j, 0),
{
    if i > 0 && j > 0 {
        lemma_osa_symmetric_at(a, b, i - 1, j);
        lemma_osa_symmetric_at(a, b, i, j - 1);
        lemma_osa_symmetric_at(a, b, i - 1, j - 1);
        if i >= 2 && j >= 2 {
            lemma_osa_symmetric_at(a, b, i - 2, j - 2);
        }
    }
}

proof fn lemma_dl_symmetric_at(a: Seq<char>, b: Seq<char>, i: int, j: int)
    ensures
        dl_at(a, b, i, j) == dl_at(b, a, j, i),
    decreases max2(i, 0) + max2(j, 0),
{
    if i > 0 && j > 0 {
        lemma_dl_symmetric_at(a, b, i - 1, j);
        lemma_dl_symmetric_at(a, b, i, j - 1);
        lemma_dl_symmetric_at(a, b, i - 1, j - 1);
        let k = last_match(a, b[j - 1], i - 1);
        let l = last_match(b, a[i - 1], j - 1);
        if 0 < k < i && 0 < l < j {
            lemma_dl_symmetric_at(a, b, k - 1, l - 1);
        }
    }
}

proof fn lemma_lcs_symmetric_at(a: Seq<char>, b: Seq<char>, i: int, j: int)
    ensures
        lcs_at(a, b, i, j) == lcs_at(b, a, j, i),
    decreases max2(i, 0) + max2(j, 0),
{
    if i > 0 && j > 0 {
        lemma_lcs_symmetric_at(a, b, i - 1, j);
        lemma_lcs_symmetric_at(a, b, i, j - 1);
        lemma_lcs_symmetric_at(a, b, i - 1, j - 1);
    }
}

/// On prefixes, the three distances with substitution are ordered and lie
/// between zero and the longer prefix length.
proof fn lemma_chain_at(a: Seq<char>, b: Seq<char>, i: int, j: int)
    requires
        0 <= i,
        0 <= j,
    ensures
        0 <= dl_at(a, b, i, j),
        dl_at(a, b, i, j) <= osa_at(a, b, i, j),
        osa_at(a, b, i, j) <= lev_at(a, b, i, j),
        lev_at(a, b, i, j) <= max2(i, j),
    decreases i + j,
{
    if i > 0 && j > 0 {
        lemma_chain_at(a, b, i - 1, j);
        lemma_chain_at(a, b, i, j - 1);
        lemma_chain_at(a, b, i - 1, j - 1);
        if i >= 2 && j >= 2 {
            lemma_chain_at(a, b, i - 2, j - 2);
        }
        let k = last_match(a, b[j - 1], i - 1);
        let l = last_match(b, a[i - 1], j - 1);
        if 0 < k < i && 0 < l < j {
            lemma_chain_at(a, b, k - 1, l - 1);
        }
    }
}

proof fn lemma_zero_on_equal_prefixes(a: Seq<char>, i: int)
    requires
        0 <= i,
    ensures
        lev_at(a, a, i, i) == 0,
        osa_at(a, a, i, i) == 0,
        dl_at(a, a, i, i) == 0,
        lcs_at(a, a, i, i) == i,
    decreases i,
{
    lemma_chain_at(a, a, i, i);
    if i > 0 {
        lemma_zero_on_equal_prefixes(a, i - 1);
        lemma_chain_at(a, a, i - 1, i);
        lemma_chain_at(a, a, i, i - 1);
    }
}

proof fn lemma_lcs_range_at(a: Seq<char>, b: Seq<char>, i: int, j: int)
    requires
        0 <= i,
        0 <= j,
    ensures
        0 <= lcs_at(a, b, i, j) <= min2(i, j),
    decreases i + j,
{
    if i > 0 && j > 0 {
        lemma_lcs_range_at(a, b, i - 1, j);
        lemma_lcs_range_at(a, b, i, j - 1);
        lemma_lcs_range_at(a, b, i - 1, j - 1);
    }
}

/// Every distance from a sequence to itself is zero, and the sequence is its
/// own longest common subsequence.
pub proof fn lemma_distance_to_self(a: Seq<char>)
    ensures
        levenshtein_distance(a, a) == 0,
        osa_distance_of(a, a) == 0,
        damerau_distance(a, a) == 0,
        indel_distance_of(a, a) == 0,
        lcs_length(a, a) == a.len(),
{
    lemma_zero_on_equal_prefixes(a, a.len() as int);
}

/// Every distance is symmetric in its two arguments, and so is the length
/// of the longest common subsequence.
pub proof fn lemma_distance_symmetric(a: Seq<char>, b: Seq<char>)
    ensures
        levenshtein_distance(a, b) == levenshtein_distance(b, a),
        osa_distance_of(a, b) == osa_distance_of(b, a),
        damerau_distance(a, b) == damerau_distance(b, a),
        indel_distance_of(a, b) == indel_distance_of(b, a),
        lcs_length(a, b) == lcs_length(b, a),
{
    lemma_lev_symmetric_at(a, b, a.len() as int, b.len() as int);
    lemma_osa_symmetric_at(a, b, a.len() as int, b.len() as int);
    lemma_dl_symmetric_at(a, b, a.len() as int, b.len() as int);
    lemma_lcs_symmetric_at(a, b, a.len() as int, b.len() as int);
}

/// Allowing freer transpositions never raises the distance: unrestricted
/// Damerau-Levenshtein is at most optimal string alignment, which is at most
/// Levenshtein.
pub proof fn lemma_transposition_order(a: Seq<char>, b: Seq<char>)
    ensures
        damerau_distance(a, b) <= osa_distance_of(a, b),
        osa_distance_of(a, b) <= levenshtein_distance(a, b),
{
    lemma_chain_at(a, b, a.len() as int, b.len() as int);
}

/// The distances with substitution lie between zero and the length of the
/// longer sequence; the insertion-deletion distance lies between zero and
/// the sum of both lengths; the longest common subsequence is no longer than
/// the shorter sequence.
pub proof fn lemma_distance_range(a: Seq<char>, b: Seq<char>)
    ensures
        0 <= damerau_distance(a, b) <= max2(a.len() as int, b.len() as int),
        0 <= osa_distance_of(a, b) <= max2(a.len() as int, b.len() as int),
        0 <= levenshtein_distance(a, b) <= max2(a.len() as int, b.len() as int),
        0 <= lcs_length(a, b) <= min2(a.len() as int, b.len() as int),
        0 <= indel_distance_of(a, b) <= a.len() + b.len(),
{
    lemma_chain_at(a, b, a.len() as int, b.len() as int);
    lemma_lcs_range_at(a, b, a.len() as int, b.len() as int);
}

} // verus!
