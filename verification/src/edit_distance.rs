//! Edit distances between two sequences of code points.
//!
//! Each distance is defined by a recurrence over prefix lengths; the
//! executable functions hand the computation to `rapidfuzz`.

use vstd::prelude::*;
use vstd::string::StrSliceExecFns;

verus! {

/// The smallest of three integers.
pub open spec fn min3(x: int, y: int, z: int) -> int {
    if x <= y && x <= z {
        x
    } else if y <= z {
        y
    } else {
        z
    }
}

/// The smaller of two integers.
pub open spec fn min2(x: int, y: int) -> int {
    if x <= y {
        x
    } else {
        y
    }
}

/// The larger of two integers.
pub open spec fn max2(x: int, y: int) -> int {
    if x >= y {
        x
    } else {
        y
    }
}

/// Cost of aligning `a[i - 1]` with `b[j - 1]`: nothing when they agree, one
/// substitution otherwise.
pub open spec fn subst_cost(a: Seq<char>, b: Seq<char>, i: int, j: int) -> int
    recommends
        0 < i <= a.len(),
        0 < j <= b.len(),
{
    if a[i - 1] == b[j - 1] {
        0
    } else {
        1
    }
}

/// Levenshtein distance between the prefixes `a[..i]` and `b[..j]`: the least
/// number of insertions, deletions and substitutions of single characters.
pub open spec fn lev_at(a: Seq<char>, b: Seq<char>, i: int, j: int) -> int
    recommends
        i <= a.len(),
        j <= b.len(),
    decreases i + j,
{
    if i <= 0 {
        max2(j, 0)
    } else if j <= 0 {
        i
    } else {
        min3(
            lev_at(a, b, i - 1, j) + 1,
            lev_at(a, b, i, j - 1) + 1,
            lev_at(a, b, i - 1, j - 1) + subst_cost(a, b, i, j),
        )
    }
}

/// Whether the last two characters of `a[..i]` are the last two of `b[..j]`
/// in swapped order.
pub open spec fn swapped_tail(a: Seq<char>, b: Seq<char>, i: int, j: int) -> bool
    recommends
        i <= a.len(),
        j <= b.len(),
{
    i >= 2 && j >= 2 && a[i - 1] == b[j - 2] && a[i - 2] == b[j - 1]
}

/// Optimal string alignment distance between `a[..i]` and `b[..j]`:
/// Levenshtein's three operations plus the swap of two adjacent characters,
/// where no character takes part in more than one operation.
pub open spec fn osa_at(a: Seq<char>, b: Seq<char>, i: int, j: int) -> int
    recommends
        i <= a.len(),
        j <= b.len(),
    decreases i + j,
{
    if i <= 0 {
        max2(j, 0)
    } else if j <= 0 {
        i
    } else {
        let base = min3(
            osa_at(a, b, i - 1, j) + 1,
            osa_at(a, b, i, j - 1) + 1,
            osa_at(a, b, i - 1, j - 1) + subst_cost(a, b, i, j),
        );
        if swapped_tail(a, b, i, j) {
            min2(base, osa_at(a, b, i - 2, j - 2) + 1)
        } else {
            base
        }
    }
}

/// The length of the shortest prefix of `s[..end]` that ends in the last
/// occurrence of `c` there, or zero when `c` does not occur in `s[..end]`.
pub open spec fn last_match(s: Seq<char>, c: char, end: int) -> int
    recommends
        end <= s.len(),
    decreases end,
{
    if end <= 0 {
        0
    } else if s[end - 1] == c {
        end
    } else {
        last_match(s, c, end - 1)
    }
}

/// Unrestricted Damerau-Levenshtein distance between `a[..i]` and `b[..j]`.
///
/// Besides Levenshtein's three operations, two characters may trade places
/// across a gap: with `k` the end of the last occurrence of `b[j - 1]` in
/// `a[..i - 1]` and `l` the end of the last occurrence of `a[i - 1]` in
/// `b[..j - 1]`, the prefixes `a[..k - 1]` and `b[..l - 1]` are aligned, the
/// characters between are deleted and inserted, and the pair is swapped.
pub open spec fn dl_at(a: Seq<char>, b: Seq<char>, i: int, j: int) -> int
    recommends
        i <= a.len(),
        j <= b.len(),
    decreases i + j,
{
    if i <= 0 {
        max2(j, 0)
    } else if j <= 0 {
        i
    } else {
        let base = min3(
            dl_at(a, b, i - 1, j) + 1,
            dl_at(a, b, i, j - 1) + 1,
            dl_at(a, b, i - 1, j - 1) + subst_cost(a, b, i, j),
        );
        let k = last_match(a, b[j - 1], i - 1);
        let l = last_match(b, a[i - 1], j - 1);
        if 0 < k < i && 0 < l < j {
            min2(base, dl_at(a, b, k - 1, l - 1) + (i - k - 1) + 1 + (j - l - 1))
        } else {
            base
        }
    }
}

/// Length of a longest common subsequence of `a[..i]` and `b[..j]`.
pub open spec fn lcs_at(a: Seq<char>, b: Seq<char>, i: int, j: int) -> int
    recommends
        i <= a.len(),
        j <= b.len(),
    decreases i + j,
{
    if i <= 0 || j <= 0 {
        0
    } else if a[i - 1] == b[j - 1] {
        lcs_at(a, b, i - 1, j - 1) + 1
    } else {
        max2(lcs_at(a, b, i - 1, j), lcs_at(a, b, i, j - 1))
    }
}

/// Levenshtein distance of two sequences.
pub open spec fn levenshtein_distance(a: Seq<char>, b: Seq<char>) -> int {
    lev_at(a, b, a.len() as int, b.len() as int)
}

/// Optimal string alignment distance of two sequences.
pub open spec fn osa_distance_of(a: Seq<char>, b: Seq<char>) -> int {
    osa_at(a, b, a.len() as int, b.len() as int)
}

/// Unrestricted Damerau-Levenshtein distance of two sequences.
pub open spec fn damerau_distance(a: Seq<char>, b: Seq<char>) -> int {
    dl_at(a, b, a.len() as int, b.len() as int)
}

/// Length of a longest common subsequence of two sequences.
pub open spec fn lcs_length(a: Seq<char>, b: Seq<char>) -> int {
    lcs_at(a, b, a.len() as int, b.len() as int)
}

/// Insertion-deletion distance of two sequences: what is left of both once a
/// longest common subsequence is taken out of each.
pub open spec fn indel_distance_of(a: Seq<char>, b: Seq<char>) -> int {
    a.len() + b.len() - 2 * lcs_length(a, b)
}

/// Calls `rapidfuzz::distance::levenshtein::distance` on the characters of
/// the two strings. Trusted: with its default unit weights that function
/// returns the Levenshtein distance.
#[verifier::external_body]
fn rapidfuzz_levenshtein(a: &str, b: &str) -> (d: usize)
    ensures
        d == levenshtein_distance(a@, b@),
{
    rapidfuzz::distance::levenshtein::distance(a.chars(), b.chars())
}

/// Calls `rapidfuzz::distance::osa::distance` on the characters of the two
/// strings. Trusted: that function returns the optimal string alignment
/// distance.
#[verifier::external_body]
fn rapidfuzz_osa(a: &str, b: &str) -> (d: usize)
    ensures
        d == osa_distance_of(a@, b@),
{
    rapidfuzz::distance::osa::distance(a.chars(), b.chars())
}

/// Calls `rapidfuzz::distance::damerau_levenshtein::distance` on the
/// characters of the two strings. Trusted: that function returns the
/// unrestricted Damerau-Levenshtein distance.
#[verifier::external_body]
fn rapidfuzz_damerau_levenshtein(a: &str, b: &str) -> (d: usize)
    ensures
        d == damerau_distance(a@, b@),
{
    rapidfuzz::distance::damerau_levenshtein::distance(a.chars(), b.chars())
}

/// Calls `rapidfuzz::distance::indel::distance` on the characters of the two
/// strings. Trusted: that function returns the sum of both lengths less
/// twice the length of a longest common subsequence.
#[verifier::external_body]
fn rapidfuzz_indel(a: &str, b: &str) -> (d: usize)
    ensures
        d == indel_distance_of(a@, b@),
{
    rapidfuzz::distance::indel::distance(a.chars(), b.chars())
}

/// Calls `rapidfuzz::distance::lcs_seq::similarity` on the characters of the
/// two strings. Trusted: that function returns the length of a longest
/// common subsequence.
#[verifier::external_body]
fn rapidfuzz_lcs_seq_similarity(a: &str, b: &str) -> (n: usize)
    ensures
        n == lcs_length(a@, b@),
{
    rapidfuzz::distance::lcs_seq::similarity(a.chars(), b.chars())
}

/// Levenshtein distance between two strings, counted in code points.
pub fn levenshtein(a: &str, b: &str) -> (d: usize)
    ensures
        d == levenshtein_distance(a@, b@),
{
    rapidfuzz_levenshtein(a, b)
}

/// Optimal string alignment distance between two strings.
pub fn osa_distance(a: &str, b: &str) -> (d: usize)
    ensures
        d == osa_distance_of(a@, b@),
{
    rapidfuzz_osa(a, b)
}

/// Unrestricted Damerau-Levenshtein distance between two strings.
pub fn damerau_levenshtein(a: &str, b: &str) -> (d: usize)
    ensures
        d == damerau_distance(a@, b@),
{
    rapidfuzz_damerau_levenshtein(a, b)
}

/// Insertion-deletion distance between two strings.
pub fn indel_distance(a: &str, b: &str) -> (d: usize)
    ensures
        d == indel_distance_of(a@, b@),
{
    rapidfuzz_indel(a, b)
}

/// Length of a longest common subsequence of two strings.
pub fn lcs_seq_similarity(a: &str, b: &str) -> (n: usize)
    ensures
        n == lcs_length(a@, b@),
{
    rapidfuzz_lcs_seq_similarity(a, b)
}

/// Distance derived from the longest common subsequence; it is the
/// insertion-deletion distance.
pub fn lcs_seq_distance(a: &str, b: &str) -> (d: usize)
    ensures
        d == indel_distance_of(a@, b@),
        d == a@.len() + b@.len() - 2 * lcs_length(a@, b@),
{
    rapidfuzz_indel(a, b)
}

} // verus!
