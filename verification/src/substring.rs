//! Longest common substring of a needle and a haystack.

use crate::fraction::{Fraction, Ratio};
use crate::text::chars_of;
use vstd::prelude::*;

verus! {

/// A half-open range `[start, end)` of code point positions.
#[derive(Clone, Copy, Debug, PartialEq, Eq)]
pub struct MatchRange {
    pub start: usize,
    pub end: usize,
}

impl MatchRange {
    /// A range never ends before it starts.
    pub open spec fn wf(&self) -> bool {
        self.start <= self.end
    }
}

/// Outcome of a substring search: a score and where in the haystack the
/// match lies.
#[derive(Clone, Copy, Debug)]
pub struct SubstringMatch {
    pub score: Fraction,
    pub range: Option<MatchRange>,
}

impl SubstringMatch {
    /// The score is a fraction between zero and one, and there is a range
    /// exactly when the score is not zero.
    pub open spec fn wf(&self) -> bool {
        &&& self.score.wf()
        &&& 0 <= self.score.num <= self.score.den
        &&& (self.range is None <==> self.score.num == 0)
        &&& (self.range matches Some(r) ==> r.wf())
    }
}

/// Length of the longest common suffix of `a[..i]` and `b[..j]`.
pub open spec fn common_suffix(a: Seq<char>, b: Seq<char>, i: int, j: int) -> int
    recommends
        i <= a.len(),
        j <= b.len(),
    decreases i,
{
    if i <= 0 || j <= 0 || a[i - 1] != b[j - 1] {
        0
    } else {
        common_suffix(a, b, i - 1, j - 1) + 1
    }
}

/// `(i, j)` names a pair of non-empty prefixes of `a` and `b`.
pub open spec fn in_table(a: Seq<char>, b: Seq<char>, i: int, j: int) -> bool {
    1 <= i <= a.len() && 1 <= j <= b.len()
}

/// `(i, j)` comes strictly before `(i0, j0)` when the pairs are read row by
/// row, each row from left to right.
pub open spec fn scanned_before(i: int, j: int, i0: int, j0: int) -> bool {
    i < i0 || (i == i0 && j < j0)
}

/// The common substring of length `len` that ends at `a[..i0]` and `b[..j0]`
/// is a longest one, and the first such in scan order.
pub open spec fn first_longest(a: Seq<char>, b: Seq<char>, len: int, i0: int, j0: int) -> bool {
    &&& in_table(a, b, i0, j0)
    &&& common_suffix(a, b, i0, j0) == len
    &&& forall|i: int, j: int|
        in_table(a, b, i, j) ==> #[trigger] common_suffix(a, b, i, j) <= len
    &&& forall|i: int, j: int|
        in_table(a, b, i, j) && scanned_before(i, j, i0, j0) ==> #[trigger] common_suffix(
            a,
            b,
            i,
            j,
        ) < len
}

/// The two sequences share no character.
pub open spec fn nothing_in_common(a: Seq<char>, b: Seq<char>) -> bool {
    forall|i: int, j: int| in_table(a, b, i, j) ==> #[trigger] common_suffix(a, b, i, j) == 0
}

/// Score of a common substring of length `len` between sequences of lengths
/// `m` and `n`: twice the length over the sum of both lengths.
pub open spec fn substring_score(len: int, m: int, n: int) -> Ratio {
    if len <= 0 {
        Ratio { num: 0, den: 1 }
    } else {
        Ratio { num: 2 * len, den: m + n }
    }
}

/// Length of a range, and zero for no range.
pub open spec fn range_len(range: Option<MatchRange>) -> int {
    match range {
        Some(r) => r.end - r.start,
        None => 0,
    }
}

/// `range` is where the first longest common substring of `needle` and
/// `haystack` lies in the haystack: no range when they share no character,
/// and otherwise the non-empty range that ends where the substring ends.
pub open spec fn is_match_range(
    needle: Seq<char>,
    haystack: Seq<char>,
    range: Option<MatchRange>,
) -> bool {
    match range {
        None => nothing_in_common(needle, haystack),
        Some(r) => {
            let len = r.end - r.start;
            let end = r.end as int;
            &&& r.start < r.end <= haystack.len()
            &&& exists|i0: int| #[trigger] first_longest(needle, haystack, len, i0, end)
        },
    }
}

/// The score that goes with a match range.
pub open spec fn score_of_range(
    needle: Seq<char>,
    haystack: Seq<char>,
    range: Option<MatchRange>,
) -> Ratio {
    substring_score(range_len(range), needle.len() as int, haystack.len() as int)
}

/// What `substring_similarity` returns for `needle` and `haystack`.
pub open spec fn substring_match(
    needle: Seq<char>,
    haystack: Seq<char>,
    result: SubstringMatch,
) -> bool {
    &&& is_match_range(needle, haystack, result.range)
    &&& result.score@ == score_of_range(needle, haystack, result.range)
}

/// State of the scan just before the pair `(ci, cj)` is read: `len` is the
/// longest common suffix seen so far and `(bi, bj)` is where it was first
/// seen.
spec fn scan_state(
    a: Seq<char>,
    b: Seq<char>,
    ci: int,
    cj: int,
    len: int,
    bi: int,
    bj: int,
) -> bool {
    &&& forall|i: int, j: int|
        in_table(a, b, i, j) && scanned_before(i, j, ci, cj) ==> #[trigger] common_suffix(
            a,
            b,
            i,
            j,
        ) <= len
    &&& if len == 0 {
        bi == 0 && bj == 0
    } else {
        &&& in_table(a, b, bi, bj)
        &&& scanned_before(bi, bj, ci, cj)
        &&& common_suffix(a, b, bi, bj) == len
        &&& forall|i: int, j: int|
            in_table(a, b, i, j) && scanned_before(i, j, bi, bj) ==> #[trigger] common_suffix(
                a,
                b,
                i,
                j,
            ) < len
    }
}

proof fn lemma_common_suffix_range(a: Seq<char>, b: Seq<char>, i: int, j: int)
    requires
        0 <= i,
        0 <= j,
    ensures
        0 <= common_suffix(a, b, i, j) <= i,
        common_suffix(a, b, i, j) <= j,
    decreases i,
{
    if i > 0 && j > 0 && a[i - 1] == b[j - 1] {
        lemma_common_suffix_range(a, b, i - 1, j - 1);
    }
}

/// The longest common substring of `needle` and `haystack`, scored as twice
/// its length over the sum of both lengths, with its place in the haystack.
/// Among several longest substrings the first one met when the needle is
/// read position by position, and the haystack from left to right for each,
/// is reported.
pub fn substring_similarity(needle: &str, haystack: &str) -> (result: SubstringMatch)
    ensures
        substring_match(needle@, haystack@, result),
        result.wf(),
        result.score.den <= 2 * usize::MAX,
{
    let a = chars_of(needle);
    let b = chars_of(haystack);
    let m = a.len();
    let n = b.len();
    let mut prev: Vec<usize> = Vec::new();
    let mut c: usize = 0;
    while c < n
        invariant
            c <= n,
            prev.len() == c,
            forall|x: int| 0 <= x < c ==> prev[x] == 0,
        decreases n - c,
    {
        prev.push(0);
        c += 1;
    }
    let mut best: usize = 0;
    let mut best_end: usize = 0;
    let ghost mut best_row: int = 0;
    let mut r: usize = 0;
    while r < m
        invariant
            r <= m,
            m == a.len(),
            n == b.len(),
            a@ == needle@,
            b@ == haystack@,
            prev.len() == n,
            forall|x: int| 0 <= x < n ==> #[trigger] prev[x] == common_suffix(a@, b@, r as int, x + 1),
            scan_state(a@, b@, r + 1, 1, best as int, best_row, best_end as int),
        decreases m - r,
    {
        let mut cur: Vec<usize> = Vec::new();
        let mut c: usize = 0;
        while c < n
            invariant
                r < m,
                c <= n,
                m == a.len(),
                n == b.len(),
                prev.len() == n,
                cur.len() == c,
                forall|x: int| 0 <= x < n ==> #[trigger] prev[x] == common_suffix(a@, b@, r as int, x + 1),
                forall|x: int| 0 <= x < c ==> #[trigger] cur[x] == common_suffix(a@, b@, r + 1, x + 1),
                scan_state(a@, b@, r + 1, c + 1, best as int, best_row, best_end as int),
            decreases n - c,
        {
            proof {
                lemma_common_suffix_range(a@, b@, r + 1, c + 1);
            }
            let cell: usize = if a[r] == b[c] {
                if c > 0 {
                    prev[c - 1] + 1
                } else {
                    1
                }
            } else {
                0
            };
            proof {
                if c > 0 {
                    assert(prev[c - 1] == common_suffix(a@, b@, r as int, (c - 1) + 1));
                }
                assert(a@[(r + 1) - 1] == a[r as int]);
                assert(b@[(c + 1) - 1] == b[c as int]);
            }
            assert(cell == common_suffix(a@, b@, r + 1, c + 1));
            if cell > best {
                best = cell;
                best_end = c + 1;
                proof {
                    best_row = r + 1;
                }
            }
            cur.push(cell);
            c += 1;
        }
        prev = cur;
        r += 1;
    }
    if best == 0 {
        proof {
            assert forall|i: int, j: int| in_table(a@, b@, i, j) implies #[trigger] common_suffix(
                a@,
                b@,
                i,
                j,
            ) == 0 by {
                lemma_common_suffix_range(a@, b@, i, j);
            }
        }
        SubstringMatch { score: Fraction::zero(), range: None }
    } else {
        proof {
            lemma_common_suffix_range(a@, b@, best_row, best_end as int);
            assert(first_longest(a@, b@, best as int, best_row, best_end as int));
        }
        let range = MatchRange { start: best_end - best, end: best_end };
        let score = Fraction { num: 2 * (best as i128), den: (m as u128) + (n as u128) };
        proof {
            let len = range.end - range.start;
            assert(first_longest(needle@, haystack@, len, best_row, range.end as int));
            assert(range.start < range.end <= haystack@.len());
            assert(exists|i0: int| #[trigger] first_longest(needle@, haystack@, len, i0, range.end as int));
            assert(is_match_range(needle@, haystack@, Some(range)));
        }
        SubstringMatch { score, range: Some(range) }
    }
}

/// Two sequences have one first longest common substring only.
pub proof fn lemma_first_longest_unique(
    a: Seq<char>,
    b: Seq<char>,
    len1: int,
    i1: int,
    j1: int,
    len2: int,
    i2: int,
    j2: int,
)
    requires
        first_longest(a, b, len1, i1, j1),
        first_longest(a, b, len2, i2, j2),
    ensures
        len1 == len2,
        i1 == i2,
        j1 == j2,
{
    assert(common_suffix(a, b, i1, j1) <= len2);
    assert(common_suffix(a, b, i2, j2) <= len1);
    if scanned_before(i1, j1, i2, j2) {
        assert(common_suffix(a, b, i1, j1) < len2);
    }
    if scanned_before(i2, j2, i1, j1) {
        assert(common_suffix(a, b, i2, j2) < len1);
    }
}

/// A needle and a haystack have one match range only.
pub proof fn lemma_match_range_unique(
    needle: Seq<char>,
    haystack: Seq<char>,
    first: Option<MatchRange>,
    second: Option<MatchRange>,
)
    requires
        is_match_range(needle, haystack, first),
        is_match_range(needle, haystack, second),
    ensures
        first == second,
{
    match (first, second) {
        (Some(r1), Some(r2)) => {
            let len1 = r1.end - r1.start;
            let i1 = choose|i0: int| #[trigger]
                first_longest(needle, haystack, len1, i0, r1.end as int);
            let len2 = r2.end - r2.start;
            let i2 = choose|i0: int| #[trigger]
                first_longest(needle, haystack, len2, i0, r2.end as int);
            lemma_first_longest_unique(
                needle,
                haystack,
                r1.end - r1.start,
                i1,
                r1.end as int,
                r2.end - r2.start,
                i2,
                r2.end as int,
            );
        },
        (Some(r1), None) => {
            let len1 = r1.end - r1.start;
            let i1 = choose|i0: int| #[trigger]
                first_longest(needle, haystack, len1, i0, r1.end as int);
            assert(common_suffix(needle, haystack, i1, r1.end as int) == 0);
        },
        (None, Some(r2)) => {
            let len2 = r2.end - r2.start;
            let i2 = choose|i0: int| #[trigger]
                first_longest(needle, haystack, len2, i0, r2.end as int);
            assert(common_suffix(needle, haystack, i2, r2.end as int) == 0);
        },
        (None, None) => {},
    }
}

} // verus!
