//! Jaro and Jaro-Winkler similarity as exact fractions.

use crate::edit_distance::{max2, min2};
use crate::fraction::{Fraction, Ratio};
use crate::text::chars_of;
use vstd::prelude::*;

verus! {

/// Longest text, in code points, for which a Jaro score is computed: the
/// score's denominator is three times a product of three lengths and has to
/// fit the 128 bits of a `Fraction`.
pub const MAX_JARO_LEN: usize = 0xFFFF_FFFF;

/// Largest denominator accepted for a prefix scale, so that the product
/// of the two denominators fits a `Fraction`.
pub const MAX_SCALE_DEN: u128 = 0xFFF_FFFF;

/// How far apart two equal characters may stand and still match: half the
/// longer length, less one, and never below zero.
pub open spec fn jaro_window(m: int, n: int) -> int {
    if max2(m, n) / 2 >= 1 {
        max2(m, n) / 2 - 1
    } else {
        0
    }
}

/// The first position `j` in `[lo, hi)` at which `b` holds `c` and is not
/// yet used, or `hi` if there is none.
pub open spec fn first_free(b: Seq<char>, used: Seq<bool>, c: char, lo: int, hi: int) -> int
    recommends
        0 <= lo,
        hi <= b.len(),
        used.len() == b.len(),
    decreases hi - lo,
{
    if lo >= hi {
        hi
    } else if !used[lo] && b[lo] == c {
        lo
    } else {
        first_free(b, used, c, lo + 1, hi)
    }
}

/// First position of `b` inside the window around position `i`.
pub open spec fn window_lo(i: int, w: int) -> int {
    max2(i - w, 0)
}

/// One past the last position of `b` inside the window around position `i`.
pub open spec fn window_hi(i: int, w: int, n: int) -> int {
    min2(i + w + 1, n)
}

/// The partner of `a[i]` in `b`, given the positions of `b` already used:
/// the first free position in the window that holds the same character.
/// The window's upper end stands for "no partner".
pub open spec fn partner(a: Seq<char>, b: Seq<char>, used: Seq<bool>, w: int, i: int) -> int {
    first_free(b, used, a[i], window_lo(i, w), window_hi(i, w, b.len() as int))
}

/// Which positions of `b` are used once `a[..i]` has been matched, each
/// character of `a` in turn taking its partner.
pub open spec fn used_after(a: Seq<char>, b: Seq<char>, w: int, i: int) -> Seq<bool>
    decreases i,
{
    if i <= 0 {
        Seq::new(b.len(), |j: int| false)
    } else {
        let used = used_after(a, b, w, i - 1);
        let j = partner(a, b, used, w, i - 1);
        if j < window_hi(i - 1, w, b.len() as int) {
            used.update(j, true)
        } else {
            used
        }
    }
}

/// Whether `a[i]` finds a partner in `b`.
pub open spec fn has_partner(a: Seq<char>, b: Seq<char>, w: int, i: int) -> bool {
    partner(a, b, used_after(a, b, w, i), w, i) < window_hi(i, w, b.len() as int)
}

/// The characters of `a[..i]` that found a partner, in order.
pub open spec fn matched_of_first(a: Seq<char>, b: Seq<char>, w: int, i: int) -> Seq<char>
    decreases i,
{
    if i <= 0 {
        Seq::empty()
    } else if has_partner(a, b, w, i - 1) {
        matched_of_first(a, b, w, i - 1).push(a[i - 1])
    } else {
        matched_of_first(a, b, w, i - 1)
    }
}

/// The characters of `b[..j]` at used positions, in order.
pub open spec fn flagged(b: Seq<char>, used: Seq<bool>, j: int) -> Seq<char>
    decreases j,
{
    if j <= 0 {
        Seq::empty()
    } else if used[j - 1] {
        flagged(b, used, j - 1).push(b[j - 1])
    } else {
        flagged(b, used, j - 1)
    }
}

/// Number of positions below `k` at which `x` and `y` differ.
pub open spec fn mismatches(x: Seq<char>, y: Seq<char>, k: int) -> int
    decreases k,
{
    if k <= 0 {
        0
    } else if x[k - 1] != y[k - 1] {
        mismatches(x, y, k - 1) + 1
    } else {
        mismatches(x, y, k - 1)
    }
}

/// Number of characters of `a` that find a partner in `b`.
pub open spec fn jaro_matches(a: Seq<char>, b: Seq<char>) -> int {
    matched_of_first(a, b, jaro_window(a.len() as int, b.len() as int), a.len() as int).len() as int
}

/// Number of transpositions: half the number of places at which the matched
/// characters of `a` and those of `b`, each read in order, differ.
pub open spec fn jaro_transpositions(a: Seq<char>, b: Seq<char>) -> int {
    let w = jaro_window(a.len() as int, b.len() as int);
    let x = matched_of_first(a, b, w, a.len() as int);
    let y = flagged(b, used_after(a, b, w, a.len() as int), b.len() as int);
    mismatches(x, y, min2(x.len() as int, y.len() as int)) / 2
}

/// The Jaro score for lengths `la` and `lb`, `m` matches and `t`
/// transpositions: the mean of `m / la`, `m / lb` and `(m - t) / m`, and
/// zero when nothing matches.
pub open spec fn jaro_ratio(la: int, lb: int, m: int, t: int) -> Ratio {
    if m <= 0 {
        Ratio { num: 0, den: 1 }
    } else {
        Ratio { num: m * m * lb + m * m * la + (m - t) * la * lb, den: 3 * la * lb * m }
    }
}

/// Jaro similarity of two sequences.
pub open spec fn jaro_similarity(a: Seq<char>, b: Seq<char>) -> Ratio {
    jaro_ratio(
        a.len() as int,
        b.len() as int,
        jaro_matches(a, b),
        jaro_transpositions(a, b),
    )
}

/// Length of the common prefix of `a[i..]` and `b[i..]`, reading no further
/// than position `limit`.
pub open spec fn common_prefix_from(a: Seq<char>, b: Seq<char>, i: int, limit: int) -> int
    decreases limit - i,
{
    if i >= limit || i >= a.len() || i >= b.len() || a[i] != b[i] {
        0
    } else {
        1 + common_prefix_from(a, b, i + 1, limit)
    }
}

/// Length of the common prefix of `a` and `b`, counted up to `limit`.
pub open spec fn common_prefix(a: Seq<char>, b: Seq<char>, limit: int) -> int {
    common_prefix_from(a, b, 0, limit)
}

/// The prefix scale brought into `[0, 1/4]`.
pub open spec fn clamped_scale(scale: Ratio) -> Ratio {
    if scale.num < 0 {
        Ratio { num: 0, den: 1 }
    } else if 4 * scale.num > scale.den {
        Ratio { num: 1, den: 4 }
    } else {
        scale
    }
}

/// The prefix limit brought into `[1, 8]`.
pub open spec fn clamped_prefix(max_prefix: int) -> int {
    if max_prefix < 1 {
        1
    } else if max_prefix > 8 {
        8
    } else {
        max_prefix
    }
}

/// A Jaro score raised by `prefix * scale * (1 - jaro)` and capped at one.
/// A Jaro score of one stays one.
pub open spec fn winkler_ratio(jaro: Ratio, scale: Ratio, prefix: int) -> Ratio {
    if jaro.num == jaro.den {
        Ratio { num: 1, den: 1 }
    } else {
        let num = jaro.num * scale.den + prefix * scale.num * (jaro.den - jaro.num);
        let den = jaro.den * scale.den;
        if num >= den {
            Ratio { num: 1, den: 1 }
        } else {
            Ratio { num, den }
        }
    }
}

/// Jaro-Winkler similarity of two sequences for a prefix scale and a prefix
/// limit, each clamped to its range first.
pub open spec fn jaro_winkler_similarity(
    a: Seq<char>,
    b: Seq<char>,
    scale: Ratio,
    max_prefix: int,
) -> Ratio {
    winkler_ratio(
        jaro_similarity(a, b),
        clamped_scale(scale),
        common_prefix(a, b, clamped_prefix(max_prefix)),
    )
}

/// The conventional prefix scale, one tenth.
pub open spec fn default_scale() -> Ratio {
    Ratio { num: 1, den: 10 }
}

/// Number of used positions among the first `j`.
pub open spec fn used_count(used: Seq<bool>, j: int) -> int
    decreases j,
{
    if j <= 0 {
        0
    } else if used[j - 1] {
        used_count(used, j - 1) + 1
    } else {
        used_count(used, j - 1)
    }
}

proof fn lemma_used_count_range(used: Seq<bool>, j: int)
    requires
        0 <= j,
    ensures
        0 <= used_count(used, j) <= j,
    decreases j,
{
    if j > 0 {
        lemma_used_count_range(used, j - 1);
    }
}

proof fn lemma_used_count_all_free(used: Seq<bool>, j: int)
    requires
        0 <= j <= used.len(),
        forall|x: int| 0 <= x < j ==> !used[x],
    ensures
        used_count(used, j) == 0,
    decreases j,
{
    if j > 0 {
        lemma_used_count_all_free(used, j - 1);
    }
}

proof fn lemma_used_count_update(used: Seq<bool>, p: int, j: int)
    requires
        0 <= p < used.len(),
        0 <= j <= used.len(),
        !used[p],
    ensures
        used_count(used.update(p, true), j) == used_count(used, j) + (if p < j {
            1int
        } else {
            0int
        }),
    decreases j,
{
    if j > 0 {
        lemma_used_count_update(used, p, j - 1);
    }
}

/// The window for texts of lengths `m` and `n`.
fn window_of(m: usize, n: usize) -> (w: usize)
    ensures
        w == jaro_window(m as int, n as int),
        w <= usize::MAX / 2,
{
    let longest = if m >= n {
        m
    } else {
        n
    };
    if longest / 2 >= 1 {
        longest / 2 - 1
    } else {
        0
    }
}

/// The partner of `a[i]` among the positions of `b` not yet used, or the
/// window's upper end when there is none.
fn find_partner(a: &Vec<char>, b: &Vec<char>, used: &Vec<bool>, w: usize, i: usize) -> (r: (
    usize,
    usize,
))
    requires
        i < a.len(),
        used.len() == b.len(),
        w <= usize::MAX / 2,
    ensures
        r.0 == partner(a@, b@, used@, w as int, i as int),
        r.1 == window_hi(i as int, w as int, b.len() as int),
        r.0 < r.1 ==> r.0 < b.len() && !used[r.0 as int],
{
    let n = b.len();
    let lo = if i > w {
        i - w
    } else {
        0
    };
    let hi = if i >= n {
        n
    } else if w + 1 >= n - i {
        n
    } else {
        i + w + 1
    };
    let c = a[i];
    if lo >= hi {
        return (hi, hi);
    }
    let mut j = lo;
    while j < hi
        invariant
            lo <= j <= hi,
            hi <= n,
            n == b.len(),
            used.len() == n,
            i < a.len(),
            c == a@[i as int],
            lo == window_lo(i as int, w as int),
            hi == window_hi(i as int, w as int, n as int),
            first_free(b@, used@, c, lo as int, hi as int) == first_free(
                b@,
                used@,
                c,
                j as int,
                hi as int,
            ),
        decreases hi - j,
    {
        if !used[j] && b[j] == c {
            return (j, hi);
        }
        j += 1;
    }
    (hi, hi)
}

/// The characters of `b` at used positions, in order.
fn collect_flagged(b: &Vec<char>, used: &Vec<bool>) -> (r: Vec<char>)
    requires
        used.len() == b.len(),
    ensures
        r@ == flagged(b@, used@, b.len() as int),
{
    let mut out: Vec<char> = Vec::new();
    let mut j: usize = 0;
    while j < b.len()
        invariant
            j <= b.len(),
            used.len() == b.len(),
            out@ == flagged(b@, used@, j as int),
        decreases b.len() - j,
    {
        if used[j] {
            out.push(b[j]);
        }
        j += 1;
    }
    out
}

/// Number of matches and of transpositions between two texts.
pub fn jaro_counts(a: &Vec<char>, b: &Vec<char>) -> (r: (usize, usize))
    ensures
        r.0 == jaro_matches(a@, b@),
        r.1 == jaro_transpositions(a@, b@),
        r.0 <= a.len(),
        r.0 <= b.len(),
        r.1 <= r.0,
{
    let m = a.len();
    let n = b.len();
    let w = window_of(m, n);
    let mut used: Vec<bool> = Vec::new();
    let mut j: usize = 0;
    while j < n
        invariant
            j <= n,
            used.len() == j,
            forall|x: int| 0 <= x < j ==> !used[x],
        decreases n - j,
    {
        used.push(false);
        j += 1;
    }
    proof {
        assert(used@ =~= used_after(a@, b@, w as int, 0));
        lemma_used_count_all_free(used@, n as int);
    }
    let mut matched: Vec<char> = Vec::new();
    let mut i: usize = 0;
    while i < m
        invariant
            i <= m,
            m == a.len(),
            n == b.len(),
            used.len() == n,
            w <= usize::MAX / 2,
            used@ == used_after(a@, b@, w as int, i as int),
            matched@ == matched_of_first(a@, b@, w as int, i as int),
            matched.len() <= i,
            matched.len() == used_count(used@, n as int),
        decreases m - i,
    {
        let (p, hi) = find_partner(a, b, &used, w, i);
        if p < hi {
            proof {
                lemma_used_count_update(used@, p as int, n as int);
            }
            used.set(p, true);
            matched.push(a[i]);
        }
        i += 1;
    }
    proof {
        lemma_used_count_range(used@, n as int);
    }
    let others = collect_flagged(b, &used);
    let k = if matched.len() <= others.len() {
        matched.len()
    } else {
        others.len()
    };
    let mut differing: usize = 0;
    let mut x: usize = 0;
    while x < k
        invariant
            x <= k,
            k <= matched.len(),
            k <= others.len(),
            differing == mismatches(matched@, others@, x as int),
            differing <= x,
        decreases k - x,
    {
        if matched[x] != others[x] {
            differing += 1;
        }
        x += 1;
    }
    (matched.len(), differing / 2)
}

proof fn lemma_product_le(x: int, y: int, bx: int, by: int)
    requires
        0 <= x <= bx,
        0 <= y <= by,
    ensures
        0 <= x * y <= bx * by,
{
    assert(0 <= x * y <= bx * by) by (nonlinear_arith)
        requires
            0 <= x <= bx,
            0 <= y <= by,
    ;
}

/// Largest product of three lengths that a Jaro score is built from.
pub open spec fn length_cube() -> int {
    0xFFFF_FFFD_0000_0002_FFFF_FFFFint
}

/// The Jaro score as a fraction, from lengths, matches and transpositions.
pub fn jaro_fraction(len_a: usize, len_b: usize, matches: usize, transpositions: usize) -> (r:
    Fraction)
    requires
        len_a <= MAX_JARO_LEN,
        len_b <= MAX_JARO_LEN,
        matches <= len_a,
        matches <= len_b,
        transpositions <= matches,
    ensures
        r@ == jaro_ratio(len_a as int, len_b as int, matches as int, transpositions as int),
        r.wf(),
        0 <= r.num <= r.den,
        r.den <= 3 * length_cube(),
{
    if matches == 0 {
        return Fraction::zero();
    }
    let la = len_a as u128;
    let lb = len_b as u128;
    let m = matches as u128;
    let t = transpositions as u128;
    let big: u128 = 0xFFFF_FFFF;
    proof {
        assert(big * big * big == length_cube()) by (nonlinear_arith)
            requires
                big == 0xFFFF_FFFF,
        ;
        assert(big * big == 0xFFFF_FFFE_0000_0001) by (nonlinear_arith)
            requires
                big == 0xFFFF_FFFF,
        ;
        lemma_product_le(m as int, m as int, big as int, big as int);
        lemma_product_le(la as int, lb as int, big as int, big as int);
        lemma_product_le((m * m) as int, lb as int, big * big, big as int);
        lemma_product_le((m * m) as int, la as int, big * big, big as int);
        lemma_product_le((m - t) as int, (la * lb) as int, big as int, big * big);
        lemma_product_le((la * lb) as int, m as int, big * big, big as int);
        assert((m - t) * (la * lb) == (m - t) * la * lb) by (nonlinear_arith);
        assert(1 <= la * lb * m) by (nonlinear_arith)
            requires
                1 <= m <= la,
                m <= lb,
        ;
        assert(m * m * lb <= la * lb * m) by (nonlinear_arith)
            requires
                0 <= m <= la,
                0 <= lb,
        ;
        assert(m * m * la <= la * lb * m) by (nonlinear_arith)
            requires
                0 <= m <= lb,
                0 <= la,
        ;
        assert((m - t) * (la * lb) <= la * lb * m) by (nonlinear_arith)
            requires
                0 <= t <= m,
                0 <= la,
                0 <= lb,
        ;
        assert(3 * (la * lb * m) == 3 * la * lb * m) by (nonlinear_arith);
    }
    let mm = m * m;
    let ab = la * lb;
    let num = mm * lb + mm * la + (m - t) * ab;
    let den = 3 * (ab * m);
    Fraction { num: num as i128, den }
}

/// Length of the common prefix of two texts, counted up to `limit`.
pub fn common_prefix_len(a: &Vec<char>, b: &Vec<char>, limit: usize) -> (p: usize)
    ensures
        p == common_prefix(a@, b@, limit as int),
        p <= limit,
{
    let mut i: usize = 0;
    while i < limit && i < a.len() && i < b.len() && a[i] == b[i]
        invariant
            i <= limit,
            common_prefix(a@, b@, limit as int) == i + common_prefix_from(
                a@,
                b@,
                i as int,
                limit as int,
            ),
        decreases limit - i,
    {
        i += 1;
    }
    i
}

/// Brings a prefix scale into `[0, 1/4]`.
pub fn clamp_scale(scale: Fraction) -> (r: Fraction)
    requires
        scale.wf(),
    ensures
        r@ == clamped_scale(scale@),
        r.wf(),
        0 <= r.num,
        4 * r.num <= r.den,
        r.den <= scale.den || r.den <= 4,
{
    if scale.num < 0 {
        Fraction { num: 0, den: 1 }
    } else if (scale.num as u128) > scale.den / 4 {
        Fraction { num: 1, den: 4 }
    } else {
        scale
    }
}

/// Brings a prefix limit into `[1, 8]`.
pub fn clamp_prefix(max_prefix: usize) -> (r: usize)
    ensures
        r == clamped_prefix(max_prefix as int),
        1 <= r <= 8,
{
    if max_prefix < 1 {
        1
    } else if max_prefix > 8 {
        8
    } else {
        max_prefix
    }
}

/// Raises a Jaro score by `prefix * scale * (1 - jaro)` and caps it at one.
pub fn winkler_fraction(jaro: Fraction, scale: Fraction, prefix: usize) -> (r: Fraction)
    requires
        jaro.wf(),
        0 <= jaro.num <= jaro.den,
        jaro.den <= 3 * length_cube(),
        scale.wf(),
        0 <= scale.num,
        4 * scale.num <= scale.den,
        scale.den <= MAX_SCALE_DEN,
        prefix <= 8,
    ensures
        r@ == winkler_ratio(jaro@, scale@, prefix as int),
        r.wf(),
        0 <= r.num <= r.den,
        r.den <= 3 * length_cube() * MAX_SCALE_DEN,
{
    if jaro.num as u128 == jaro.den {
        return Fraction::one();
    }
    let jn = jaro.num as u128;
    let jd = jaro.den;
    let sn = scale.num as u128;
    let sd = scale.den;
    let p = prefix as u128;
    let rest = jd - jn;
    proof {
        let cube3 = 3 * length_cube();
        let cap = MAX_SCALE_DEN as int;
        lemma_product_le(jn as int, sd as int, cube3, cap);
        lemma_product_le(jd as int, sd as int, cube3, cap);
        lemma_product_le(p as int, sn as int, 8, sn as int);
        lemma_product_le((p * sn) as int, rest as int, 2 * cap, cube3);
        assert(cube3 * cap + (2 * cap) * cube3 < 0xFFFF_FFFF_FFFF_FFFF_FFFF_FFFF_FFFF_FFFF)
            by (nonlinear_arith)
            requires
                cube3 == 3 * 0xFFFF_FFFD_0000_0002_FFFF_FFFFint,
                cap == 0xFFF_FFFF,
        ;
        assert(cube3 * cap < 0x7FFF_FFFF_FFFF_FFFF_FFFF_FFFF_FFFF_FFFF) by (nonlinear_arith)
            requires
                cube3 == 3 * 0xFFFF_FFFD_0000_0002_FFFF_FFFFint,
                cap == 0xFFF_FFFF,
        ;
        assert(1 <= jd * sd) by (nonlinear_arith)
            requires
                1 <= jd,
                1 <= sd,
        ;
        assert(p * sn * rest == (p * sn) * rest);
    }
    let num = jn * sd + (p * sn) * rest;
    let den = jd * sd;
    if num >= den {
        Fraction::one()
    } else {
        Fraction { num: num as i128, den }
    }
}

/// Jaro similarity of two strings: the mean of the share of matched
/// characters in each string and the share of matched characters that are
/// not transposed. Two strings without a match, the empty ones among them,
/// score zero.
pub fn jaro(a: &str, b: &str) -> (r: Fraction)
    requires
        a@.len() <= MAX_JARO_LEN,
        b@.len() <= MAX_JARO_LEN,
    ensures
        r@ == jaro_similarity(a@, b@),
        r.wf(),
        0 <= r.num <= r.den,
{
    let x = chars_of(a);
    let y = chars_of(b);
    let (matches, transpositions) = jaro_counts(&x, &y);
    jaro_fraction(x.len(), y.len(), matches, transpositions)
}

/// Jaro-Winkler similarity with a prefix scale, clamped to `[0, 1/4]`, and
/// a limit on the prefix length, clamped to `[1, 8]`.
pub fn jaro_winkler_with_params(a: &str, b: &str, prefix_scale: Fraction, max_prefix: usize) -> (r:
    Fraction)
    requires
        a@.len() <= MAX_JARO_LEN,
        b@.len() <= MAX_JARO_LEN,
        prefix_scale.wf(),
        prefix_scale.den <= MAX_SCALE_DEN,
    ensures
        r@ == jaro_winkler_similarity(a@, b@, prefix_scale@, max_prefix as int),
        r.wf(),
        0 <= r.num <= r.den,
        r.den <= 3 * length_cube() * MAX_SCALE_DEN,
{
    let scale = clamp_scale(prefix_scale);
    let limit = clamp_prefix(max_prefix);
    let x = chars_of(a);
    let y = chars_of(b);
    let (matches, transpositions) = jaro_counts(&x, &y);
    let score = jaro_fraction(x.len(), y.len(), matches, transpositions);
    let prefix = common_prefix_len(&x, &y, limit);
    winkler_fraction(score, scale, prefix)
}

/// Jaro-Winkler similarity with the conventional prefix scale of one tenth
/// and a prefix of at most four characters.
pub fn jaro_winkler(a: &str, b: &str) -> (r: Fraction)
    requires
        a@.len() <= MAX_JARO_LEN,
        b@.len() <= MAX_JARO_LEN,
    ensures
        r@ == jaro_winkler_similarity(a@, b@, default_scale(), 4),
        r.wf(),
        0 <= r.num <= r.den,
        r.den <= 30 * length_cube(),
{
    let x = chars_of(a);
    let y = chars_of(b);
    let (matches, transpositions) = jaro_counts(&x, &y);
    let score = jaro_fraction(x.len(), y.len(), matches, transpositions);
    let prefix = common_prefix_len(&x, &y, 4);
    winkler_fraction(score, Fraction { num: 1, den: 10 }, prefix)
}

} // verus!
