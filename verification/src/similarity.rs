//! Distances rescaled to similarities, and the choice of a metric by name.

use crate::edit_distance::{
    damerau_distance, damerau_levenshtein, indel_distance, indel_distance_of, levenshtein,
    levenshtein_distance, max2, osa_distance, osa_distance_of,
};
use crate::edit_laws::{lemma_distance_range, lemma_distance_symmetric, lemma_distance_to_self};
use crate::fraction::{Fraction, Ratio};
use crate::text::str_eq;
use vstd::prelude::*;
use vstd::string::StrSliceExecFns;

verus! {

/// Why a request could not be served.
#[derive(Clone, Copy, Debug, PartialEq, Eq)]
pub enum MetricError {
    /// The configuration names a metric that does not exist.
    Configuration,
    /// A text is too long for its score to be held exactly.
    InvalidInput,
}

impl MetricError {
    /// A sentence that describes the error.
    pub fn message(&self) -> (r: String)
        ensures
            r@ == (match self {
                MetricError::Configuration => "configuration error: unknown metric name"@,
                MetricError::InvalidInput => "invalid input: text too long for an exact score"@,
            }),
    {
        match self {
            MetricError::Configuration => "configuration error: unknown metric name".to_owned(),
            MetricError::InvalidInput => "invalid input: text too long for an exact score".to_owned(),
        }
    }
}

/// The similarity that a distance `d` between sequences of lengths `la` and
/// `lb` stands for: one less the distance over the longer length, and one
/// when both sequences are empty.
pub open spec fn normalized_similarity_of(d: int, la: int, lb: int) -> Ratio {
    if max2(la, lb) > 0 {
        Ratio { num: max2(la, lb) - d, den: max2(la, lb) }
    } else {
        Ratio { num: 1, den: 1 }
    }
}

/// A ratio on the scale of percentages.
pub open spec fn percent_of(r: Ratio) -> Ratio {
    Ratio { num: 100 * r.num, den: r.den }
}

/// A distance together with the similarity it stands for.
#[derive(Clone, Copy, Debug)]
pub struct DistanceResult {
    pub distance: usize,
    pub normalized_similarity: Fraction,
}

impl DistanceResult {
    /// The similarity is the one that the distance stands for between
    /// sequences of lengths `la` and `lb`.
    pub open spec fn wf(&self, la: int, lb: int) -> bool {
        self.normalized_similarity@ == normalized_similarity_of(self.distance as int, la, lb)
    }
}

/// Rescales a distance between texts of the given lengths to a similarity.
pub fn normalized_similarity(distance: usize, len_a: usize, len_b: usize) -> (s: Fraction)
    ensures
        s@ == normalized_similarity_of(distance as int, len_a as int, len_b as int),
        s.wf(),
        s.den <= usize::MAX,
        -(usize::MAX as int) <= s.num <= s.den,
{
    let longest = if len_a >= len_b {
        len_a
    } else {
        len_b
    };
    if longest > 0 {
        Fraction { num: (longest as i128) - (distance as i128), den: longest as u128 }
    } else {
        Fraction::one()
    }
}

/// The edit distances.
#[derive(Clone, Copy, Debug, PartialEq, Eq)]
pub enum DistanceMetric {
    Levenshtein,
    Osa,
    DamerauLevenshtein,
    Indel,
    LcsSeq,
}

/// The distance metric that a name stands for, if any.
pub open spec fn distance_metric_named(name: Seq<char>) -> Option<DistanceMetric> {
    if name == "levenshtein"@ {
        Some(DistanceMetric::Levenshtein)
    } else if name == "osa"@ {
        Some(DistanceMetric::Osa)
    } else if name == "damerau_levenshtein"@ {
        Some(DistanceMetric::DamerauLevenshtein)
    } else if name == "indel"@ {
        Some(DistanceMetric::Indel)
    } else if name == "lcs_seq"@ {
        Some(DistanceMetric::LcsSeq)
    } else {
        None
    }
}

/// The distance between two sequences under a metric.
pub open spec fn distance_of(metric: DistanceMetric, a: Seq<char>, b: Seq<char>) -> int {
    match metric {
        DistanceMetric::Levenshtein => levenshtein_distance(a, b),
        DistanceMetric::Osa => osa_distance_of(a, b),
        DistanceMetric::DamerauLevenshtein => damerau_distance(a, b),
        DistanceMetric::Indel => indel_distance_of(a, b),
        DistanceMetric::LcsSeq => indel_distance_of(a, b),
    }
}

/// The similarity of two sequences under a metric.
pub open spec fn similarity_of(metric: DistanceMetric, a: Seq<char>, b: Seq<char>) -> Ratio {
    normalized_similarity_of(distance_of(metric, a, b), a.len() as int, b.len() as int)
}

impl DistanceMetric {
    /// Looks up a distance metric by its name: `levenshtein`, `osa`,
    /// `damerau_levenshtein`, `indel` or `lcs_seq`. Any other name is a
    /// configuration error.
    pub fn from_name(name: &str) -> (r: Result<DistanceMetric, MetricError>)
        ensures
            r == (match distance_metric_named(name@) {
                Some(m) => Ok::<DistanceMetric, MetricError>(m),
                None => Err(MetricError::Configuration),
            }),
    {
        if str_eq(name, "levenshtein") {
            Ok(DistanceMetric::Levenshtein)
        } else if str_eq(name, "osa") {
            Ok(DistanceMetric::Osa)
        } else if str_eq(name, "damerau_levenshtein") {
            Ok(DistanceMetric::DamerauLevenshtein)
        } else if str_eq(name, "indel") {
            Ok(DistanceMetric::Indel)
        } else if str_eq(name, "lcs_seq") {
            Ok(DistanceMetric::LcsSeq)
        } else {
            Err(MetricError::Configuration)
        }
    }

    /// The distance between two strings under this metric.
    pub fn distance(&self, a: &str, b: &str) -> (d: usize)
        ensures
            d == distance_of(*self, a@, b@),
    {
        match self {
            DistanceMetric::Levenshtein => levenshtein(a, b),
            DistanceMetric::Osa => osa_distance(a, b),
            DistanceMetric::DamerauLevenshtein => damerau_levenshtein(a, b),
            DistanceMetric::Indel => indel_distance(a, b),
            DistanceMetric::LcsSeq => indel_distance(a, b),
        }
    }

    /// The distance between two strings under this metric and the
    /// similarity that it stands for.
    pub fn measure(&self, a: &str, b: &str) -> (r: DistanceResult)
        ensures
            r.distance == distance_of(*self, a@, b@),
            r.normalized_similarity@ == similarity_of(*self, a@, b@),
            r.normalized_similarity.wf(),
            r.wf(a@.len() as int, b@.len() as int),
    {
        let distance = self.distance(a, b);
        let normalized_similarity = normalized_similarity(
            distance,
            a.unicode_len(),
            b.unicode_len(),
        );
        DistanceResult { distance, normalized_similarity }
    }

    /// The similarity of two strings under this metric.
    pub fn similarity(&self, a: &str, b: &str) -> (s: Fraction)
        ensures
            s@ == similarity_of(*self, a@, b@),
            s.wf(),
            s.den <= usize::MAX,
            -(usize::MAX as int) <= s.num <= s.den,
    {
        normalized_similarity(self.distance(a, b), a.unicode_len(), b.unicode_len())
    }
}

/// The distance between two strings under the metric of the given name. A
/// name that stands for no distance metric is a configuration error.
pub fn distance(metric: &str, a: &str, b: &str) -> (r: Result<usize, MetricError>)
    ensures
        match distance_metric_named(metric@) {
            Some(m) => r is Ok && r->Ok_0 == distance_of(m, a@, b@),
            None => r == Err::<usize, MetricError>(MetricError::Configuration),
        },
{
    match DistanceMetric::from_name(metric) {
        Ok(m) => Ok(m.distance(a, b)),
        Err(e) => Err(e),
    }
}

/// The similarity of two strings under the metric of the given name. A name
/// that stands for no distance metric is a configuration error.
pub fn similarity(metric: &str, a: &str, b: &str) -> (r: Result<Fraction, MetricError>)
    ensures
        match distance_metric_named(metric@) {
            Some(m) => r is Ok && r->Ok_0@ == similarity_of(m, a@, b@) && r->Ok_0.wf(),
            None => r is Err && r->Err_0 == MetricError::Configuration,
        },
{
    match DistanceMetric::from_name(metric) {
        Ok(m) => Ok(m.similarity(a, b)),
        Err(e) => Err(e),
    }
}

/// Levenshtein similarity: one less the distance over the longer length.
pub fn normalized_levenshtein(a: &str, b: &str) -> (s: Fraction)
    ensures
        s@ == similarity_of(DistanceMetric::Levenshtein, a@, b@),
        s.wf(),
{
    DistanceMetric::Levenshtein.similarity(a, b)
}

/// Optimal string alignment similarity.
pub fn normalized_osa_similarity(a: &str, b: &str) -> (s: Fraction)
    ensures
        s@ == similarity_of(DistanceMetric::Osa, a@, b@),
        s.wf(),
{
    DistanceMetric::Osa.similarity(a, b)
}

/// Unrestricted Damerau-Levenshtein similarity.
pub fn normalized_damerau_levenshtein(a: &str, b: &str) -> (s: Fraction)
    ensures
        s@ == similarity_of(DistanceMetric::DamerauLevenshtein, a@, b@),
        s.wf(),
{
    DistanceMetric::DamerauLevenshtein.similarity(a, b)
}

/// Insertion-deletion similarity.
pub fn indel_normalized_similarity(a: &str, b: &str) -> (s: Fraction)
    ensures
        s@ == similarity_of(DistanceMetric::Indel, a@, b@),
        s.wf(),
{
    DistanceMetric::Indel.similarity(a, b)
}

/// Similarity derived from the longest common subsequence.
pub fn lcs_seq_normalized_similarity(a: &str, b: &str) -> (s: Fraction)
    ensures
        s@ == similarity_of(DistanceMetric::LcsSeq, a@, b@),
        s.wf(),
{
    DistanceMetric::LcsSeq.similarity(a, b)
}

/// The insertion-deletion similarity on the scale of percentages.
pub fn ratio(a: &str, b: &str) -> (s: Fraction)
    ensures
        s@ == percent_of(similarity_of(DistanceMetric::Indel, a@, b@)),
        s.wf(),
{
    let unit = DistanceMetric::Indel.similarity(a, b);
    Fraction { num: 100 * unit.num, den: unit.den }
}

/// The rational zero.
pub open spec fn zero() -> Ratio {
    Ratio { num: 0, den: 1 }
}

/// The rational one.
pub open spec fn one() -> Ratio {
    Ratio { num: 1, den: 1 }
}

/// Under every metric a sequence is at distance zero from itself, and its
/// similarity to itself is one.
pub proof fn lemma_identity(metric: DistanceMetric, a: Seq<char>)
    ensures
        distance_of(metric, a, a) == 0,
        similarity_of(metric, a, a).same(one()),
{
    lemma_distance_to_self(a);
}

/// Every metric is symmetric, in distance and in similarity.
pub proof fn lemma_symmetry(metric: DistanceMetric, a: Seq<char>, b: Seq<char>)
    ensures
        distance_of(metric, a, b) == distance_of(metric, b, a),
        similarity_of(metric, a, b) == similarity_of(metric, b, a),
{
    lemma_distance_symmetric(a, b);
}

/// The metric counts a substitution as one operation.
pub open spec fn has_substitution(metric: DistanceMetric) -> bool {
    metric is Levenshtein || metric is Osa || metric is DamerauLevenshtein
}

/// No similarity exceeds one. A similarity is at least zero exactly when
/// the distance does not exceed the longer length, which always holds of a
/// metric with substitution.
pub proof fn lemma_similarity_range(metric: DistanceMetric, a: Seq<char>, b: Seq<char>)
    ensures
        similarity_of(metric, a, b).den > 0,
        similarity_of(metric, a, b).le(one()),
        zero().le(similarity_of(metric, a, b)) <==> distance_of(metric, a, b) <= max2(
            a.len() as int,
            b.len() as int,
        ),
        has_substitution(metric) ==> zero().le(similarity_of(metric, a, b)),
{
    lemma_distance_range(a, b);
}

/// The percentage never exceeds one hundred, and it is at least zero
/// exactly when the insertion-deletion distance does not exceed the longer
/// length.
pub proof fn lemma_ratio_range(a: Seq<char>, b: Seq<char>)
    ensures
        percent_of(similarity_of(DistanceMetric::Indel, a, b)).le(Ratio { num: 100, den: 1 }),
        zero().le(percent_of(similarity_of(DistanceMetric::Indel, a, b))) <==> indel_distance_of(
            a,
            b,
        ) <= max2(a.len() as int, b.len() as int),
{
    lemma_distance_range(a, b);
}

} // verus!
