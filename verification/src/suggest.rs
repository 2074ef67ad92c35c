//! Suggestions: candidates scored against an input and ranked.

use crate::edit_laws::lemma_distance_range;
use crate::fraction::{Fraction, Ratio};
use crate::jaro::{
    default_scale, jaro_winkler, jaro_winkler_similarity, length_cube, MAX_JARO_LEN,
};
use crate::normalize::{normalize_preset, normalized, NormalizationPreset};
use crate::ranking::{
    all_wf, is_ranking, lemma_ranking_bounds, lemma_ranking_unique, passes, rank_order, ratios,
};
use crate::similarity::{similarity_of, DistanceMetric, MetricError};
use crate::substring::{
    is_match_range, lemma_match_range_unique, score_of_range, substring_similarity, MatchRange,
};
use crate::text::{chars_of, str_eq};
use vstd::prelude::*;
use vstd::string::StrSliceExecFns;

verus! {

/// The metrics by which a candidate can be scored against an input.
#[derive(Clone, Copy, Debug, PartialEq, Eq)]
pub enum ScoreMetric {
    Levenshtein,
    DamerauOsa,
    DamerauUnrestricted,
    JaroWinkler,
    Substring,
}

/// The scoring metric that a name stands for, if any.
pub open spec fn score_metric_named(name: Seq<char>) -> Option<ScoreMetric> {
    if name == "levenshtein"@ {
        Some(ScoreMetric::Levenshtein)
    } else if name == "damerau_osa"@ {
        Some(ScoreMetric::DamerauOsa)
    } else if name == "damerau_unrestricted"@ {
        Some(ScoreMetric::DamerauUnrestricted)
    } else if name == "jaro_winkler"@ {
        Some(ScoreMetric::JaroWinkler)
    } else if name == "substring"@ {
        Some(ScoreMetric::Substring)
    } else {
        None
    }
}

/// Whether a text is too long to be scored exactly under a metric. Only the
/// Jaro-Winkler score has such a limit.
pub open spec fn too_long(metric: ScoreMetric, input: Seq<char>, candidate: Seq<char>) -> bool {
    metric is JaroWinkler && (input.len() > MAX_JARO_LEN || candidate.len() > MAX_JARO_LEN)
}

/// `range` is the match range that a metric reports: the place of the first
/// longest common substring under the substring metric, none under any
/// other.
pub open spec fn is_range_for(
    metric: ScoreMetric,
    input: Seq<char>,
    candidate: Seq<char>,
    range: Option<MatchRange>,
) -> bool {
    match metric {
        ScoreMetric::Substring => is_match_range(input, candidate, range),
        _ => range is None,
    }
}

/// The score of a candidate against an input under a metric, given the
/// match range that the metric reports.
pub open spec fn score_for(
    metric: ScoreMetric,
    input: Seq<char>,
    candidate: Seq<char>,
    range: Option<MatchRange>,
) -> Ratio {
    match metric {
        ScoreMetric::Levenshtein => similarity_of(DistanceMetric::Levenshtein, input, candidate),
        ScoreMetric::DamerauOsa => similarity_of(DistanceMetric::Osa, input, candidate),
        ScoreMetric::DamerauUnrestricted => similarity_of(
            DistanceMetric::DamerauLevenshtein,
            input,
            candidate,
        ),
        ScoreMetric::JaroWinkler => jaro_winkler_similarity(input, candidate, default_scale(), 4),
        ScoreMetric::Substring => score_of_range(input, candidate, range),
    }
}

/// A score in `[0, 1]` moved a tenth of the way towards one, and capped at
/// one.
pub open spec fn prefix_bonus_of(score: Ratio) -> Ratio {
    if 9 * score.num + score.den >= 10 * score.den {
        Ratio { num: 1, den: 1 }
    } else {
        Ratio { num: 9 * score.num + score.den, den: 10 * score.den }
    }
}

/// Largest denominator of a score.
pub open spec fn max_score_den() -> int {
    30 * length_cube()
}

/// A score is a fraction between zero and one whose denominator leaves
/// room for the prefix bonus.
pub open spec fn is_unit_score(score: Fraction) -> bool {
    &&& score.wf()
    &&& 0 <= score.num <= score.den
    &&& score.den <= max_score_den()
}

impl ScoreMetric {
    /// Looks up a scoring metric by its name: `levenshtein`, `damerau_osa`,
    /// `damerau_unrestricted`, `jaro_winkler` or `substring`. Any other name
    /// is a configuration error.
    pub fn from_name(name: &str) -> (r: Result<ScoreMetric, MetricError>)
        ensures
            r == (match score_metric_named(name@) {
                Some(m) => Ok::<ScoreMetric, MetricError>(m),
                None => Err(MetricError::Configuration),
            }),
    {
        if str_eq(name, "levenshtein") {
            Ok(ScoreMetric::Levenshtein)
        } else if str_eq(name, "damerau_osa") {
            Ok(ScoreMetric::DamerauOsa)
        } else if str_eq(name, "damerau_unrestricted") {
            Ok(ScoreMetric::DamerauUnrestricted)
        } else if str_eq(name, "jaro_winkler") {
            Ok(ScoreMetric::JaroWinkler)
        } else if str_eq(name, "substring") {
            Ok(ScoreMetric::Substring)
        } else {
            Err(MetricError::Configuration)
        }
    }

    /// Scores a candidate against an input. Only the substring metric
    /// reports a match range. A text too long for an exact Jaro-Winkler
    /// score is an invalid input.
    pub fn score(&self, input: &str, candidate: &str) -> (r: Result<
        (Fraction, Option<MatchRange>),
        MetricError,
    >)
        ensures
            too_long(*self, input@, candidate@) ==> r is Err && r->Err_0
                == MetricError::InvalidInput,
            !too_long(*self, input@, candidate@) ==> r is Ok && is_range_for(
                *self,
                input@,
                candidate@,
                r->Ok_0.1,
            ) && r->Ok_0.0@ == score_for(*self, input@, candidate@, r->Ok_0.1) && is_unit_score(
                r->Ok_0.0,
            ),
    {
        proof {
            lemma_distance_range(input@, candidate@);
        }
        match self {
            ScoreMetric::Levenshtein => Ok(
                (DistanceMetric::Levenshtein.similarity(input, candidate), None),
            ),
            ScoreMetric::DamerauOsa => Ok((DistanceMetric::Osa.similarity(input, candidate), None)),
            ScoreMetric::DamerauUnrestricted => Ok(
                (DistanceMetric::DamerauLevenshtein.similarity(input, candidate), None),
            ),
            ScoreMetric::JaroWinkler => {
                if input.unicode_len() > MAX_JARO_LEN || candidate.unicode_len() > MAX_JARO_LEN {
                    Err(MetricError::InvalidInput)
                } else {
                    Ok((jaro_winkler(input, candidate), None))
                }
            },
            ScoreMetric::Substring => {
                let found = substring_similarity(input, candidate);
                Ok((found.score, found.range))
            },
        }
    }
}

/// Scores a candidate against an input under the metric of the given name.
/// A name that stands for no scoring metric is a configuration error.
pub fn compute_score_for_metric(input: &str, candidate: &str, metric: &str) -> (r: Result<
    (Fraction, Option<MatchRange>),
    MetricError,
>)
    ensures
        match score_metric_named(metric@) {
            None => r is Err && r->Err_0 == MetricError::Configuration,
            Some(m) => if too_long(m, input@, candidate@) {
                r is Err && r->Err_0 == MetricError::InvalidInput
            } else {
                r is Ok && is_range_for(m, input@, candidate@, r->Ok_0.1) && r->Ok_0.0@
                    == score_for(m, input@, candidate@, r->Ok_0.1) && is_unit_score(r->Ok_0.0)
            },
        },
{
    match ScoreMetric::from_name(metric) {
        Ok(m) => m.score(input, candidate),
        Err(e) => Err(e),
    }
}

/// Moves a score a tenth of the way towards one.
pub fn with_prefix_bonus(score: Fraction) -> (r: Fraction)
    requires
        is_unit_score(score),
    ensures
        r@ == prefix_bonus_of(score@),
        r.wf(),
        0 <= r.num <= r.den,
{
    let num = 9 * (score.num as u128) + score.den;
    let den = 10 * score.den;
    if num >= den {
        Fraction::one()
    } else {
        Fraction { num: num as i128, den }
    }
}

/// Whether `text` begins with `prefix`.
pub fn starts_with(text: &Vec<char>, prefix: &Vec<char>) -> (r: bool)
    ensures
        r == prefix@.is_prefix_of(text@),
{
    if prefix.len() > text.len() {
        return false;
    }
    let mut i: usize = 0;
    while i < prefix.len()
        invariant
            i <= prefix.len() <= text.len(),
            forall|x: int| 0 <= x < i ==> prefix[x] == text[x],
        decreases prefix.len() - i,
    {
        if prefix[i] != text[i] {
            assert(text@.subrange(0, prefix.len() as int)[i as int] == text[i as int]);
            return false;
        }
        i += 1;
    }
    assert(prefix@ =~= text@.subrange(0, prefix.len() as int));
    true
}

/// How suggestions are scored, filtered and cut off.
#[derive(Clone, Debug)]
pub struct SuggestionConfig {
    /// Candidates that score below this are left out.
    pub min_score: Fraction,
    /// At most this many suggestions are returned.
    pub max_suggestions: usize,
    /// Name of the scoring metric.
    pub metric: String,
    /// How input and candidates are normalized before they are compared.
    pub normalize_preset: NormalizationPreset,
    /// Whether a candidate that begins with the input earns a bonus.
    pub prefer_prefix: bool,
}

impl SuggestionConfig {
    /// The usual configuration: a minimum score of three fifths, three
    /// suggestions, the Levenshtein metric, standard normalization and no
    /// prefix bonus.
    pub fn new() -> (c: SuggestionConfig)
        ensures
            c.min_score@ == (Ratio { num: 3, den: 5 }),
            c.max_suggestions == 3,
            c.metric@ == "levenshtein"@,
            c.normalize_preset == NormalizationPreset::Standard,
            !c.prefer_prefix,
    {
        SuggestionConfig {
            min_score: Fraction { num: 3, den: 5 },
            max_suggestions: 3,
            metric: "levenshtein".to_owned(),
            normalize_preset: NormalizationPreset::Standard,
            prefer_prefix: false,
        }
    }
}

impl Default for SuggestionConfig {
    /// The usual configuration.
    fn default() -> (c: SuggestionConfig)
        ensures
            c.min_score@ == (Ratio { num: 3, den: 5 }),
            c.max_suggestions == 3,
            c.metric@ == "levenshtein"@,
            c.normalize_preset == NormalizationPreset::Standard,
            !c.prefer_prefix,
    {
        SuggestionConfig::new()
    }
}

/// A candidate with its score.
#[derive(Clone, Debug)]
pub struct SuggestionResult {
    /// The candidate as it was given.
    pub value: String,
    /// The candidate as it was compared.
    pub normalized_value: String,
    /// The score, with the prefix bonus if it was earned.
    pub score: Fraction,
    /// Where the input matched, under the substring metric.
    pub matched_range: Option<MatchRange>,
}

/// What a `SuggestionResult` stands for.
pub ghost struct Suggestion {
    pub value: Seq<char>,
    pub normalized_value: Seq<char>,
    pub score: Ratio,
    pub matched_range: Option<MatchRange>,
}

impl View for SuggestionResult {
    type V = Suggestion;

    open spec fn view(&self) -> Suggestion {
        Suggestion {
            value: self.value@,
            normalized_value: self.normalized_value@,
            score: self.score@,
            matched_range: self.matched_range,
        }
    }
}

/// What a sequence of results stands for.
pub open spec fn suggestions(list: Seq<SuggestionResult>) -> Seq<Suggestion> {
    list.map_values(|e: SuggestionResult| e@)
}

/// The texts of a sequence of strings.
pub open spec fn texts(list: Seq<String>) -> Seq<Seq<char>> {
    list.map_values(|s: String| s@)
}

/// The score of a normalized candidate against a normalized input: the
/// metric's score, with the prefix bonus where it is asked for and the
/// candidate begins with the input.
pub open spec fn entry_score(
    metric: ScoreMetric,
    prefer_prefix: bool,
    input: Seq<char>,
    candidate: Seq<char>,
    range: Option<MatchRange>,
) -> Ratio {
    if prefer_prefix && input.is_prefix_of(candidate) {
        prefix_bonus_of(score_for(metric, input, candidate, range))
    } else {
        score_for(metric, input, candidate, range)
    }
}

/// `entry` is what scoring `candidate` against the normalized `input`
/// gives.
pub open spec fn is_entry(
    metric: ScoreMetric,
    preset: NormalizationPreset,
    prefer_prefix: bool,
    input: Seq<char>,
    candidate: Seq<char>,
    entry: Suggestion,
) -> bool {
    &&& entry.value == candidate
    &&& entry.normalized_value == normalized(candidate, preset, false)
    &&& is_range_for(metric, input, entry.normalized_value, entry.matched_range)
    &&& entry.score == entry_score(
        metric,
        prefer_prefix,
        input,
        entry.normalized_value,
        entry.matched_range,
    )
}

/// `entries` holds, for each candidate in turn, what scoring it against
/// the normalized `input` gives.
pub open spec fn are_entries(
    metric: ScoreMetric,
    preset: NormalizationPreset,
    prefer_prefix: bool,
    input: Seq<char>,
    candidates: Seq<Seq<char>>,
    entries: Seq<Suggestion>,
) -> bool {
    &&& entries.len() == candidates.len()
    &&& forall|k: int|
        0 <= k < candidates.len() ==> is_entry(
            metric,
            preset,
            prefer_prefix,
            input,
            candidates[k],
            #[trigger] entries[k],
        )
}

/// Some candidate, or the input, is too long to be scored exactly.
pub open spec fn any_too_long(
    metric: ScoreMetric,
    preset: NormalizationPreset,
    input: Seq<char>,
    candidates: Seq<Seq<char>>,
) -> bool {
    exists|k: int|
        0 <= k < candidates.len() && too_long(
            metric,
            input,
            normalized(#[trigger] candidates[k], preset, false),
        )
}

/// The scores of a sequence of suggestions.
pub open spec fn scores_of(entries: Seq<Suggestion>) -> Seq<Ratio> {
    entries.map_values(|e: Suggestion| e.score)
}

/// The entries at the given positions, in that order.
pub open spec fn picked(entries: Seq<Suggestion>, order: Seq<usize>) -> Seq<Suggestion> {
    order.map_values(|k: usize| entries[k as int])
}

/// `out` is the ranked list of suggestions for the normalized `input`:
/// every candidate is scored, and the ranking of the scores picks the
/// entries that are returned.
pub open spec fn is_ranked(
    metric: ScoreMetric,
    preset: NormalizationPreset,
    prefer_prefix: bool,
    min_score: Ratio,
    max: int,
    input: Seq<char>,
    candidates: Seq<Seq<char>>,
    out: Seq<Suggestion>,
) -> bool {
    exists|entries: Seq<Suggestion>, order: Seq<usize>|
        {
            &&& are_entries(metric, preset, prefer_prefix, input, candidates, entries)
            &&& #[trigger] is_ranking(scores_of(entries), min_score, max, order)
            &&& out == picked(entries, order)
        }
}

/// Scores one candidate against the normalized input.
fn score_candidate(
    metric: ScoreMetric,
    preset: NormalizationPreset,
    prefer_prefix: bool,
    input: &str,
    input_chars: &Vec<char>,
    candidate: &String,
) -> (r: Result<SuggestionResult, MetricError>)
    requires
        input_chars@ == input@,
    ensures
        too_long(metric, input@, normalized(candidate@, preset, false)) ==> r is Err && r->Err_0
            == MetricError::InvalidInput,
        !too_long(metric, input@, normalized(candidate@, preset, false)) ==> r is Ok && is_entry(
            metric,
            preset,
            prefer_prefix,
            input@,
            candidate@,
            r->Ok_0@,
        ) && r->Ok_0.score.wf(),
{
    let normalized_value = normalize_preset(candidate.as_str(), preset, false);
    match metric.score(input, normalized_value.as_str()) {
        Err(e) => Err(e),
        Ok((raw, matched_range)) => {
            let candidate_chars = chars_of(normalized_value.as_str());
            let score = if prefer_prefix && starts_with(&candidate_chars, input_chars) {
                with_prefix_bonus(raw)
            } else {
                raw
            };
            Ok(SuggestionResult { value: candidate.clone(), normalized_value, score, matched_range })
        },
    }
}

/// Scores every candidate against the normalized input, in the order in
/// which the candidates are given.
pub fn score_candidates(
    metric: ScoreMetric,
    preset: NormalizationPreset,
    prefer_prefix: bool,
    input: &str,
    candidates: &Vec<String>,
) -> (r: Result<Vec<SuggestionResult>, MetricError>)
    ensures
        any_too_long(metric, preset, input@, texts(candidates@)) ==> r is Err && r->Err_0
            == MetricError::InvalidInput,
        !any_too_long(metric, preset, input@, texts(candidates@)) ==> r is Ok && are_entries(
            metric,
            preset,
            prefer_prefix,
            input@,
            texts(candidates@),
            suggestions(r->Ok_0@),
        ) && all_wf(scores_of(suggestions(r->Ok_0@))),
{
    let input_chars = chars_of(input);
    let mut entries: Vec<SuggestionResult> = Vec::new();
    let mut k: usize = 0;
    while k < candidates.len()
        invariant
            k <= candidates.len(),
            input_chars@ == input@,
            entries.len() == k,
            forall|j: int|
                0 <= j < k ==> !too_long(
                    metric,
                    input@,
                    normalized(#[trigger] texts(candidates@)[j], preset, false),
                ),
            forall|j: int|
                0 <= j < k ==> is_entry(
                    metric,
                    preset,
                    prefer_prefix,
                    input@,
                    texts(candidates@)[j],
                    #[trigger] suggestions(entries@)[j],
                ),
            forall|j: int| 0 <= j < k ==> (#[trigger] entries[j]).score.wf(),
        decreases candidates.len() - k,
    {
        assert(texts(candidates@)[k as int] == candidates[k as int]@);
        match score_candidate(metric, preset, prefer_prefix, input, &input_chars, &candidates[k]) {
            Err(e) => {
                return Err(e);
            },
            Ok(entry) => {
                let ghost before = entries@;
                entries.push(entry);
                proof {
                    assert forall|j: int| 0 <= j < k + 1 implies is_entry(
                        metric,
                        preset,
                        prefer_prefix,
                        input@,
                        texts(candidates@)[j],
                        #[trigger] suggestions(entries@)[j],
                    ) by {
                        if j < k {
                            assert(suggestions(entries@)[j] == suggestions(before)[j]);
                        }
                    }
                }
            },
        }
        k += 1;
    }
    proof {
        assert forall|j: int| 0 <= j < entries.len() implies (#[trigger] scores_of(
            suggestions(entries@),
        )[j]).den > 0 by {
            assert(entries[j].score.wf());
        }
    }
    Ok(entries)
}

/// The entries at the given positions, in that order.
fn pick(entries: &Vec<SuggestionResult>, order: &Vec<usize>) -> (out: Vec<SuggestionResult>)
    requires
        forall|p: int| 0 <= p < order.len() ==> (#[trigger] order[p]) < entries.len(),
    ensures
        suggestions(out@) == picked(suggestions(entries@), order@),
{
    let mut out: Vec<SuggestionResult> = Vec::new();
    let mut p: usize = 0;
    while p < order.len()
        invariant
            p <= order.len(),
            out.len() == p,
            forall|q: int| 0 <= q < order.len() ==> (#[trigger] order[q]) < entries.len(),
            forall|q: int| 0 <= q < p ==> (#[trigger] out[q])@ == entries[order[q] as int]@,
        decreases order.len() - p,
    {
        let entry = &entries[order[p]];
        out.push(
            SuggestionResult {
                value: entry.value.clone(),
                normalized_value: entry.normalized_value.clone(),
                score: entry.score,
                matched_range: entry.matched_range,
            },
        );
        p += 1;
    }
    assert(suggestions(out@) =~= picked(suggestions(entries@), order@));
    out
}

/// Ranks candidates against an input.
///
/// Input and candidates are normalized under the configured preset. Each
/// candidate is scored against the input under the configured metric, with
/// a bonus of a tenth of what is missing to one if prefixes are preferred
/// and the candidate begins with the input. Candidates that score below
/// the minimum are left out; the others are listed by falling score,
/// earlier candidates first among equal scores, and the list is cut off
/// after the configured number of entries.
///
/// A metric name that stands for no scoring metric is a configuration
/// error; a text too long for an exact Jaro-Winkler score is an invalid
/// input.
pub fn rank(input: &str, candidates: &Vec<String>, config: &SuggestionConfig) -> (r: Result<
    Vec<SuggestionResult>,
    MetricError,
>)
    ensures
        match score_metric_named(config.metric@) {
            None => r is Err && r->Err_0 == MetricError::Configuration,
            Some(metric) => {
                let input_n = normalized(input@, config.normalize_preset, false);
                if any_too_long(metric, config.normalize_preset, input_n, texts(candidates@)) {
                    r is Err && r->Err_0 == MetricError::InvalidInput
                } else {
                    r is Ok && is_ranked(
                        metric,
                        config.normalize_preset,
                        config.prefer_prefix,
                        config.min_score@,
                        config.max_suggestions as int,
                        input_n,
                        texts(candidates@),
                        suggestions(r->Ok_0@),
                    )
                }
            },
        },
        r is Ok ==> r->Ok_0.len() <= config.max_suggestions,
        r is Ok ==> forall|p: int|
            0 <= p < r->Ok_0.len() ==> config.min_score@.le((#[trigger] r->Ok_0[p]).score@),
{
    let metric = match ScoreMetric::from_name(config.metric.as_str()) {
        Ok(m) => m,
        Err(e) => {
            return Err(e);
        },
    };
    let input_n = normalize_preset(input, config.normalize_preset, false);
    let entries = match score_candidates(
        metric,
        config.normalize_preset,
        config.prefer_prefix,
        input_n.as_str(),
        candidates,
    ) {
        Ok(entries) => entries,
        Err(e) => {
            return Err(e);
        },
    };
    let mut scores: Vec<Fraction> = Vec::new();
    let mut k: usize = 0;
    while k < entries.len()
        invariant
            k <= entries.len(),
            scores.len() == k,
            forall|j: int| 0 <= j < k ==> (#[trigger] scores[j]) == entries[j].score,
        decreases entries.len() - k,
    {
        scores.push(entries[k].score);
        k += 1;
    }
    assert(ratios(scores@) =~= scores_of(suggestions(entries@)));
    let order = rank_order(&scores, &config.min_score, config.max_suggestions);
    proof {
        lemma_ranking_bounds(
            scores_of(suggestions(entries@)),
            config.min_score@,
            config.max_suggestions as int,
            order@,
        );
        assert forall|p: int| 0 <= p < order.len() implies (#[trigger] order[p])
            < entries.len() by {
            assert(passes(
                scores_of(suggestions(entries@)),
                config.min_score@,
                order[p] as int,
            ));
        }
    }
    let out = pick(&entries, &order);
    proof {
        assert(out.len() == suggestions(out@).len());
        assert forall|p: int| 0 <= p < out.len() implies config.min_score@.le(
            (#[trigger] out[p]).score@,
        ) by {
            assert(suggestions(out@)[p] == out[p]@);
            assert(picked(suggestions(entries@), order@)[p] == suggestions(
                entries@,
            )[order[p] as int]);
            assert(scores_of(suggestions(entries@))[order[p] as int] == suggestions(
                entries@,
            )[order[p] as int].score);
        }
    }
    Ok(out)
}

/// One candidate has one entry only.
pub proof fn lemma_entry_unique(
    metric: ScoreMetric,
    preset: NormalizationPreset,
    prefer_prefix: bool,
    input: Seq<char>,
    candidate: Seq<char>,
    first: Suggestion,
    second: Suggestion,
)
    requires
        is_entry(metric, preset, prefer_prefix, input, candidate, first),
        is_entry(metric, preset, prefer_prefix, input, candidate, second),
    ensures
        first == second,
{
    if metric is Substring {
        lemma_match_range_unique(
            input,
            first.normalized_value,
            first.matched_range,
            second.matched_range,
        );
    }
}

/// Ranking is a function of its arguments: two lists that are both the
/// ranked suggestions for the same input, candidates and configuration are
/// the same list, entry by entry and in the same order.
pub proof fn lemma_rank_deterministic(
    metric: ScoreMetric,
    preset: NormalizationPreset,
    prefer_prefix: bool,
    min_score: Ratio,
    max: int,
    input: Seq<char>,
    candidates: Seq<Seq<char>>,
    first: Seq<Suggestion>,
    second: Seq<Suggestion>,
)
    requires
        is_ranked(metric, preset, prefer_prefix, min_score, max, input, candidates, first),
        is_ranked(metric, preset, prefer_prefix, min_score, max, input, candidates, second),
    ensures
        first == second,
{
    let (entries1, order1) = choose|entries: Seq<Suggestion>, order: Seq<usize>|
        {
            &&& are_entries(metric, preset, prefer_prefix, input, candidates, entries)
            &&& #[trigger] is_ranking(scores_of(entries), min_score, max, order)
            &&& first == picked(entries, order)
        };
    let (entries2, order2) = choose|entries: Seq<Suggestion>, order: Seq<usize>|
        {
            &&& are_entries(metric, preset, prefer_prefix, input, candidates, entries)
            &&& #[trigger] is_ranking(scores_of(entries), min_score, max, order)
            &&& second == picked(entries, order)
        };
    assert forall|k: int| 0 <= k < candidates.len() implies entries1[k] == entries2[k] by {
        lemma_entry_unique(
            metric,
            preset,
            prefer_prefix,
            input,
            candidates[k],
            entries1[k],
            entries2[k],
        );
    }
    assert(entries1 =~= entries2);
    lemma_ranking_unique(scores_of(entries1), min_score, max, order1, order2);
}

} // verus!
