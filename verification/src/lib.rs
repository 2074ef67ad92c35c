//! String similarity metrics with exact rational scores.
//!
//! Texts are sequences of Unicode code points. Distances are integers and
//! scores are fractions of integers, so that every result is exact and two
//! scores can be compared without rounding.

pub mod edit_distance;
pub mod edit_laws;
pub mod fraction;
pub mod jaro;
pub mod normalize;
pub mod ranking;
pub mod similarity;
pub mod substring;
pub mod suggest;
pub mod text;

pub use edit_distance::{
    damerau_levenshtein, indel_distance, lcs_seq_distance, lcs_seq_similarity, levenshtein,
    osa_distance,
};
pub use fraction::Fraction;
pub use jaro::{jaro, jaro_winkler, jaro_winkler_with_params, MAX_JARO_LEN, MAX_SCALE_DEN};
pub use normalize::{
    case_fold, case_fold_with_locale, normalize, normalize_preset, normalize_with_locale,
    preset_from_name, NormalizationPreset,
};
pub use ranking::rank_order;
pub use similarity::{
    distance, indel_normalized_similarity, lcs_seq_normalized_similarity,
    normalized_damerau_levenshtein, normalized_levenshtein, normalized_osa_similarity,
    normalized_similarity, ratio, similarity, DistanceMetric, DistanceResult, MetricError,
};
pub use substring::{substring_similarity, MatchRange, SubstringMatch};
pub use suggest::{
    compute_score_for_metric, rank, score_candidates, ScoreMetric, SuggestionConfig,
    SuggestionResult,
};
