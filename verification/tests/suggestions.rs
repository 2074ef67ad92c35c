use string_metrics::suggest::{starts_with, with_prefix_bonus};
use string_metrics::{
    compute_score_for_metric, rank, rank_order, score_candidates, Fraction, MatchRange,
    MetricError, NormalizationPreset, ScoreMetric, SuggestionConfig, SuggestionResult,
    MAX_JARO_LEN,
};

fn strings(list: &[&str]) -> Vec<String> {
    list.iter().map(|s| s.to_string()).collect()
}

fn values(list: &[SuggestionResult]) -> Vec<String> {
    list.iter().map(|r| r.value.clone()).collect()
}

fn config(metric: &str, min_num: i128, min_den: u128, max: usize) -> SuggestionConfig {
    SuggestionConfig {
        min_score: Fraction { num: min_num, den: min_den },
        max_suggestions: max,
        metric: metric.to_string(),
        normalize_preset: NormalizationPreset::Standard,
        prefer_prefix: false,
    }
}

#[test]
fn default_configuration() {
    let c = SuggestionConfig::new();
    assert_eq!((c.min_score.num, c.min_score.den), (3, 5));
    assert_eq!(c.max_suggestions, 3);
    assert_eq!(c.metric, "levenshtein");
    assert_eq!(c.normalize_preset, NormalizationPreset::Standard);
    assert!(!c.prefer_prefix);
    let d = SuggestionConfig::default();
    assert_eq!((d.min_score.num, d.min_score.den), (3, 5));
    assert_eq!(d.max_suggestions, 3);
    assert_eq!(d.metric, "levenshtein");
    assert_eq!(d.normalize_preset, NormalizationPreset::Standard);
    assert!(!d.prefer_prefix);
}

#[test]
fn candidates_below_the_minimum_are_left_out() {
    let c = SuggestionConfig::new();
    let out = rank("kitten", &strings(&["sitting", "kitten", "mitten"]), &c).unwrap();
    assert_eq!(values(&out), strings(&["kitten", "mitten"]));
    assert_eq!((out[0].score.num, out[0].score.den), (6, 6));
    assert_eq!((out[1].score.num, out[1].score.den), (5, 6));
    assert_eq!(out[0].matched_range, None);
}

#[test]
fn a_score_equal_to_the_minimum_is_kept() {
    let c = SuggestionConfig::new();
    let out = rank("appel", &strings(&["apple"]), &c).unwrap();
    assert_eq!(values(&out), strings(&["apple"]));
    assert_eq!((out[0].score.num, out[0].score.den), (3, 5));
}

#[test]
fn equal_scores_keep_the_order_of_the_candidates() {
    let c = SuggestionConfig::new();
    let list = strings(&["apply", "banana", "ape", "apple"]);
    let out = rank("appel", &list, &c).unwrap();
    assert_eq!(values(&out), strings(&["apply", "ape", "apple"]));
    for r in &out {
        assert_eq!((r.score.num, r.score.den), (3, 5));
    }
}

#[test]
fn higher_scores_come_first() {
    let c = config("levenshtein", 0, 1, 10);
    let list = strings(&["xyz", "abcx", "abc", "ab"]);
    let out = rank("abc", &list, &c).unwrap();
    assert_eq!(values(&out), strings(&["abc", "abcx", "ab", "xyz"]));
    assert_eq!((out[1].score.num, out[1].score.den), (3, 4));
    assert_eq!((out[2].score.num, out[2].score.den), (2, 3));
    assert_eq!((out[3].score.num, out[3].score.den), (0, 3));
}

#[test]
fn the_list_is_cut_off_after_max_suggestions() {
    let list = strings(&["apply", "banana", "ape", "apple"]);
    let out = rank("appel", &list, &config("levenshtein", 3, 5, 2)).unwrap();
    assert_eq!(values(&out), strings(&["apply", "ape"]));
    let out = rank("appel", &list, &config("levenshtein", 3, 5, 1)).unwrap();
    assert_eq!(values(&out), strings(&["apply"]));
    let out = rank("appel", &list, &config("levenshtein", 3, 5, 0)).unwrap();
    assert!(out.is_empty());
}

#[test]
fn ranking_respects_the_limits() {
    let list = strings(&["a", "ab", "abc", "abcd", "abcde", "b", "bc", "xyz", ""]);
    for max in 0..6 {
        for (num, den) in [(0, 1), (1, 4), (1, 2), (3, 4), (1, 1), (2, 1)] {
            let c = config("levenshtein", num, den, max);
            let out = rank("abc", &list, &c).unwrap();
            assert!(out.len() <= max);
            for r in &out {
                assert!(c.min_score.le(&r.score));
            }
            for pair in out.windows(2) {
                assert!(pair[1].score.le(&pair[0].score));
            }
        }
    }
}

#[test]
fn ranking_twice_gives_the_same_list() {
    let list = strings(&["apply", "banana", "ape", "apple", "Apple", " APPLE "]);
    for metric in ["levenshtein", "damerau_osa", "damerau_unrestricted", "jaro_winkler", "substring"] {
        let c = config(metric, 1, 10, 4);
        let first = rank("appel", &list, &c).unwrap();
        let second = rank("appel", &list, &c).unwrap();
        assert_eq!(first.len(), second.len());
        for (x, y) in first.iter().zip(second.iter()) {
            assert_eq!(x.value, y.value);
            assert_eq!(x.normalized_value, y.normalized_value);
            assert_eq!((x.score.num, x.score.den), (y.score.num, y.score.den));
            assert_eq!(x.matched_range, y.matched_range);
        }
    }
}

#[test]
fn input_and_candidates_are_normalized() {
    let c = SuggestionConfig::new();
    let out = rank("  CAF\u{c9} ", &strings(&["cafe\u{301}", " Caf\u{e9}", "tea"]), &c).unwrap();
    assert_eq!(values(&out), strings(&["cafe\u{301}", " Caf\u{e9}"]));
    assert_eq!(out[0].normalized_value, "caf\u{e9}");
    assert_eq!(out[1].normalized_value, "caf\u{e9}");
    assert!(out[0].score.same(&Fraction::one()));
}

#[test]
fn the_preset_decides_what_is_compared() {
    let mut c = config("levenshtein", 9, 10, 3);
    c.normalize_preset = NormalizationPreset::Verbatim;
    let out = rank("ABC", &strings(&["abc", "ABC"]), &c).unwrap();
    assert_eq!(values(&out), strings(&["ABC"]));
    c.normalize_preset = NormalizationPreset::Aggressive;
    let out = rank("a-b-c", &strings(&["ABC!", "\u{e0}bc", "abd"]), &c).unwrap();
    assert_eq!(values(&out), strings(&["ABC!", "\u{e0}bc"]));
    assert_eq!(out[1].normalized_value, "abc");
}

#[test]
fn a_candidate_that_begins_with_the_input_earns_a_bonus() {
    let mut c = config("levenshtein", 0, 1, 5);
    let list = strings(&["nap", "apple", "app"]);
    let plain = rank("app", &list, &c).unwrap();
    assert_eq!(values(&plain), strings(&["app", "apple", "nap"]));
    assert_eq!((plain[1].score.num, plain[1].score.den), (3, 5));
    c.prefer_prefix = true;
    let out = rank("app", &list, &c).unwrap();
    assert_eq!(values(&out), strings(&["app", "apple", "nap"]));
    assert_eq!((out[0].score.num, out[0].score.den), (1, 1));
    assert_eq!((out[1].score.num, out[1].score.den), (32, 50));
    assert_eq!((out[2].score.num, out[2].score.den), (1, 3));
}

#[test]
fn the_bonus_can_lift_a_candidate_over_the_minimum_and_over_others() {
    let mut c = config("levenshtein", 3, 5, 5);
    let list = strings(&["axcde", "abcdefg"]);
    // "abcd" against "axcde": distance 2 of 5; against "abcdefg": 3 of 7.
    let plain = rank("abcd", &list, &c).unwrap();
    assert_eq!(values(&plain), strings(&["axcde"]));
    c.prefer_prefix = true;
    let out = rank("abcd", &list, &c).unwrap();
    assert_eq!(values(&out), strings(&["abcdefg", "axcde"]));
    assert_eq!((out[0].score.num, out[0].score.den), (9 * 4 + 7, 70));
    assert_eq!((out[1].score.num, out[1].score.den), (3, 5));
}

#[test]
fn prefix_bonus_formula() {
    let b = with_prefix_bonus(Fraction { num: 1, den: 2 });
    assert_eq!((b.num, b.den), (11, 20));
    let b = with_prefix_bonus(Fraction { num: 0, den: 1 });
    assert_eq!((b.num, b.den), (1, 10));
    let b = with_prefix_bonus(Fraction { num: 7, den: 7 });
    assert_eq!((b.num, b.den), (1, 1));
}

#[test]
fn starts_with_compares_code_points() {
    let text: Vec<char> = "h\u{e9}llo".chars().collect();
    let yes: Vec<char> = "h\u{e9}".chars().collect();
    let no: Vec<char> = "he".chars().collect();
    let long: Vec<char> = "h\u{e9}llo!".chars().collect();
    assert!(starts_with(&text, &yes));
    assert!(starts_with(&text, &text));
    assert!(starts_with(&text, &Vec::new()));
    assert!(!starts_with(&text, &no));
    assert!(!starts_with(&text, &long));
}

#[test]
fn only_the_substring_metric_reports_a_range() {
    let c = config("substring", 2, 5, 3);
    let out = rank("cat", &strings(&["dog", "Concatenate", "cat"]), &c).unwrap();
    assert_eq!(values(&out), strings(&["cat", "Concatenate"]));
    assert_eq!(out[0].matched_range, Some(MatchRange { start: 0, end: 3 }));
    assert_eq!((out[1].score.num, out[1].score.den), (6, 14));
    assert_eq!(out[1].matched_range, Some(MatchRange { start: 3, end: 6 }));
    for metric in ["levenshtein", "damerau_osa", "damerau_unrestricted", "jaro_winkler"] {
        let out = rank("cat", &strings(&["cat", "cart"]), &config(metric, 0, 1, 3)).unwrap();
        assert_eq!(out.len(), 2);
        assert!(out.iter().all(|r| r.matched_range.is_none()));
    }
}

#[test]
fn metrics_with_transpositions() {
    let list = strings(&["ABC"]);
    let mut c = config("damerau_osa", 0, 1, 3);
    c.normalize_preset = NormalizationPreset::Verbatim;
    let out = rank("CA", &list, &c).unwrap();
    assert_eq!((out[0].score.num, out[0].score.den), (0, 3));
    c.metric = "damerau_unrestricted".to_string();
    let out = rank("CA", &list, &c).unwrap();
    assert_eq!((out[0].score.num, out[0].score.den), (1, 3));
    c.metric = "levenshtein".to_string();
    let out = rank("CA", &list, &c).unwrap();
    assert_eq!((out[0].score.num, out[0].score.den), (0, 3));
}

#[test]
fn jaro_winkler_metric() {
    let mut c = config("jaro_winkler", 9, 10, 3);
    c.normalize_preset = NormalizationPreset::Verbatim;
    let out = rank("MARTHA", &strings(&["MARHTA", "MARTHA", "XYZ"]), &c).unwrap();
    assert_eq!(values(&out), strings(&["MARTHA", "MARHTA"]));
    assert_eq!((out[1].score.num, out[1].score.den), (6228, 6480));
}

#[test]
fn unknown_metric_is_a_configuration_error() {
    for metric in ["", "osa", "damerau_levenshtein", "Levenshtein", "cosine"] {
        let c = config(metric, 0, 1, 3);
        assert!(matches!(
            rank("a", &strings(&["a"]), &c),
            Err(MetricError::Configuration)
        ));
        assert!(matches!(rank("a", &Vec::new(), &c), Err(MetricError::Configuration)));
        assert!(matches!(
            compute_score_for_metric("a", "a", metric),
            Err(MetricError::Configuration)
        ));
        assert_eq!(ScoreMetric::from_name(metric), Err(MetricError::Configuration));
    }
}

#[test]
fn score_metric_names() {
    assert_eq!(ScoreMetric::from_name("levenshtein"), Ok(ScoreMetric::Levenshtein));
    assert_eq!(ScoreMetric::from_name("damerau_osa"), Ok(ScoreMetric::DamerauOsa));
    assert_eq!(
        ScoreMetric::from_name("damerau_unrestricted"),
        Ok(ScoreMetric::DamerauUnrestricted)
    );
    assert_eq!(ScoreMetric::from_name("jaro_winkler"), Ok(ScoreMetric::JaroWinkler));
    assert_eq!(ScoreMetric::from_name("substring"), Ok(ScoreMetric::Substring));
}

#[test]
fn score_for_each_metric() {
    let (s, r) = compute_score_for_metric("kitten", "sitting", "levenshtein").unwrap();
    assert_eq!((s.num, s.den, r), (4, 7, None));
    let (s, r) = compute_score_for_metric("ab", "ba", "damerau_osa").unwrap();
    assert_eq!((s.num, s.den, r), (1, 2, None));
    let (s, r) = compute_score_for_metric("CA", "ABC", "damerau_unrestricted").unwrap();
    assert_eq!((s.num, s.den, r), (1, 3, None));
    let (s, r) = compute_score_for_metric("MARTHA", "MARHTA", "jaro_winkler").unwrap();
    assert_eq!((s.num, s.den, r), (6228, 6480, None));
    let (s, r) = compute_score_for_metric("cat", "concatenate", "substring").unwrap();
    assert_eq!((s.num, s.den, r), (6, 14, Some(MatchRange { start: 3, end: 6 })));
}

#[test]
fn no_candidates_give_no_suggestions() {
    let out = rank("anything", &Vec::new(), &SuggestionConfig::new()).unwrap();
    assert!(out.is_empty());
}

#[test]
fn every_candidate_is_scored_in_turn() {
    let list = strings(&[" B ", "ab", "a"]);
    let out = score_candidates(
        ScoreMetric::Levenshtein,
        NormalizationPreset::Standard,
        true,
        "a",
        &list,
    )
    .unwrap();
    assert_eq!(values(&out), list);
    assert_eq!(out[0].normalized_value, "b");
    assert_eq!((out[0].score.num, out[0].score.den), (0, 1));
    assert_eq!((out[1].score.num, out[1].score.den), (9 * 1 + 2, 20));
    assert_eq!((out[2].score.num, out[2].score.den), (1, 1));
}

#[test]
fn order_of_scores() {
    let f = |num: i128, den: u128| Fraction { num, den };
    let scores = vec![f(1, 2), f(3, 4), f(6, 8), f(1, 10), f(9, 10), f(1, 5)];
    assert_eq!(rank_order(&scores, &f(1, 5), 10), vec![4, 1, 2, 0, 5]);
    assert_eq!(rank_order(&scores, &f(1, 5), 3), vec![4, 1, 2]);
    assert_eq!(rank_order(&scores, &f(3, 4), 3), vec![4, 1, 2]);
    assert_eq!(rank_order(&scores, &f(19, 20), 3), Vec::<usize>::new());
    assert_eq!(rank_order(&scores, &f(-1, 1), 0), Vec::<usize>::new());
    assert_eq!(rank_order(&Vec::new(), &f(0, 1), 3), Vec::<usize>::new());
}

#[test]
fn the_jaro_limit_is_four_thousand_million_code_points() {
    assert_eq!(MAX_JARO_LEN as u64, u32::MAX as u64);
}
