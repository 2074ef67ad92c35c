use string_metrics::{
    indel_normalized_similarity, lcs_seq_normalized_similarity, normalized_damerau_levenshtein,
    normalized_levenshtein, normalized_osa_similarity, normalized_similarity, ratio, similarity,
    DistanceMetric, Fraction, MetricError,
};

fn value(f: &Fraction) -> f64 {
    f.num as f64 / f.den as f64
}

fn close(x: f64, y: f64) -> bool {
    (x - y).abs() < 1e-9
}

const SAMPLES: [&str; 7] = ["", "a", "ab", "ba", "kitten", "sitting", "Łódź"];

#[test]
fn levenshtein_similarity_of_kitten_and_sitting() {
    let s = normalized_levenshtein("kitten", "sitting");
    assert_eq!((s.num, s.den), (4, 7));
    assert!(close(value(&s), 0.571428571));
}

#[test]
fn similarity_is_one_less_distance_over_longer_length() {
    let s = normalized_similarity(2, 3, 5);
    assert_eq!((s.num, s.den), (3, 5));
    let s = normalized_similarity(0, 4, 4);
    assert_eq!((s.num, s.den), (4, 4));
    let s = normalized_similarity(6, 3, 3);
    assert_eq!((s.num, s.den), (-3, 3));
}

#[test]
fn similarity_of_two_empty_strings_is_one() {
    let s = normalized_similarity(0, 0, 0);
    assert_eq!((s.num, s.den), (1, 1));
    for metric in [
        DistanceMetric::Levenshtein,
        DistanceMetric::Osa,
        DistanceMetric::DamerauLevenshtein,
        DistanceMetric::Indel,
        DistanceMetric::LcsSeq,
    ] {
        let s = metric.similarity("", "");
        assert!(s.same(&Fraction::one()));
    }
}

#[test]
fn similarity_to_self_is_one() {
    for s in SAMPLES {
        assert!(normalized_levenshtein(s, s).same(&Fraction::one()));
        assert!(normalized_osa_similarity(s, s).same(&Fraction::one()));
        assert!(normalized_damerau_levenshtein(s, s).same(&Fraction::one()));
        assert!(indel_normalized_similarity(s, s).same(&Fraction::one()));
        assert!(lcs_seq_normalized_similarity(s, s).same(&Fraction::one()));
    }
}

#[test]
fn similarities_with_substitution_lie_between_zero_and_one() {
    for a in SAMPLES {
        for b in SAMPLES {
            for s in [
                normalized_levenshtein(a, b),
                normalized_osa_similarity(a, b),
                normalized_damerau_levenshtein(a, b),
            ] {
                assert!(Fraction::zero().le(&s));
                assert!(s.le(&Fraction::one()));
            }
        }
    }
}

#[test]
fn osa_and_damerau_similarity_of_the_counter_example() {
    let s = normalized_osa_similarity("CA", "ABC");
    assert_eq!((s.num, s.den), (0, 3));
    let s = normalized_damerau_levenshtein("CA", "ABC");
    assert_eq!((s.num, s.den), (1, 3));
}

#[test]
fn indel_similarity_uses_the_longer_length() {
    let s = indel_normalized_similarity("lewenstein", "levenshtein");
    assert_eq!((s.num, s.den), (8, 11));
    let s = lcs_seq_normalized_similarity("lewenstein", "levenshtein");
    assert_eq!((s.num, s.den), (8, 11));
}

#[test]
fn indel_similarity_of_disjoint_strings_is_below_zero() {
    let s = indel_normalized_similarity("abc", "xyz");
    assert_eq!((s.num, s.den), (-3, 3));
    assert!(s.lt(&Fraction::zero()));
}

#[test]
fn ratio_is_a_percentage() {
    let r = ratio("lewenstein", "levenshtein");
    assert_eq!((r.num, r.den), (800, 11));
    let r = ratio("same", "same");
    assert!(close(value(&r), 100.0));
    let r = ratio("", "");
    assert!(close(value(&r), 100.0));
    let r = ratio("abcd", "abxy");
    assert!(close(value(&r), 0.0));
}

#[test]
fn similarity_by_name() {
    let s = similarity("levenshtein", "kitten", "sitting").unwrap();
    assert_eq!((s.num, s.den), (4, 7));
    let s = similarity("damerau_levenshtein", "CA", "ABC").unwrap();
    assert_eq!((s.num, s.den), (1, 3));
    let s = similarity("osa", "ab", "ba").unwrap();
    assert_eq!((s.num, s.den), (1, 2));
    let s = similarity("indel", "ab", "ab").unwrap();
    assert_eq!((s.num, s.den), (2, 2));
    let s = similarity("lcs_seq", "ab", "abc").unwrap();
    assert_eq!((s.num, s.den), (2, 3));
}

#[test]
fn unknown_similarity_metric_is_a_configuration_error() {
    assert!(matches!(
        similarity("cosine", "a", "b"),
        Err(MetricError::Configuration)
    ));
}

#[test]
fn measure_gives_distance_and_similarity() {
    let r = DistanceMetric::Levenshtein.measure("kitten", "sitting");
    assert_eq!(r.distance, 3);
    assert_eq!((r.normalized_similarity.num, r.normalized_similarity.den), (4, 7));
}
