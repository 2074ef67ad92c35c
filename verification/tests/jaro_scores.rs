use string_metrics::jaro::{clamp_prefix, clamp_scale, common_prefix_len, jaro_counts};
use string_metrics::{jaro, jaro_winkler, jaro_winkler_with_params, Fraction};

fn value(f: &Fraction) -> f64 {
    f.num as f64 / f.den as f64
}

fn close(x: f64, y: f64) -> bool {
    (x - y).abs() < 1e-9
}

fn chars(s: &str) -> Vec<char> {
    s.chars().collect()
}

#[test]
fn jaro_of_martha_and_marhta() {
    let s = jaro("MARTHA", "MARHTA");
    assert_eq!((s.num, s.den), (612, 648));
    assert!(close(value(&s), 17.0 / 18.0));
}

#[test]
fn jaro_winkler_of_martha_and_marhta() {
    let s = jaro_winkler("MARTHA", "MARHTA");
    assert_eq!((s.num, s.den), (6228, 6480));
    assert!((value(&s) - 0.961).abs() < 1e-3);
    assert!(close(value(&s), 0.9611111111));
}

#[test]
fn jaro_counts_matches_and_transpositions() {
    assert_eq!(jaro_counts(&chars("MARTHA"), &chars("MARHTA")), (6, 1));
    assert_eq!(jaro_counts(&chars("DIXON"), &chars("DICKSONX")), (4, 0));
    assert_eq!(jaro_counts(&chars("CRATE"), &chars("TRACE")), (3, 0));
    assert_eq!(jaro_counts(&chars("abc"), &chars("xyz")), (0, 0));
    assert_eq!(jaro_counts(&chars(""), &chars("")), (0, 0));
    assert_eq!(jaro_counts(&chars("a"), &chars("a")), (1, 0));
    assert_eq!(jaro_counts(&chars("ab"), &chars("ba")), (0, 0));
}

#[test]
fn jaro_of_dixon_and_dicksonx() {
    let s = jaro("DIXON", "DICKSONX");
    assert!(close(value(&s), (4.0 / 5.0 + 4.0 / 8.0 + 1.0) / 3.0));
    let w = jaro_winkler("DIXON", "DICKSONX");
    let j = value(&s);
    assert!(close(value(&w), j + 2.0 * 0.1 * (1.0 - j)));
}

#[test]
fn jaro_without_matches_is_zero() {
    let s = jaro("abc", "xyz");
    assert_eq!((s.num, s.den), (0, 1));
    let s = jaro("", "");
    assert_eq!((s.num, s.den), (0, 1));
    let s = jaro("", "abc");
    assert_eq!((s.num, s.den), (0, 1));
    let s = jaro_winkler("abc", "xyz");
    assert!(close(value(&s), 0.0));
}

#[test]
fn jaro_of_equal_strings_is_one() {
    let s = jaro("similar", "similar");
    assert!(s.same(&Fraction::one()));
    let s = jaro_winkler("similar", "similar");
    assert_eq!((s.num, s.den), (1, 1));
    let s = jaro_winkler_with_params("similar", "similar", Fraction { num: 1, den: 4 }, 8);
    assert_eq!((s.num, s.den), (1, 1));
}

#[test]
fn prefix_scale_is_clamped() {
    let low = clamp_scale(Fraction { num: -1, den: 10 });
    assert_eq!((low.num, low.den), (0, 1));
    let high = clamp_scale(Fraction { num: 1, den: 2 });
    assert_eq!((high.num, high.den), (1, 4));
    let kept = clamp_scale(Fraction { num: 1, den: 10 });
    assert_eq!((kept.num, kept.den), (1, 10));
    let edge = clamp_scale(Fraction { num: 1, den: 4 });
    assert_eq!((edge.num, edge.den), (1, 4));
    let a = jaro_winkler_with_params("MARTHA", "MARHTA", Fraction { num: 9, den: 10 }, 4);
    let b = jaro_winkler_with_params("MARTHA", "MARHTA", Fraction { num: 1, den: 4 }, 4);
    assert_eq!((a.num, a.den), (b.num, b.den));
    let c = jaro_winkler_with_params("MARTHA", "MARHTA", Fraction { num: -3, den: 10 }, 4);
    assert!(c.same(&jaro("MARTHA", "MARHTA")));
}

#[test]
fn prefix_limit_is_clamped() {
    assert_eq!(clamp_prefix(0), 1);
    assert_eq!(clamp_prefix(1), 1);
    assert_eq!(clamp_prefix(4), 4);
    assert_eq!(clamp_prefix(8), 8);
    assert_eq!(clamp_prefix(9), 8);
    assert_eq!(clamp_prefix(usize::MAX), 8);
    let tenth = Fraction { num: 1, den: 10 };
    let none = jaro_winkler_with_params("MARTHA", "MARHTA", tenth, 0);
    let one = jaro_winkler_with_params("MARTHA", "MARHTA", tenth, 1);
    assert_eq!((none.num, none.den), (one.num, one.den));
    let j = 17.0 / 18.0;
    assert!(close(value(&one), j + 1.0 * 0.1 * (1.0 - j)));
}

#[test]
fn jaro_winkler_with_params_follows_the_formula() {
    let j = 17.0 / 18.0;
    let s = jaro_winkler_with_params("MARTHA", "MARHTA", Fraction { num: 1, den: 10 }, 4);
    assert!(close(value(&s), j + 3.0 * 0.1 * (1.0 - j)));
    let s = jaro_winkler_with_params("MARTHA", "MARHTA", Fraction { num: 1, den: 5 }, 2);
    assert!(close(value(&s), j + 2.0 * 0.2 * (1.0 - j)));
    let s = jaro_winkler_with_params("MARTHA", "MARHTA", Fraction { num: 1, den: 4 }, 8);
    assert!(close(value(&s), j + 3.0 * 0.25 * (1.0 - j)));
}

#[test]
fn jaro_winkler_is_capped_at_one() {
    let quarter = Fraction { num: 1, den: 4 };
    let s = jaro_winkler_with_params("abcdefgh", "abcdefgx", quarter, 8);
    assert!(s.le(&Fraction::one()));
    let j = value(&jaro("abcdefgh", "abcdefgx"));
    let expected = (j + 7.0 * 0.25 * (1.0 - j)).min(1.0);
    assert!(close(value(&s), expected));
    assert_eq!((s.num, s.den), (1, 1));
}

#[test]
fn common_prefix_stops_at_the_limit() {
    assert_eq!(common_prefix_len(&chars("MARTHA"), &chars("MARHTA"), 4), 3);
    assert_eq!(common_prefix_len(&chars("prefix"), &chars("prefab"), 4), 4);
    assert_eq!(common_prefix_len(&chars("prefix"), &chars("prefab"), 2), 2);
    assert_eq!(common_prefix_len(&chars("abc"), &chars("abc"), 8), 3);
    assert_eq!(common_prefix_len(&chars(""), &chars("abc"), 8), 0);
    assert_eq!(common_prefix_len(&chars("xbc"), &chars("abc"), 8), 0);
}
