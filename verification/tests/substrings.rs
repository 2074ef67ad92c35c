use string_metrics::{substring_similarity, MatchRange};

#[test]
fn cat_in_concatenate() {
    let m = substring_similarity("cat", "concatenate");
    assert_eq!((m.score.num, m.score.den), (6, 14));
    assert_eq!(m.range, Some(MatchRange { start: 3, end: 6 }));
    let score = m.score.num as f64 / m.score.den as f64;
    assert!((score - 0.428571).abs() < 1e-6);
}

#[test]
fn empty_needle_or_haystack_scores_zero() {
    for (needle, haystack) in [("", "abc"), ("abc", ""), ("", "")] {
        let m = substring_similarity(needle, haystack);
        assert_eq!((m.score.num, m.score.den), (0, 1));
        assert_eq!(m.range, None);
    }
}

#[test]
fn nothing_in_common_scores_zero() {
    let m = substring_similarity("abc", "xyz");
    assert_eq!((m.score.num, m.score.den), (0, 1));
    assert_eq!(m.range, None);
}

#[test]
fn equal_strings_score_one() {
    let m = substring_similarity("hello", "hello");
    assert_eq!((m.score.num, m.score.den), (10, 10));
    assert_eq!(m.range, Some(MatchRange { start: 0, end: 5 }));
}

#[test]
fn first_of_several_longest_substrings_wins() {
    // "ab" occurs twice in the haystack; the scan meets the left one first.
    let m = substring_similarity("ab", "xabyab");
    assert_eq!(m.range, Some(MatchRange { start: 1, end: 3 }));
    assert_eq!((m.score.num, m.score.den), (4, 8));
    // Two different substrings of length two: the one that ends earlier in
    // the needle is met first.
    let m = substring_similarity("abcd", "cdxab");
    assert_eq!(m.range, Some(MatchRange { start: 3, end: 5 }));
    let m = substring_similarity("cdab", "abxcd");
    assert_eq!(m.range, Some(MatchRange { start: 3, end: 5 }));
}

#[test]
fn range_counts_code_points() {
    let m = substring_similarity("wörld", "héllo wörld");
    assert_eq!(m.range, Some(MatchRange { start: 6, end: 11 }));
    assert_eq!((m.score.num, m.score.den), (10, 16));
}

#[test]
fn single_common_character() {
    let m = substring_similarity("a", "banana");
    assert_eq!(m.range, Some(MatchRange { start: 1, end: 2 }));
    assert_eq!((m.score.num, m.score.den), (2, 7));
}
