use fdupe::distance::edit_distance;
use fdupe::distance::edit_distance_units;

#[test]
fn test_edit_distance() {
    assert_eq!(2, edit_distance("hello", "holla"));
    assert_eq!(2, edit_distance("hell", "holla"));
    assert_eq!(3, edit_distance("abc", "def"));
    assert_eq!(1, edit_distance("忠犬ハチ公", "忠犬ハチ"));
    assert_eq!(2, edit_distance("犬ハチ公", "忠犬ハチ"));
}

#[test]
fn test_identity() {
    assert_eq!(0, edit_distance("", ""));
    assert_eq!(0, edit_distance("abc", "abc"));
    assert_eq!(0, edit_distance("忠犬ハチ公", "忠犬ハチ公"));
    assert_eq!(0, edit_distance("a\u{310}e\u{301}", "a\u{310}e\u{301}"));
}

#[test]
fn test_symmetry() {
    assert_eq!(edit_distance("hello", "holla"), edit_distance("holla", "hello"));
    assert_eq!(edit_distance("", "abc"), edit_distance("abc", ""));
    assert_eq!(edit_distance("忠犬ハチ公", "犬ハチ"), edit_distance("犬ハチ", "忠犬ハチ公"));
}

#[test]
fn test_triangle() {
    let trios = [
        ("hello", "holla", "hell"),
        ("abc", "def", ""),
        ("忠犬ハチ公", "犬ハチ公", "忠犬ハチ"),
    ];
    for (a, b, c) in trios {
        assert!(edit_distance(a, b) <= edit_distance(a, c) + edit_distance(c, b));
        assert!(edit_distance(b, c) <= edit_distance(b, a) + edit_distance(a, c));
    }
}

#[test]
fn test_empty_and_bounds() {
    assert_eq!(3, edit_distance("", "abc"));
    assert_eq!(5, edit_distance("hello", ""));
    // at least the length difference, at most the longer length
    let d = edit_distance("kitten", "sitting");
    assert!(d >= 1);
    assert!(d <= 7);
    assert_eq!(3, edit_distance("kitten", "sitting"));
}

#[test]
fn test_edit_distance_units() {
    let ab_c: Vec<String> = vec!["ab".to_string(), "c".to_string()];
    let ab: Vec<String> = vec!["ab".to_string()];
    let x_c: Vec<String> = vec!["x".to_string(), "c".to_string()];
    let none: Vec<String> = vec![];
    // each entry is one unit, whatever its length in characters
    assert_eq!(1, edit_distance_units(&ab_c, &ab));
    assert_eq!(1, edit_distance_units(&ab_c, &x_c));
    assert_eq!(2, edit_distance_units(&ab_c, &none));
    assert_eq!(0, edit_distance_units(&ab_c, &ab_c));
    assert_eq!(0, edit_distance_units(&none, &none));
}

#[test]
fn test_grapheme_units() {
    // a combining mark makes one user-perceived character with its base:
    // "e" + combining acute is one unit away from "e", not two
    assert_eq!(1, edit_distance("e\u{301}", "e"));
    // two combined units against their bases: two substitutions
    assert_eq!(2, edit_distance("a\u{310}e\u{301}", "ae"));
}
