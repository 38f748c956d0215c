use sleuth::pathset::PathSet;
use sleuth::text::{
    after_last_slash, chars_of, decimal_string, ends_with, replace_all, sort_strings, starts_with,
    string_of,
};

#[test]
fn decimal_writes_numbers_like_format() {
    for n in [0usize, 7, 10, 42, 99, 100, 1234, 90210, usize::MAX] {
        assert_eq!(decimal_string(n), format!("{}", n));
    }
}

#[test]
fn replace_all_swaps_every_occurrence() {
    assert_eq!(replace_all(&"hr-7024-118".to_string(), '-', '·'), "hr·7024·118");
    assert_eq!(replace_all(&"section_2_a".to_string(), '_', ' '), "section 2 a");
    assert_eq!(replace_all(&"plain".to_string(), '-', '·'), "plain");
    assert_eq!(replace_all(&String::new(), '-', '·'), "");
}

#[test]
fn after_last_slash_takes_the_last_piece() {
    assert_eq!(after_last_slash(&"usc/title_7/section_2".to_string()), "section_2");
    assert_eq!(after_last_slash(&"noslash".to_string()), "noslash");
    assert_eq!(after_last_slash(&"trailing/".to_string()), "");
    assert_eq!(after_last_slash(&String::new()), "");
}

#[test]
fn prefix_and_suffix_tests() {
    let s = "usc/title_7/chapter_1".to_string();
    assert!(starts_with(&s, &"usc/title_7".to_string()));
    assert!(starts_with(&s, &String::new()));
    assert!(!starts_with(&s, &"usc/title_8".to_string()));
    assert!(!starts_with(&"ab".to_string(), &"abc".to_string()));
    assert!(ends_with(&s, &"chapter_1".to_string()));
    assert!(!ends_with(&s, &"chapter_2".to_string()));
    assert!(!ends_with(&"a".to_string(), &"ba".to_string()));
}

#[test]
fn chars_round_trip() {
    let cs = chars_of("a·b");
    assert_eq!(cs, vec!['a', '·', 'b']);
    assert_eq!(string_of(&cs), "a·b");
}

#[test]
fn sort_strings_sorts_like_std() {
    let v: Vec<String> = ["b", "a/c", "a", "é", "a/b", "B", "a"].iter().map(|s| s.to_string()).collect();
    let mut expected = v.clone();
    expected.sort();
    assert_eq!(sort_strings(v), expected);
}

#[test]
fn path_set_holds_each_path_once() {
    let mut s = PathSet::new();
    assert!(s.is_empty());
    s.insert("b".to_string());
    s.insert("a/x".to_string());
    s.insert("b".to_string());
    assert!(!s.is_empty());
    assert!(s.contains(&"b".to_string()));
    assert!(!s.contains(&"a".to_string()));
    assert_eq!(s.sorted_paths(), vec!["a/x".to_string(), "b".to_string()]);
    assert!(s.any_starts_with(&"a".to_string()));
    assert!(!s.any_starts_with(&"c".to_string()));
    s.remove(&"b".to_string());
    assert!(!s.contains(&"b".to_string()));
    s.remove(&"zzz".to_string());
    assert_eq!(s.sorted_paths(), vec!["a/x".to_string()]);
    s.clear();
    assert!(s.is_empty());
}
