use pm3::decimal::{decimal_chars, parse_u64};
use pm3::text::{
    chars_of, clone_opt_string, clone_pairs, join_strings, string_of, string_of_range,
};

fn chars(text: &str) -> Vec<char> {
    text.chars().collect()
}

#[test]
fn strings_and_characters() {
    assert_eq!(chars_of("héllo"), vec!['h', 'é', 'l', 'l', 'o']);
    assert_eq!(chars_of(""), Vec::<char>::new());
    assert_eq!(string_of(&chars("héllo")), "héllo");
    assert_eq!(string_of_range(&chars("héllo"), 1, 3), "él");
    assert_eq!(string_of_range(&chars("héllo"), 2, 2), "");
}

#[test]
fn joining() {
    let list = |items: &[&str]| items.iter().map(|s| s.to_string()).collect::<Vec<String>>();
    assert_eq!(join_strings(&list(&[]), ", "), "");
    assert_eq!(join_strings(&list(&["web"]), ", "), "web");
    assert_eq!(join_strings(&list(&["web", "worker", "db"]), ", "), "web, worker, db");
    assert_eq!(join_strings(&list(&["", ""]), "-"), "-");
}

#[test]
fn copies_are_equal() {
    assert_eq!(clone_opt_string(&Some("a".to_string())), Some("a".to_string()));
    assert_eq!(clone_opt_string(&None), None);
    let pairs = vec![("k".to_string(), "v".to_string())];
    assert_eq!(clone_pairs(&pairs), pairs);
}

#[test]
fn numbers_in_decimal() {
    assert_eq!(decimal_chars(0), chars("0"));
    assert_eq!(decimal_chars(7), chars("7"));
    assert_eq!(decimal_chars(10), chars("10"));
    assert_eq!(decimal_chars(4711), chars("4711"));
    assert_eq!(decimal_chars(u64::MAX), chars("18446744073709551615"));
}

#[test]
fn decimal_is_read_back() {
    assert_eq!(parse_u64(&chars("0")), Some(0));
    assert_eq!(parse_u64(&chars("007")), Some(7));
    assert_eq!(parse_u64(&chars("4711")), Some(4711));
    assert_eq!(parse_u64(&chars("18446744073709551615")), Some(u64::MAX));
    assert_eq!(parse_u64(&chars("18446744073709551616")), None);
    assert_eq!(parse_u64(&chars("99999999999999999999")), None);
    assert_eq!(parse_u64(&chars("")), None);
    assert_eq!(parse_u64(&chars("12a")), None);
    assert_eq!(parse_u64(&chars("-1")), None);
    assert_eq!(parse_u64(&chars("١٢")), None);
    for n in [0u64, 1, 9, 10, 11, 99, 100, 101, 12345678901234567890] {
        assert_eq!(parse_u64(&decimal_chars(n)), Some(n));
    }
}
