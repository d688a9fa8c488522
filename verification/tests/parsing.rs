use dashium_core::num::{is_numeric, parse_i16_list, parse_i32_list, parse_i32_list_in_parens, parse_i32_or_zero};
use dashium_core::text::{is_ascii_alphanumeric, name_contains_ci, str_eq};

#[test]
fn list_drops_unparsable_tokens() {
    assert_eq!(parse_i32_list("1,2,x,3"), vec![1, 2, 3]);
    assert_eq!(parse_i16_list("4,,oops,7"), vec![4, 7]);
}

#[test]
fn list_trims_whitespace() {
    assert_eq!(parse_i32_list(" 42 , 7"), vec![42, 7]);
}

#[test]
fn list_of_sentinel_dash_is_empty() {
    assert_eq!(parse_i32_list("-"), Vec::<i32>::new());
    assert_eq!(parse_i16_list(""), Vec::<i16>::new());
}

#[test]
fn list_drops_out_of_range_values() {
    assert_eq!(parse_i32_list("2147483648,5"), vec![5]);
    assert_eq!(parse_i32_list("-2147483648"), vec![-2147483648]);
    assert_eq!(parse_i16_list("32768,32767"), vec![32767]);
    assert_eq!(parse_i32_list("99999999999999999999"), Vec::<i32>::new());
}

#[test]
fn parens_are_stripped_before_parsing() {
    assert_eq!(parse_i32_list_in_parens("(1,2,3)"), vec![1, 2, 3]);
    assert_eq!(parse_i32_list_in_parens("10,11"), vec![10, 11]);
}

#[test]
fn free_text_id_falls_back_to_zero() {
    assert_eq!(parse_i32_or_zero("123"), 123);
    assert_eq!(parse_i32_or_zero("abc"), 0);
    assert_eq!(parse_i32_or_zero("2147483648"), 0);
    assert_eq!(parse_i32_or_zero("-7"), -7);
}

#[test]
fn numeric_test_requires_digits_only() {
    assert!(is_numeric("0123"));
    assert!(!is_numeric(""));
    assert!(!is_numeric("12a"));
    assert!(!is_numeric("-5"));
}

#[test]
fn alphanumeric_test() {
    assert!(is_ascii_alphanumeric("abc123XYZ"));
    assert!(is_ascii_alphanumeric(""));
    assert!(!is_ascii_alphanumeric("a_b"));
    assert!(!is_ascii_alphanumeric("héllo"));
}

#[test]
fn string_equality_is_exact() {
    assert!(str_eq("abc", "abc"));
    assert!(!str_eq("abc", "abd"));
    assert!(!str_eq("abc", "ab"));
}

#[test]
fn name_match_ignores_ascii_case() {
    assert!(name_contains_ci("Aurora Borealis", "ROR"));
    assert!(name_contains_ci("Aurora", ""));
    assert!(!name_contains_ci("Aurora", "xyz"));
    assert!(name_contains_ci("aBc", "AbC"));
}
