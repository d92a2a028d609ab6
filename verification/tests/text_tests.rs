use kickstart::text::{
    eq_str, i64_to_string, is_path_within, parse_i64, parse_usize, replace_dollars,
    starts_with_str, u64_to_string,
};

#[test]
fn integers_format_in_decimal() {
    assert_eq!(u64_to_string(0), "0");
    assert_eq!(u64_to_string(7), "7");
    assert_eq!(u64_to_string(90210), "90210");
    assert_eq!(u64_to_string(u64::MAX), "18446744073709551615");
    assert_eq!(i64_to_string(0), "0");
    assert_eq!(i64_to_string(42), "42");
    assert_eq!(i64_to_string(-42), "-42");
    assert_eq!(i64_to_string(i64::MIN), "-9223372036854775808");
    assert_eq!(i64_to_string(i64::MAX), "9223372036854775807");
}

#[test]
fn numerals_parse_like_std() {
    for s in ["0", "42", "+7", "-13", "9223372036854775807", "-9223372036854775808", "", "x", "1 ",
        "--2", "9223372036854775808"] {
        assert_eq!(parse_i64(s), s.parse::<i64>().ok(), "on {:?}", s);
    }
    for s in ["0", "42", "+7", "18446744073709551615", "18446744073709551616", "-1", "", "y"] {
        assert_eq!(parse_usize(s), s.parse::<usize>().ok(), "on {:?}", s);
    }
}

#[test]
fn dollar_escapes_translate_to_pipes() {
    assert_eq!(replace_dollars("a$$b"), "a|b");
    assert_eq!(replace_dollars("$$"), "|");
    assert_eq!(replace_dollars("$$$"), "|$");
    assert_eq!(replace_dollars("$$$$"), "||");
    assert_eq!(replace_dollars("no dollars"), "no dollars");
    assert_eq!(replace_dollars("$x"), "$x");
    assert_eq!(replace_dollars(""), "");
}

#[test]
fn string_helpers_compare_by_content() {
    assert!(eq_str("abc", "abc"));
    assert!(!eq_str("abc", "abd"));
    assert!(starts_with_str("abc/def", "abc/"));
    assert!(!starts_with_str("ab", "abc"));
}

#[test]
fn path_containment_is_component_aware() {
    assert!(is_path_within("/out", "/out"));
    assert!(is_path_within("/out", "/out/a/b"));
    assert!(!is_path_within("/out", "/outside"));
    assert!(!is_path_within("/out", "/etc/passwd"));
    assert!(is_path_within("/out/", "/out/a"));
}
