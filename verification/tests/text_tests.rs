use catalog_core::text::{find_char, i32_to_string, json_escape, parse_i32, str_contains, str_eq,
    usize_to_string};
use catalog_core::upload::image_extension_accepted;

#[test]
fn decimal_printing() {
    assert_eq!(usize_to_string(0), "0");
    assert_eq!(usize_to_string(7), "7");
    assert_eq!(usize_to_string(123), "123");
    assert_eq!(usize_to_string(1000), "1000");
    assert_eq!(i32_to_string(0), "0");
    assert_eq!(i32_to_string(-45), "-45");
    assert_eq!(i32_to_string(2147483647), "2147483647");
    assert_eq!(i32_to_string(-2147483648), "-2147483648");
}

#[test]
fn decimal_parsing_accepts_what_std_accepts() {
    assert_eq!(parse_i32("123"), Some(123));
    assert_eq!(parse_i32("-1"), Some(-1));
    assert_eq!(parse_i32("+12"), Some(12));
    assert_eq!(parse_i32("0"), Some(0));
    assert_eq!(parse_i32("2147483647"), Some(2147483647));
    assert_eq!(parse_i32("-2147483648"), Some(-2147483648));
}

#[test]
fn decimal_parsing_rejects_what_std_rejects() {
    assert_eq!(parse_i32(""), None);
    assert_eq!(parse_i32("-"), None);
    assert_eq!(parse_i32("+"), None);
    assert_eq!(parse_i32("12a"), None);
    assert_eq!(parse_i32(" 1"), None);
    assert_eq!(parse_i32("2147483648"), None);
    assert_eq!(parse_i32("-2147483649"), None);
    assert_eq!(parse_i32("99999999999999999999"), None);
}

#[test]
fn parsing_agrees_with_std_on_samples() {
    for s in ["0", "-0", "42", "-42", "007", "2147483647", "-2147483648", "21474836470", "x", ""] {
        assert_eq!(parse_i32(s), s.parse::<i32>().ok(), "on input {:?}", s);
    }
}

#[test]
fn substring_containment() {
    assert!(str_contains("hello world", "lo wo"));
    assert!(str_contains("abc", ""));
    assert!(str_contains("abc", "abc"));
    assert!(!str_contains("abc", "abcd"));
    assert!(!str_contains("abc", "ac"));
}

#[test]
fn character_search_and_equality() {
    assert_eq!(find_char("a|b|c", '|'), Some(1));
    assert_eq!(find_char("abc", '|'), None);
    assert!(str_eq("same", "same"));
    assert!(!str_eq("same", "sane"));
    assert!(!str_eq("same", "sames"));
}

#[test]
fn json_escaping() {
    assert_eq!(json_escape("plain"), "plain");
    assert_eq!(json_escape("a\"b"), "a\\\"b");
    assert_eq!(json_escape("back\\slash"), "back\\\\slash");
    assert_eq!(json_escape("line\nbreak\ttab\rret"), "line\\nbreak\\ttab\\rret");
    assert_eq!(json_escape("\u{8}\u{c}"), "\\b\\f");
    assert_eq!(json_escape("\u{1}\u{1f}"), "\\u0001\\u001f");
}

#[test]
fn image_extensions() {
    for good in ["jpg", "png", "jpeg", "gif", "webp"] {
        assert!(image_extension_accepted(good));
    }
    for bad in ["bmp", "JPG", "", "svg"] {
        assert!(!image_extension_accepted(bad));
    }
}
