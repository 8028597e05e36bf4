use aegis::string_map::StringMap;
use aegis::text::{
    collapse_whitespace, concat3, contains, debug_quote, decimal, ends_with, eq_ignore_ascii_case,
    find, is_ascii_alphanumeric, is_whitespace, normalize_text, starts_with, str_less,
    string_from_utf8, to_lowercase, trim, trim_end, trim_end_char, trim_start_char,
};

#[test]
fn whitespace_is_what_unicode_says() {
    for c in char::MIN..=char::MAX {
        assert_eq!(is_whitespace(c), c.is_whitespace(), "{c:?}");
        assert_eq!(is_ascii_alphanumeric(c), c.is_ascii_alphanumeric(), "{c:?}");
    }
}

#[test]
fn trimming_takes_the_ends_only() {
    assert_eq!(trim("  a b\u{2003}"), "a b");
    assert_eq!(trim(" \n\t"), "");
    assert_eq!(trim_end(" a \n"), " a");
    assert_eq!(trim_start_char("..a.b.", '.'), "a.b.");
    assert_eq!(trim_end_char("//a//", '/'), "//a");
}

#[test]
fn normalizing_joins_words_in_lower_case() {
    assert_eq!(normalize_text("  Sign \n IN  "), "sign in");
    assert_eq!(collapse_whitespace("a  b\tc"), "a b c");
    assert_eq!(to_lowercase("\u{c4}\u{d6}X"), "\u{e4}\u{f6}x");
    assert_eq!(normalize_text(""), "");
}

#[test]
fn searching_counts_characters() {
    assert!(contains("haystack", "st"));
    assert!(!contains("haystack", "ts"));
    assert!(contains("haystack", ""));
    assert_eq!(find("\u{e4}b://c", "://"), Some(2));
    assert_eq!(find("abc", "x"), None);
    assert!(starts_with("bridge error: x", "bridge error: "));
    assert!(ends_with("a.pak", ".pak"));
    assert!(!ends_with("pak", ".pak"));
}

#[test]
fn case_is_ignored_for_ascii_only() {
    assert!(eq_ignore_ascii_case("HTTPS://Example.com", "https://example.COM"));
    assert!(!eq_ignore_ascii_case("\u{c4}", "\u{e4}"));
}

#[test]
fn texts_are_ordered_as_std_orders_them() {
    for (a, b) in [("a", "b"), ("a", "ab"), ("B", "a"), ("", "a"), ("z", "\u{e4}"), ("a", "a")] {
        assert_eq!(str_less(a, b), a < b, "{a:?} {b:?}");
        assert_eq!(str_less(b, a), b < a, "{b:?} {a:?}");
    }
}

#[test]
fn numbers_are_written_in_decimal() {
    assert_eq!(decimal(0), "0");
    assert_eq!(decimal(10), "10");
    assert_eq!(decimal(u64::MAX), "18446744073709551615");
}

#[test]
fn quoting_escapes_as_debug_does() {
    assert_eq!(debug_quote("a\"b\n"), format!("{:?}", "a\"b\n"));
    assert_eq!(concat3("a", "", "b"), "ab");
}

#[test]
fn bytes_that_are_no_text_are_refused() {
    assert_eq!(string_from_utf8(vec![0xe2, 0x82, 0xac]), Ok("\u{20ac}".to_string()));
    assert!(string_from_utf8(vec![0xff]).is_err_and(|e| e.contains("invalid utf-8")));
}

#[test]
fn maps_keep_one_value_per_key() {
    let mut map = StringMap::new();
    assert!(map.is_empty());
    map.insert("a".into(), "1".into());
    map.insert("b".into(), "2".into());
    map.insert("a".into(), "3".into());
    assert_eq!(map.len(), 2);
    assert_eq!(map.get("a").map(String::as_str), Some("3"));
    let mut other = StringMap::new();
    other.insert("b".into(), "2".into());
    other.insert("a".into(), "3".into());
    assert_eq!(map, other);
    map.remove("a");
    assert!(!map.contains_key("a"));
    assert_ne!(map, other);
    map.remove("a");
    assert_eq!(map.len(), 1);
}
