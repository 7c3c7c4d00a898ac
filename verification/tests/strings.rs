use oxapy::num::{parse_i64, u32_to_dec};
use oxapy::strutil::{
    join_str, path_segments, split_str, str_eq, str_index_of, str_starts_with, trim_str,
};

#[test]
fn split_keeps_empty_pieces() {
    let pieces = split_str("a//b/", '/');
    assert_eq!(pieces, vec!["a", "", "b", ""]);
    assert_eq!(split_str("", '/'), vec![""]);
}

#[test]
fn path_segments_drop_empty_pieces() {
    assert_eq!(path_segments("/api//items/"), vec!["api", "items"]);
    assert!(path_segments("/").is_empty());
    assert!(path_segments("").is_empty());
}

#[test]
fn join_puts_the_separator_between_pieces() {
    let pieces = vec!["a".to_string(), "b".to_string(), "c".to_string()];
    assert_eq!(join_str(&pieces, "/"), "a/b/c");
    assert_eq!(join_str(&Vec::new(), "/"), "");
}

#[test]
fn trim_removes_surrounding_whitespace() {
    assert_eq!(trim_str("  x y\t"), "x y");
    assert_eq!(trim_str("\r\n"), "");
    assert_eq!(trim_str("plain"), "plain");
}

#[test]
fn scanning_helpers() {
    assert_eq!(str_index_of("hello", 'l'), Some(2));
    assert_eq!(str_index_of("hello", 'z'), None);
    assert!(str_eq("same", "same"));
    assert!(!str_eq("same", "sane"));
    assert!(str_starts_with("multipart/form-data; boundary=x", "multipart/form-data"));
    assert!(!str_starts_with("text/plain", "multipart/form-data"));
}

#[test]
fn parse_i64_reads_exact_decimal_values() {
    assert_eq!(parse_i64("0"), Some(0));
    assert_eq!(parse_i64("42"), Some(42));
    assert_eq!(parse_i64("-17"), Some(-17));
    assert_eq!(parse_i64("9223372036854775807"), Some(i64::MAX));
    assert_eq!(parse_i64("-9223372036854775808"), Some(i64::MIN));
}

#[test]
fn parse_i64_rejects_everything_else() {
    assert_eq!(parse_i64(""), None);
    assert_eq!(parse_i64("-"), None);
    assert_eq!(parse_i64("12a"), None);
    assert_eq!(parse_i64(" 1"), None);
    assert_eq!(parse_i64("9223372036854775808"), None);
    assert_eq!(parse_i64("-9223372036854775809"), None);
    assert_eq!(parse_i64("99999999999999999999999"), None);
}

#[test]
fn u32_to_dec_prints_decimal() {
    assert_eq!(u32_to_dec(0), "0");
    assert_eq!(u32_to_dec(7), "7");
    assert_eq!(u32_to_dec(86400), "86400");
    assert_eq!(u32_to_dec(u32::MAX), "4294967295");
}
