use noah::attr::{join_attribute, parse_attribute, AttrError};
use noah::num::{parse_u64, parse_unsigned, u64_to_decimal, usize_to_decimal, IntError};
use noah::order::str_lt;
use noah::paths::{file_name, parent_is, path_components, path_join, path_starts_with};
use noah::pattern::{captures, regex_match, replace_all};

#[test]
fn attribute_paths_round_trip() {
    let segs = vec!["a".to_string(), "b.c".to_string(), "d\"e".to_string(), "f\\g".to_string(), String::new()];
    let text = join_attribute(&segs);
    assert_eq!(text, r#"a."b.c"."d\"e"."f\\g"."""#);
    assert_eq!(parse_attribute(&text).unwrap(), segs);
}

#[test]
fn attribute_errors() {
    assert_eq!(parse_attribute(r#"foo."bar"#), Err(AttrError::UnclosedQuote));
    assert_eq!(parse_attribute(r#"foo."bar\"#), Err(AttrError::IncompleteEscape));
    assert_eq!(AttrError::UnclosedQuote.message(), "contains an unclosed quoted attribute segment");
}

#[test]
fn decimal_numbers_round_trip() {
    for n in [0u64, 7, 10, 12345, u64::MAX] {
        let text = u64_to_decimal(n);
        assert_eq!(text, n.to_string());
        assert_eq!(parse_u64(&text), Ok(n));
    }
    assert_eq!(usize_to_decimal(42), "42");
}

#[test]
fn integer_parse_errors_match_std() {
    assert_eq!(parse_u64(""), Err(IntError::Empty));
    assert_eq!(parse_u64("12a"), Err(IntError::InvalidDigit));
    assert_eq!(parse_u64("18446744073709551616"), Err(IntError::PosOverflow));
    assert_eq!(parse_unsigned("256", 255), Err(IntError::PosOverflow));
    assert_eq!(parse_unsigned("+5", 255), Ok(5));
    assert_eq!(IntError::InvalidDigit.message(), "invalid digit found in string");
}

#[test]
fn path_helpers() {
    assert_eq!(path_components("/nix//store/./abc/"), ["/", "nix", "store", "abc"]);
    assert!(path_starts_with("/nix/store/abc", "/nix/store"));
    assert!(!path_starts_with("/nix/store-backup/abc", "/nix/store"));
    assert_eq!(file_name("/a/b/c.txt").as_deref(), Some("c.txt"));
    assert_eq!(file_name("/"), None);
    assert_eq!(path_join("/a/b", "c"), "/a/b/c");
    assert_eq!(path_join("/a/b/", "c"), "/a/b/c");
    assert_eq!(path_join("/a/b", "/etc/x"), "/etc/x");
    assert_eq!(path_join("", "c"), "c");
    assert!(parent_is("/nix/store/abc", "/nix/store"));
    assert!(!parent_is("/nix/store/abc/def", "/nix/store"));
}

#[test]
fn string_order() {
    assert!(str_lt("abc", "abd"));
    assert!(!str_lt("b", "a"));
}

#[test]
fn regular_expressions() {
    assert!(regex_match("^result(-.*)?$", "result-dev"));
    assert!(!regex_match("(", "anything"));
    let groups = captures("^(.*)-(\\d+)-link$", "system-42-link").unwrap();
    assert_eq!(groups[1].as_deref(), Some("system"));
    assert_eq!(groups[2].as_deref(), Some("42"));
    assert_eq!(replace_all("<[^>]*>", "<b>x</b>", "$0"), "$0x$0");
}
