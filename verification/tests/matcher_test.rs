use auth_kit::auth::scope::{
    authorize_with_matcher, is_wildcard, match_on, parse_scope_string, FlexibleMatcher,
    ScopeMatcher,
};
use auth_kit::text::chars_of;

#[test]
fn matcher_examples() {
    assert!(FlexibleMatcher::matches("read:*", "read:users"));
    assert!(!FlexibleMatcher::matches("*:admin", "read:users"));
    assert!(FlexibleMatcher::matches("a:b:c", "a:b:c"));
    assert!(FlexibleMatcher::matches("a:*:c", "a:b:c"));
    assert!(!FlexibleMatcher::matches("a:b", "a:b:c"));
    assert!(!FlexibleMatcher::matches("a:b:c", "a:b"));
}

#[test]
fn without_a_common_delimiter_only_the_same_text_or_the_wildcard_match() {
    assert!(!FlexibleMatcher::matches("read", "write"));
    assert!(FlexibleMatcher::matches("read", "read"));
    assert!(FlexibleMatcher::matches("*", "write"));
    assert!(FlexibleMatcher::matches("*", ""));
    assert!(FlexibleMatcher::matches("", ""));
    assert!(!FlexibleMatcher::matches("", "read"));
    assert!(!FlexibleMatcher::matches("read:users", "read.users"));
    assert!(!FlexibleMatcher::matches("read.users", "read:users"));
    assert!(!FlexibleMatcher::matches("**", "read"));
    assert!(!FlexibleMatcher::matches("read", "*"));
    assert!(FlexibleMatcher::matches("*", "*"));
}

#[test]
fn a_wildcard_covers_a_whole_part_and_nothing_less() {
    assert!(FlexibleMatcher::matches("*:*", "read:users"));
    assert!(FlexibleMatcher::matches("*:*", ":"));
    assert!(!FlexibleMatcher::matches("re*:users", "read:users"));
    assert!(!FlexibleMatcher::matches("read:user*", "read:users"));
    assert!(FlexibleMatcher::matches("*", "read:users:*"));
}

#[test]
fn a_wildcard_in_the_required_token_is_a_text_like_any_other() {
    assert!(!FlexibleMatcher::matches("read:users", "read:*"));
    assert!(FlexibleMatcher::matches("read:*", "read:*"));
    assert!(!FlexibleMatcher::matches("a:b:c", "a:*:c"));
}

#[test]
fn matching_is_case_sensitive() {
    assert!(!FlexibleMatcher::matches("Read:users", "read:users"));
    assert!(!FlexibleMatcher::matches("READ", "read"));
}

#[test]
fn empty_parts_are_parts() {
    assert!(FlexibleMatcher::matches(":", ":"));
    assert!(FlexibleMatcher::matches("a:", "a:"));
    assert!(!FlexibleMatcher::matches("a:", "a:b"));
    assert!(FlexibleMatcher::matches("*:", "a:"));
    assert!(!FlexibleMatcher::matches("a::b", "a:b"));
    assert!(FlexibleMatcher::matches("a:*:b", "a::b"));
}

#[test]
fn the_first_delimiter_that_applies_decides() {
    // Both tokens have two parts at `:`, so `:` decides, and `*.a` is no wildcard.
    assert!(!FlexibleMatcher::matches("*.a:b", "q.a:b"));
    // At `:` the tokens have one and two parts, so `.` is the first to apply.
    assert!(FlexibleMatcher::matches("*.x", "a:b.x"));
    // No `:` or `.` in either, `@` applies before `/`.
    assert!(FlexibleMatcher::matches("*@a/b", "x/y@a/b"));
    assert!(!FlexibleMatcher::matches("*/b@c", "a/b@d"));
}

#[test]
fn match_on_tells_whether_a_delimiter_applies() {
    let user = chars_of("a:*:c");
    let required = chars_of("a:b:c");
    assert_eq!(match_on(&user, &required, ':'), Some(true));
    assert_eq!(match_on(&user, &required, '.'), None);
    assert_eq!(match_on(&chars_of("a:x:c"), &required, ':'), Some(false));
    assert_eq!(match_on(&chars_of("a:b"), &required, ':'), None);
    assert_eq!(match_on(&chars_of(""), &chars_of(""), ':'), None);
    assert!(is_wildcard(&chars_of("*")));
    assert!(!is_wildcard(&chars_of("**")));
    assert!(!is_wildcard(&chars_of("")));
}

#[test]
fn scope_strings_are_split_at_whitespace() {
    for text in [
        "",
        " ",
        "read:users",
        "read:users write:posts",
        "  read:users \t write:posts\n",
        "a  b   c",
        "a\u{a0}b\u{2003}c\u{3000}d",
        "a\u{85}b\u{1680}c\u{2028}d\u{2029}e\u{202f}f\u{205f}g",
        "no\u{200b}break",
        "\u{feff}x y",
        "\u{1c}a\u{1f}b",
        "é ü\u{0301} 日本 語",
    ] {
        let expected: Vec<&str> = text.split_whitespace().collect();
        assert_eq!(parse_scope_string(text), expected);
    }
    assert_eq!(parse_scope_string("read:users write:posts"), vec!["read:users", "write:posts"]);
}

#[test]
fn any_token_of_the_scope_string_may_match() {
    assert!(authorize_with_matcher::<FlexibleMatcher>("a:b c:d e:f", "e:f"));
    assert!(authorize_with_matcher::<FlexibleMatcher>("a:b\tc:*\ne:f", "c:d"));
    assert!(!authorize_with_matcher::<FlexibleMatcher>("a:b c:d e:f", "a:f"));
    assert!(!authorize_with_matcher::<FlexibleMatcher>("", "a:b"));
    assert!(!authorize_with_matcher::<FlexibleMatcher>("   ", ""));
    assert!(!authorize_with_matcher::<FlexibleMatcher>("", ""));
    assert!(authorize_with_matcher::<FlexibleMatcher>("x * y", "anything"));
}
