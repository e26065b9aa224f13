use lookahead::bytes::matchers::{match_char, match_number, match_pattern, match_string};

#[test]
fn test_match_char() {
    let (result, consumed) = match_char('a', b"abc");
    assert!(result);
    assert_eq!(consumed, 1);

    let (result, consumed) = match_char('b', b"abc");
    assert!(!result);
    assert_eq!(consumed, 1);
}

#[test]
fn test_match_pattern() {
    let (result, consumed) = match_pattern(b"abc", b"abcdef");
    assert!(result);
    assert_eq!(consumed, 3);

    let (result, consumed) = match_pattern(b"abc", b"bbcdefg");
    assert!(!result);
    assert_eq!(consumed, 0);
}

#[test]
fn test_match_number() {
    let (result, consumed) = match_number(b"123abc");
    assert!(result);
    assert_eq!(consumed, 3);

    let (result, consumed) = match_number(b"abc123");
    assert!(!result);
    assert_eq!(consumed, 0);
}

#[test]
fn test_match_string() {
    let (result, consumed) = match_string(b"abc123(");
    assert!(result);
    assert_eq!(consumed, 6);
}

#[test]
fn test_match_pattern_ignores_ascii_case() {
    let (result, consumed) = match_pattern(b"AbC", b"aBcdef");
    assert!(result);
    assert_eq!(consumed, 3);
}

#[test]
fn test_match_pattern_empty_or_long_pattern() {
    let (result, consumed) = match_pattern(b"", b"abc");
    assert!(!result);
    assert_eq!(consumed, 0);

    let (result, consumed) = match_pattern(b"abcd", b"abc");
    assert!(!result);
    assert_eq!(consumed, 0);
}

#[test]
fn test_match_number_empty() {
    let (result, consumed) = match_number(b"");
    assert!(!result);
    assert_eq!(consumed, 0);
}

#[test]
fn test_match_string_stops_at_punctuation() {
    let (result, consumed) = match_string(b"(abc");
    assert!(!result);
    assert_eq!(consumed, 0);

    let (result, consumed) = match_string(b"abc def|x");
    assert!(result);
    assert_eq!(consumed, 7);
}
