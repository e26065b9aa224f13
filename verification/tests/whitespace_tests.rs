use lookahead::bytes::primitives::whitespace::{OptionalWhitespaces, Whitespaces};
use lookahead::scanner::Scanner;
use lookahead::visitor::Visitor;

// ensure that the scanner consumes all final whitespaces
#[test]
fn test_whitespaces() {
    let mut scanner = Scanner::new(b"         ");
    let result = Whitespaces::accept(&mut scanner);
    assert!(result.is_ok());
    assert!(scanner.is_empty());

    let mut scanner = Scanner::new(b"aaaaaaaaa");
    let result = Whitespaces::accept(&mut scanner);
    assert!(!result.is_ok());
    assert!(!scanner.is_empty());
}

// ensure that the scanner consumes all final optional whitespaces
#[test]
fn test_optional_whitespaces() {
    let mut scanner = Scanner::new(b"aaaaaaaaa");
    let result = OptionalWhitespaces::accept(&mut scanner);
    assert!(result.is_ok());
    assert!(!scanner.is_empty());

    let mut scanner = Scanner::new(b"        ");
    let result = OptionalWhitespaces::accept(&mut scanner);
    assert!(result.is_ok());
    assert!(scanner.is_empty());
}

#[test]
fn test_whitespaces_consume_only_the_leading_run() {
    let mut scanner = Scanner::new(b"  a b");
    let result = Whitespaces::accept(&mut scanner);
    assert!(result.is_ok());
    assert_eq!(scanner.current_position(), 2);
}

#[test]
fn test_whitespaces_on_empty_input() {
    let mut scanner = Scanner::new(b"");
    let result = Whitespaces::accept(&mut scanner);
    assert_eq!(
        result.err(),
        Some(lookahead::errors::ParseError::UnexpectedEndOfInput)
    );

    let mut scanner = Scanner::new(b"");
    let result = OptionalWhitespaces::accept(&mut scanner);
    assert!(result.is_ok());
    assert_eq!(scanner.current_position(), 0);
}
