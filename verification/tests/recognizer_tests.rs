use lookahead::bytes::token::Token;
use lookahead::errors::{ParseError, ParseResult};
use lookahead::recognizer::{recognize, recognize_slice, Recognizable, Recognizer};
use lookahead::scanner::Scanner;

#[test]
fn test_recognizer() {
    let data = b">";
    let mut scanner = Scanner::new(data);
    let result = Token::GreaterThan
        .recognize(&mut scanner)
        .expect("failed to parse");
    assert_eq!(result, Some(Token::GreaterThan));
}

#[test]
fn test_recognizer_multiple() -> ParseResult<()> {
    let data = b">>";
    let mut scanner = Scanner::new(data);
    let result = Recognizer::new()
        .try_or(Token::LessThan, &mut scanner)?
        .try_or(Token::GreaterThan, &mut scanner)?
        .finish()
        .expect("failed to parse");
    assert_eq!(result, Token::GreaterThan);
    Ok(())
}

#[test]
fn test_recognize_does_not_consume_on_mismatch() {
    let data = b">abc";
    let mut scanner = Scanner::new(data);
    let result = Token::LessThan
        .recognize(&mut scanner)
        .expect("failed to parse");
    assert_eq!(result, None);
    assert_eq!(scanner.current_position(), 0);
}

#[test]
fn test_recognize_alternation_fairness() {
    // The failing first candidate leaves the scanner untouched, so the
    // second candidate consumes exactly what it would alone.
    let data = b">rest";
    let mut alone = Scanner::new(data);
    let only = recognize(Token::GreaterThan, &mut alone).expect("failed to parse");

    let mut chained = Scanner::new(data);
    let both = Recognizer::new()
        .try_or(Token::LessThan, &mut chained)
        .expect("failed to parse")
        .try_or(Token::GreaterThan, &mut chained)
        .expect("failed to parse")
        .finish()
        .expect("failed to parse");

    assert_eq!(both, only);
    assert_eq!(chained.current_position(), alone.current_position());
}

#[test]
fn test_recognize_empty_input_is_end_of_input() {
    let data = b"";
    let mut scanner = Scanner::new(data);
    let result: ParseResult<Token> = recognize(Token::Comma, &mut scanner);
    assert_eq!(result, Err(ParseError::UnexpectedEndOfInput));
}

#[test]
fn test_recognize_mismatch_is_unexpected_token() {
    let data = b"x";
    let mut scanner = Scanner::new(data);
    let result: ParseResult<Token> = recognize(Token::Comma, &mut scanner);
    assert_eq!(result, Err(ParseError::UnexpectedToken));
    assert_eq!(scanner.current_position(), 0);
}

#[test]
fn test_recognize_short_input_is_end_of_input() {
    let data = b"\r";
    let mut scanner = Scanner::new(data);
    let result: ParseResult<Token> = recognize(Token::CrLn, &mut scanner);
    assert_eq!(result, Err(ParseError::UnexpectedEndOfInput));
}

#[test]
fn test_recognize_slice_returns_matched_subslice() {
    let data = b"\r\nrest";
    let mut scanner = Scanner::new(data);
    let result = recognize_slice(Token::CrLn, &mut scanner).expect("failed to parse");
    assert_eq!(result, b"\r\n");
    assert_eq!(scanner.current_position(), 2);
}
