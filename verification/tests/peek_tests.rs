use lookahead::bytes::token::Token;
use lookahead::peek::{peek, Last, PeekResult, Peeking, Until, UntilEnd};
use lookahead::peeker::Peeker;
use lookahead::scanner::Scanner;

#[test]
fn test_until() {
    let data = b"abc|fdgf";
    let scanner = Scanner::new(data);
    let peeked = peek(Token::Pipe, &scanner)
        .expect("failed to parse")
        .expect("failed to peek");
    assert_eq!(peeked.peeked_slice(), "abc".as_bytes());
}

#[test]
fn test_until_end() {
    let data = b"abc|fdgf";
    let scanner = Scanner::new(data);
    let token = UntilEnd::default();
    let peeked = peek(token, &scanner)
        .expect("failed to parse")
        .expect("failed to peek");
    assert_eq!(peeked.peeked_slice(), "abc|fdgf".as_bytes());
}

#[test]
fn test_last() {
    let data = b"abc|def|ghi|";
    let scanner = Scanner::new(data);
    let token = Last::new(Token::Pipe);
    let peeked = peek(token, &scanner)
        .expect("failed to parse")
        .expect("failed to peek");
    assert_eq!(peeked.peeked_slice(), "abc|def|ghi".as_bytes());

    let data = b"abc|def|";
    let scanner = Scanner::new(data);
    let token = Last::new(Token::Pipe);
    let peeked = peek(token, &scanner)
        .expect("failed to parse")
        .expect("failed to peek");
    assert_eq!(peeked.peeked_slice(), "abc|def".as_bytes());

    let data = b"abc|";
    let scanner = Scanner::new(data);
    let token = Last::new(Token::Pipe);
    let peeked = peek(token, &scanner)
        .expect("failed to parse")
        .expect("failed to peek");
    assert_eq!(peeked.peeked_slice(), "abc".as_bytes());

    let data = b"abc";
    let scanner = Scanner::new(data);
    let token = Last::new(Token::Pipe);
    let peeked = peek(token, &scanner).expect("failed to parse");
    assert!(peeked.is_none());
}

#[test]
fn test_peeker() {
    let data = b"data\n";
    let scanner = Scanner::new(data);
    let peeker = Peeker::new(&scanner)
        .add_peekable(Until::new(Token::Ln))
        .add_peekable(UntilEnd::default());
    let result = peeker
        .peek()
        .expect("failed to parse")
        .expect("failed to peek");
    assert_eq!(result.data, "data".as_bytes());

    let data = b"data";
    let scanner = Scanner::new(data);
    let peeker = Peeker::new(&scanner)
        .add_peekable(Until::new(Token::Ln))
        .add_peekable(UntilEnd::default());
    let result = peeker
        .peek()
        .expect("failed to parse")
        .expect("failed to peek");
    assert_eq!(result.data, "data".as_bytes());
}

#[test]
fn test_peeker_keeps_smallest_span() {
    // The pipe stands after a span of length 5, the comma after one of
    // length 2: the nearest boundary wins.
    let data = b"ab,cd|xyz";
    let scanner = Scanner::new(data);
    let result = Peeker::new(&scanner)
        .add_peekable(Until::new(Token::Pipe))
        .add_peekable(Until::new(Token::Comma))
        .peek()
        .expect("failed to parse")
        .expect("failed to peek");
    assert_eq!(result.end_slice, 2);
    assert_eq!(result.data, b"ab");
}

#[test]
fn test_peeker_keeps_first_of_equal_spans() {
    // Both candidates cover the whole input; the earlier added one is kept,
    // recognizable by its closing delimiter size.
    let data = b"ab|";
    let scanner = Scanner::new(data);
    let result = Peeker::new(&scanner)
        .add_peekable(Token::Pipe)
        .add_peekable(UntilEnd::default())
        .peek()
        .expect("failed to parse")
        .expect("failed to peek");
    assert_eq!(result.end_slice, 3);
    assert_eq!(result.end_element_size, 1);
}

#[test]
fn test_peeker_without_match_is_none() {
    let data = b"abc";
    let scanner = Scanner::new(data);
    let result = Peeker::new(&scanner)
        .add_peekable(Until::new(Token::Pipe))
        .peek()
        .expect("failed to parse");
    assert!(result.is_none());
}

#[test]
fn test_peek_does_not_move_the_scanner() {
    let data = b"abc|fdgf";
    let mut scanner = Scanner::new(data);
    scanner.bump_by(1);
    let before = scanner.current_position();
    let found = peek(Token::Pipe, &scanner).expect("failed to parse");
    assert!(found.is_some());
    assert_eq!(scanner.current_position(), before);
    let missing = peek(Token::Caret, &scanner).expect("failed to parse");
    assert!(missing.is_none());
    assert_eq!(scanner.current_position(), before);
}

#[test]
fn test_peeking_round_trip_bound() {
    let data = b"( 1 ) rest";
    let scanner = Scanner::new(data);
    let peeked = peek(
        lookahead::bytes::components::groups::GroupKind::Parenthesis,
        &scanner,
    )
    .expect("failed to parse")
    .expect("failed to peek");
    let content = peeked.peeked_slice();
    assert_eq!(
        peeked.start_element_size + content.len() + peeked.end_element_size,
        peeked.end_slice
    );
}

#[test]
fn test_until_excludes_the_occurrence() {
    let data = b"ab\r\ncd";
    let scanner = Scanner::new(data);
    let peeked = peek(Until::new(Token::CrLn), &scanner)
        .expect("failed to parse")
        .expect("failed to peek");
    assert_eq!(peeked.end_slice, 2);
    assert_eq!(peeked.end_element_size, 0);
    assert_eq!(peeked.peeked_slice(), b"ab");
}

#[test]
fn test_token_peek_includes_and_trims_the_occurrence() {
    let data = b"ab\r\ncd";
    let scanner = Scanner::new(data);
    let peeked = peek(Token::CrLn, &scanner)
        .expect("failed to parse")
        .expect("failed to peek");
    assert_eq!(peeked.end_slice, 4);
    assert_eq!(peeked.end_element_size, 2);
    assert_eq!(peeked.peeked_slice(), b"ab");
}

#[test]
fn test_peek_result_from_peeking() {
    let data = b"ab|";
    let scanner = Scanner::new(data);
    let peeked = peek(Token::Pipe, &scanner).expect("failed to parse");
    let result = PeekResult::from(peeked);
    assert_eq!(
        result,
        PeekResult::Found {
            end_slice: 3,
            start_element_size: 0,
            end_element_size: 1
        }
    );
    assert_eq!(PeekResult::from(None::<Peeking<u8>>), PeekResult::NotFound);
}
