use lookahead::bytes::primitives::binary_operator::BinaryOperator;
use lookahead::bytes::primitives::number::{Number, TokenNumber};
use lookahead::bytes::primitives::string::DataString;
use lookahead::bytes::token::Token;
use lookahead::errors::ParseError;
use lookahead::peek::peek;
use lookahead::recognizer::recognize_slice;
use lookahead::scanner::Scanner;
use lookahead::visitor::Visitor;

#[test]
fn test_token_accept() {
    let mut scanner = Scanner::new(b"(rest");
    let token = Token::accept(&mut scanner).expect("failed to parse");
    assert_eq!(token, Token::OpenParen);
    assert_eq!(scanner.current_position(), 1);

    let mut scanner = Scanner::new(b"abc");
    let result = Token::accept(&mut scanner);
    assert_eq!(result.err(), Some(ParseError::UnexpectedToken));

    let mut scanner = Scanner::new(b"");
    let result = Token::accept(&mut scanner);
    assert_eq!(result.err(), Some(ParseError::UnexpectedEndOfInput));
}

#[test]
fn test_token_accept_prefers_carriage_return_over_pair() {
    let mut scanner = Scanner::new(b"\r\n");
    let token = Token::accept(&mut scanner).expect("failed to parse");
    assert_eq!(token, Token::Cr);
    assert_eq!(scanner.current_position(), 1);
}

#[test]
fn test_number_accept() {
    let mut scanner = Scanner::new(b"123abc");
    let number: Number<usize> = scanner.visit().expect("failed to parse");
    assert_eq!(number, Number(123));
    assert_eq!(scanner.current_position(), 3);
}

#[test]
fn test_number_overflow_is_a_parse_int_error() {
    let mut scanner = Scanner::new(b"99999999999999999999999999999999999999");
    let result: Result<Number<usize>, ParseError> = scanner.visit();
    assert_eq!(result.err(), Some(ParseError::ParseIntError));
}

#[test]
fn test_number_without_digits_is_unexpected_token() {
    let mut scanner = Scanner::new(b"abc123");
    let result: Result<Number<usize>, ParseError> = scanner.visit();
    assert_eq!(result.err(), Some(ParseError::UnexpectedToken));
    assert_eq!(scanner.current_position(), 0);
}

#[test]
fn test_token_number_slice() {
    let mut scanner = Scanner::new(b"123abc");
    let raw = recognize_slice(TokenNumber, &mut scanner).expect("failed to parse");
    assert_eq!(raw, b"123");
}

#[test]
fn test_number_peeks_with_the_derived_lookahead() {
    // The number rule opts into the derived element-by-element probing, so
    // peeking finds the span up to and including the nearest number.
    let data = b"ab12cd";
    let scanner = Scanner::new(data);
    let peeked = peek(Number::<usize>(0), &scanner)
        .expect("failed to parse")
        .expect("failed to peek");
    assert_eq!(peeked.end_slice, 4);
    assert_eq!(peeked.end_element_size, 0);
    assert_eq!(peeked.peeked_slice(), b"ab12");
}

#[test]
fn test_data_string_borrowed() {
    let mut scanner = Scanner::new(b"abc123(");
    let text: DataString<&str> = scanner.visit().expect("failed to parse");
    assert_eq!(text.0, "abc123");
    assert_eq!(scanner.current_position(), 6);
}

#[test]
fn test_data_string_owned() {
    let mut scanner = Scanner::new("héllo wörld|rest".as_bytes());
    let text: DataString<String> = scanner.visit().expect("failed to parse");
    assert_eq!(text.0, "héllo wörld");
}

#[test]
fn test_data_string_rejects_invalid_utf8() {
    let data: [u8; 3] = [0x61, 0xff, 0x62];
    let mut scanner = Scanner::new(&data);
    let result: Result<DataString<String>, ParseError> = scanner.visit();
    assert_eq!(result.err(), Some(ParseError::Utf8Error));
}

#[test]
fn test_binary_operator_accept() {
    let mut scanner = Scanner::new(b"== 1");
    let op = BinaryOperator::accept(&mut scanner).expect("failed to parse");
    assert_eq!(op, BinaryOperator::Equal);
    assert_eq!(scanner.current_position(), 2);

    let mut scanner = Scanner::new(b"!=");
    let op = BinaryOperator::accept(&mut scanner).expect("failed to parse");
    assert_eq!(op, BinaryOperator::NotEqual);

    let mut scanner = Scanner::new(b"> 2");
    let op = BinaryOperator::accept(&mut scanner).expect("failed to parse");
    assert_eq!(op, BinaryOperator::GreaterThan);
    assert_eq!(scanner.current_position(), 1);

    let mut scanner = Scanner::new(b"x");
    let result = BinaryOperator::accept(&mut scanner);
    assert_eq!(result.err(), Some(ParseError::UnexpectedToken));
}

#[test]
fn test_binary_operator_one_character_forms_win() {
    // The one-character comparisons are tried before their or-equal forms.
    let mut scanner = Scanner::new(b"<=");
    let op = BinaryOperator::accept(&mut scanner).expect("failed to parse");
    assert_eq!(op, BinaryOperator::LessThan);
    assert_eq!(scanner.current_position(), 1);
}

#[test]
fn test_binary_operator_lone_equal_is_end_of_input() {
    let mut scanner = Scanner::new(b"=");
    let result = BinaryOperator::accept(&mut scanner);
    assert_eq!(result.err(), Some(ParseError::UnexpectedEndOfInput));
}

#[test]
fn test_number_widths() {
    let mut scanner = Scanner::new(b"4294967295");
    let number: Number<u32> = scanner.visit().expect("failed to parse");
    assert_eq!(number, Number(4294967295u32));

    let mut scanner = Scanner::new(b"4294967296");
    let result: Result<Number<u32>, ParseError> = scanner.visit();
    assert_eq!(result.err(), Some(ParseError::ParseIntError));

    let mut scanner = Scanner::new(b"18446744073709551615");
    let number: Number<u64> = scanner.visit().expect("failed to parse");
    assert_eq!(number, Number(18446744073709551615u64));

    let mut scanner = Scanner::new(b"18446744073709551616");
    let result: Result<Number<u64>, ParseError> = scanner.visit();
    assert_eq!(result.err(), Some(ParseError::ParseIntError));
}
