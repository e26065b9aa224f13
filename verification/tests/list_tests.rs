use lookahead::bytes::matchers::match_pattern;
use lookahead::bytes::primitives::number::Number;
use lookahead::bytes::token::Token;
use lookahead::errors::{ParseError, ParseResult};
use lookahead::matcher::Match;
use lookahead::recognizer::recognize;
use lookahead::scanner::Scanner;
use lookahead::separated_list::{strip_trailing_separator, SeparatedList};
use lookahead::visitor::Visitor;
use vstd::prelude::*;

struct SeparatorComma;

impl<'a> Visitor<'a, u8> for SeparatorComma {
    fn spec_accept(_: Seq<u8>) -> Result<int, ParseError> {
        unreachable!()
    }

    fn spec_value(_: Seq<u8>, _: Self) -> bool {
        unreachable!()
    }

    fn lemma_accept_bounds(_: Seq<u8>) {}

    fn accept(scanner: &mut Scanner<'a, u8>) -> ParseResult<Self> {
        recognize(Token::Comma, scanner)?;
        Ok(SeparatorComma)
    }
}

/// Tests parsing a list of `Number`s separated by commas.
///
/// Input: `b"12,4,78,22"`
/// Output: `vec![Number(12), Number(4), Number(78), Number(22)]`
/// Final position: 10
#[test]
fn test_parse_number_list() {
    let data = b"12,4,78,22";
    let mut scanner = Scanner::new(data);
    let result = scanner
        .visit::<SeparatedList<u8, Number<usize>, SeparatorComma>>()
        .expect("failed to parse");
    assert_eq!(
        result.data,
        vec![Number(12), Number(4), Number(78), Number(22)]
    );
    assert_eq!(scanner.current_position(), 10);
}

/// A separator made of three tildes.
#[derive(Clone, Copy)]
struct Tildes;

impl Match<u8> for Tildes {
    fn spec_matching(&self, _: Seq<u8>) -> (bool, usize) {
        unreachable!()
    }

    fn spec_size(&self) -> usize {
        unreachable!()
    }

    fn lemma_matching_bounds(&self, _: Seq<u8>) {}

    fn is_matching(&self, data: &[u8]) -> (bool, usize) {
        match_pattern(b"~~~", data)
    }

    fn size(&self) -> usize {
        3
    }
}

struct SeparatorTildes;

impl<'a> Visitor<'a, u8> for SeparatorTildes {
    fn spec_accept(_: Seq<u8>) -> Result<int, ParseError> {
        unreachable!()
    }

    fn spec_value(_: Seq<u8>, _: Self) -> bool {
        unreachable!()
    }

    fn lemma_accept_bounds(_: Seq<u8>) {}

    fn accept(scanner: &mut Scanner<'a, u8>) -> ParseResult<Self> {
        recognize(Token::Tilde, scanner)?;
        recognize(Token::Tilde, scanner)?;
        recognize(Token::Tilde, scanner)?;
        Ok(SeparatorTildes)
    }
}

fn parse_stripped(data: &[u8]) -> ParseResult<Vec<usize>> {
    let scanner = Scanner::new(data);
    let mut trimmed = strip_trailing_separator(&scanner, Tildes);
    let list = trimmed.visit::<SeparatedList<u8, Number<usize>, SeparatorTildes>>()?;
    Ok(list.into_iter().map(|n| n.0).collect())
}

#[test]
fn test_list_with_trailing_separator() {
    let values = parse_stripped(b"1~~~2~~~3~~~4~~~").expect("failed to parse");
    assert_eq!(values, vec![1, 2, 3, 4]);

    let values = parse_stripped(b"1~~~").expect("failed to parse");
    assert_eq!(values, vec![1]);

    let values = parse_stripped(b"").expect("failed to parse");
    assert_eq!(values, Vec::<usize>::new());

    let result = parse_stripped(b"bad~~~");
    assert_eq!(result.err(), Some(ParseError::UnexpectedToken));
}

#[test]
fn test_strip_trailing_separator_views() {
    let data = b"1~~~2~~~";
    let scanner = Scanner::new(data);
    let trimmed = strip_trailing_separator(&scanner, Tildes);
    assert_eq!(trimmed.data(), b"1~~~2");
    assert_eq!(trimmed.current_position(), 0);

    let data = b"1~~~2";
    let scanner = Scanner::new(data);
    let trimmed = strip_trailing_separator(&scanner, Tildes);
    assert_eq!(trimmed.data(), b"1~~~2");
}

#[test]
fn test_list_fails_as_a_whole_when_an_element_fails() {
    let data = b"12,x,78";
    let mut scanner = Scanner::new(data);
    let result = scanner.visit::<SeparatedList<u8, Number<usize>, SeparatorComma>>();
    assert_eq!(result.err(), Some(ParseError::UnexpectedToken));
    assert_eq!(scanner.current_position(), 0);
}

#[test]
fn test_empty_input_is_an_empty_list() {
    let data = b"";
    let mut scanner = Scanner::new(data);
    let result = scanner
        .visit::<SeparatedList<u8, Number<usize>, SeparatorComma>>()
        .expect("failed to parse");
    assert_eq!(result.data, Vec::<Number<usize>>::new());
}
