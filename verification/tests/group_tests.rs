use lookahead::bytes::components::groups::{
    match_for_delimited_group, match_group, GroupKind,
};
use lookahead::bytes::token::Token;
use lookahead::errors::ParseResult;
use lookahead::peek::{peek, PeekResult};
use lookahead::scanner::Scanner;

#[test]
fn test_match_group() {
    let data = "( 5 + 3 - ( 10 * 8 ) \\)) + 54";
    let result = match_group(
        Token::OpenParen,
        Token::CloseParen,
        Token::Backslash,
        data.as_bytes(),
    )
    .expect("failed to parse");
    assert_eq!(
        result,
        PeekResult::Found {
            end_slice: 24,
            start_element_size: 1,
            end_element_size: 1
        }
    );
    assert_eq!(&data[..24].as_bytes(), b"( 5 + 3 - ( 10 * 8 ) \\))");
}

#[test]
fn test_match_group2() -> ParseResult<()> {
    let data = "( 5 + 3 - \\( ( 10 * 8 \\)) \\)) + 54";
    let tokenizer = Scanner::new(data.as_bytes());
    let result = peek(GroupKind::Parenthesis, &tokenizer)?;

    if let Some(peeked) = result {
        assert_eq!(peeked.peeked_slice(), b" 5 + 3 - \\( ( 10 * 8 \\)) \\)");
    }
    Ok(())
}

#[test]
fn test_non_match_group() {
    let data = "4 + ( 5 + 3 - ( 10 * 8 ) \\)) + 54";
    let result = match_group(
        Token::OpenParen,
        Token::CloseParen,
        Token::Backslash,
        data.as_bytes(),
    )
    .expect("failed to parse");
    assert_eq!(result, PeekResult::NotFound);
}

#[test]
fn test_match_group_delimited() {
    let data = b"( 5 + 3 - ( 10 * 8 ) ) + 54";
    let tokenizer = Scanner::new(data);
    let result = peek(GroupKind::Parenthesis, &tokenizer).expect("failed to parse");
    match result {
        Some(peeking) => {
            assert_eq!(peeking.start_element_size, 1);
            assert_eq!(peeking.end_element_size, 1);
            assert_eq!(peeking.data, &data[0..22]);
            assert_eq!(peeking.end_slice, 22);
        }
        None => panic!("failed to peek"),
    }
    assert_eq!(&data[..22], b"( 5 + 3 - ( 10 * 8 ) )");
}

#[test]
fn test_match_group_delimited2() {
    let data = b"( 5 + 3 - ( 10 * 8 ) ) + 54";
    let tokenizer = Scanner::new(data);
    let result = peek(GroupKind::Parenthesis, &tokenizer).expect("failed to parse");

    if let Some(peeked) = result {
        assert_eq!(peeked.peeked_slice(), b" 5 + 3 - ( 10 * 8 ) ");
    }
}

#[test]
fn test_match_quotes2() {
    let data = b"'hello world' data";
    let tokenizer = Scanner::new(data);
    let result = peek(GroupKind::Quotes, &tokenizer).expect("failed to parse");

    if let Some(peeked) = result {
        assert_eq!(peeked.peeked_slice(), b"hello world");
    }
}

#[test]
fn test_match_quotes3() {
    let data = "'I\\'m a quoted data' - 'yes me too'";
    let tokenizer = Scanner::new(data.as_bytes());
    let result = peek(GroupKind::Quotes, &tokenizer).expect("failed to parse");

    if let Some(peeked) = result {
        assert_eq!(peeked.peeked_slice(), b"I\\'m a quoted data");
    }
}

#[test]
fn test_match_quotes() {
    let data = b"'hello world' data";
    let result =
        match_for_delimited_group(Token::Quote, Token::Backslash, data).expect("failed to parse");
    assert_eq!(
        result,
        PeekResult::Found {
            end_slice: 13,
            start_element_size: 1,
            end_element_size: 1
        }
    );
    assert_eq!(&data[..13], b"'hello world'");

    let data = r#"'hello world l\'éléphant' data"#;
    let result = match_for_delimited_group(Token::Quote, Token::Backslash, data.as_bytes())
        .expect("failed to parse");
    assert_eq!(
        result,
        PeekResult::Found {
            end_slice: 27,
            start_element_size: 1,
            end_element_size: 1
        }
    );
    assert_eq!(&data.as_bytes()[..27], r#"'hello world l\'éléphant'"#.as_bytes());

    let data = "\"hello world\" data";
    let result = match_for_delimited_group(Token::DoubleQuote, Token::Backslash, data.as_bytes())
        .expect("failed to parse");
    assert_eq!(
        result,
        PeekResult::Found {
            end_slice: 13,
            start_element_size: 1,
            end_element_size: 1
        }
    );
    assert_eq!(&data[..13], "\"hello world\"");

    let data = r#""hello world" data"#;
    let result = match_for_delimited_group(Token::DoubleQuote, Token::Backslash, data.as_bytes())
        .expect("failed to parse");
    assert_eq!(
        result,
        PeekResult::Found {
            end_slice: 13,
            start_element_size: 1,
            end_element_size: 1
        }
    );
    assert_eq!(&data[..13], r#""hello world""#);
}

#[test]
fn test_balanced_group_covers_whole_input() {
    let data = b"( 5 + 3 - ( 10 * 8 ) )";
    let result = match_group(
        Token::OpenParen,
        Token::CloseParen,
        Token::Backslash,
        data,
    )
    .expect("failed to parse");
    assert_eq!(
        result,
        PeekResult::Found {
            end_slice: 22,
            start_element_size: 1,
            end_element_size: 1
        }
    );
    let tokenizer = Scanner::new(data);
    let peeked = peek(GroupKind::Parenthesis, &tokenizer)
        .expect("failed to parse")
        .expect("failed to peek");
    assert_eq!(peeked.peeked_slice(), b" 5 + 3 - ( 10 * 8 ) ");
}

#[test]
fn test_unbalanced_group_is_not_found() {
    let data = b"( 5 + ( 3";
    let result = match_group(
        Token::OpenParen,
        Token::CloseParen,
        Token::Backslash,
        data,
    )
    .expect("failed to parse");
    assert_eq!(result, PeekResult::NotFound);
}

#[test]
fn test_group_on_empty_input_is_end_of_input() {
    let result = match_group(Token::OpenParen, Token::CloseParen, Token::Backslash, b"");
    assert_eq!(
        result,
        Err(lookahead::errors::ParseError::UnexpectedEndOfInput)
    );
}

#[test]
fn test_delimited_group_without_closer_is_not_found() {
    let data = b"'hello world";
    let result =
        match_for_delimited_group(Token::Quote, Token::Backslash, data).expect("failed to parse");
    assert_eq!(result, PeekResult::NotFound);
}

#[test]
fn test_quoted_content_with_escape_is_found() {
    let data = "'I\\'m a quoted data'";
    let tokenizer = Scanner::new(data.as_bytes());
    let peeked = peek(GroupKind::Quotes, &tokenizer)
        .expect("failed to parse")
        .expect("failed to peek");
    assert_eq!(peeked.peeked_slice(), b"I\\'m a quoted data");
}

#[test]
fn test_escaped_closer_extends_the_span() {
    let data = "( 5 + 3 - ( 10 * 8 ) \\)) + 54";
    let tokenizer = Scanner::new(data.as_bytes());
    let peeked = peek(GroupKind::Parenthesis, &tokenizer)
        .expect("failed to parse")
        .expect("failed to peek");
    assert_eq!(peeked.end_slice, 24);
    assert_eq!(peeked.peeked_slice(), b" 5 + 3 - ( 10 * 8 ) \\)");
}
