//! Classic single-character tokens.

use vstd::prelude::*;

use crate::bytes::matchers::{match_char, match_pattern, spec_match_char, spec_match_pattern};
use crate::errors::{ParseError, ParseResult};
use crate::matcher::Match;
use crate::peek::{
    CustomizedPeekableImplementation, PeekResult, Peekable, PeekableImplementation, probe_match,
    spec_match_probe,
};
use crate::recognizer::Recognizer;
use crate::scanner::Scanner;
use crate::visitor::Visitor;

verus! {

/// The token an alternation over the first group of fixed tokens yields
/// for a leading byte, if any.
pub open spec fn spec_token_group1(b: u8) -> Option<Token> {
    if b == 0x28 {
        Some(Token::OpenParen)
    } else if b == 0x29 {
        Some(Token::CloseParen)
    } else if b == 0x2c {
        Some(Token::Comma)
    } else if b == 0x3b {
        Some(Token::Semicolon)
    } else if b == 0x3a {
        Some(Token::Colon)
    } else if b == 0x20 {
        Some(Token::Whitespace)
    } else if b == 0x3e {
        Some(Token::GreaterThan)
    } else if b == 0x3c {
        Some(Token::LessThan)
    } else {
        None
    }
}

/// The token an alternation over the second group of fixed tokens yields
/// for a leading byte, if any.
pub open spec fn spec_token_group2(b: u8) -> Option<Token> {
    if b == 0x21 {
        Some(Token::Exclamation)
    } else if b == 0x27 {
        Some(Token::Quote)
    } else if b == 0x22 {
        Some(Token::DoubleQuote)
    } else if b == 0x3d {
        Some(Token::Equal)
    } else if b == 0x2b {
        Some(Token::Plus)
    } else if b == 0x2d {
        Some(Token::Dash)
    } else if b == 0x2f {
        Some(Token::Slash)
    } else if b == 0x2a {
        Some(Token::Star)
    } else {
        None
    }
}

/// The token an alternation over the third group of fixed tokens yields
/// for a leading byte, if any.
pub open spec fn spec_token_group3(b: u8) -> Option<Token> {
    if b == 0x25 {
        Some(Token::Percent)
    } else if b == 0x26 {
        Some(Token::Ampersand)
    } else if b == 0x7c {
        Some(Token::Pipe)
    } else if b == 0x5e {
        Some(Token::Caret)
    } else if b == 0x7e {
        Some(Token::Tilde)
    } else if b == 0x2e {
        Some(Token::Dot)
    } else if b == 0x3f {
        Some(Token::Question)
    } else if b == 0x40 {
        Some(Token::At)
    } else {
        None
    }
}

/// The token an alternation over the fourth group of fixed tokens yields
/// for a leading byte, if any: the sharp alias is shadowed by the hash
/// token tried before it, and the two-character pair by the
/// carriage-return token.
pub open spec fn spec_token_group4(b: u8) -> Option<Token> {
    if b == 0x23 {
        Some(Token::Hash)
    } else if b == 0x24 {
        Some(Token::Dollar)
    } else if b == 0x5c {
        Some(Token::Backslash)
    } else if b == 0x5f {
        Some(Token::Underscore)
    } else if b == 0x0a {
        Some(Token::Ln)
    } else if b == 0x0d {
        Some(Token::Cr)
    } else if b == 0x09 {
        Some(Token::Tab)
    } else {
        None
    }
}

/// The token the alternation over all fixed tokens yields for a leading
/// byte, if any: the groups are tried in order and the byte decides.
pub open spec fn spec_token_for(b: u8) -> Option<Token> {
    if spec_token_group1(b) is Some {
        spec_token_group1(b)
    } else if spec_token_group2(b) is Some {
        spec_token_group2(b)
    } else if spec_token_group3(b) is Some {
        spec_token_group3(b)
    } else {
        spec_token_group4(b)
    }
}

/// The token type: fixed punctuation and control characters.
#[derive(Copy, Clone, PartialEq, Eq, Structural, Debug)]
pub enum Token {
    /// The `(` character
    OpenParen,
    /// The `)` character
    CloseParen,
    /// The `,` character
    Comma,
    /// The `;` character
    Semicolon,
    /// The `:` character
    Colon,
    /// The whitespace character
    Whitespace,
    /// The `>` character
    GreaterThan,
    /// The `<` character
    LessThan,
    /// The `!` character
    Exclamation,
    /// The `'` character
    Quote,
    /// The `"` character
    DoubleQuote,
    /// The `=` character
    Equal,
    /// The `+` character
    Plus,
    /// The `-` character
    Dash,
    /// The `/` character
    Slash,
    /// The `*` character
    Star,
    /// The `%` character
    Percent,
    /// The `&` character
    Ampersand,
    /// The `|` character
    Pipe,
    /// The `^` character
    Caret,
    /// The `~` character
    Tilde,
    /// The `.` character
    Dot,
    /// The `?` character
    Question,
    /// The `@` character
    At,
    /// The `#` character
    Hash,
    /// The `$` character
    Dollar,
    /// The `\` character
    Backslash,
    /// The `_` character
    Underscore,
    /// The `#` character
    Sharp,
    /// The `\n` character
    Ln,
    /// The `\r` character
    Cr,
    /// The `\t` character
    Tab,
    /// The `\r\n` pair
    CrLn,
}

impl Token {
    /// The character a single-character token stands for; `CrLn` is the one
    /// token that covers two characters and is treated apart.
    pub open spec fn spec_char(self) -> char {
        match self {
            Token::OpenParen => '(',
            Token::CloseParen => ')',
            Token::Comma => ',',
            Token::Semicolon => ';',
            Token::Colon => ':',
            Token::Whitespace => ' ',
            Token::GreaterThan => '>',
            Token::LessThan => '<',
            Token::Exclamation => '!',
            Token::Quote => '\'',
            Token::DoubleQuote => '"',
            Token::Equal => '=',
            Token::Plus => '+',
            Token::Dash => '-',
            Token::Slash => '/',
            Token::Star => '*',
            Token::Percent => '%',
            Token::Ampersand => '&',
            Token::Pipe => '|',
            Token::Caret => '^',
            Token::Tilde => '~',
            Token::Dot => '.',
            Token::Question => '?',
            Token::At => '@',
            Token::Hash => '#',
            Token::Dollar => '$',
            Token::Backslash => '\\',
            Token::Underscore => '_',
            Token::Sharp => '#',
            Token::Ln => '\n',
            Token::Cr => '\r',
            Token::Tab => '\t',
            Token::CrLn => '\r',
        }
    }

    /// The byte sequence of the carriage-return/line-feed pair.
    pub open spec fn spec_crlf() -> Seq<u8> {
        seq![0x0du8, 0x0au8]
    }
}

impl Match<u8> for Token {
    open spec fn spec_matching(&self, data: Seq<u8>) -> (bool, usize) {
        match self {
            Token::CrLn => spec_match_pattern(Token::spec_crlf(), data),
            _ => spec_match_char(self.spec_char(), data),
        }
    }

    open spec fn spec_size(&self) -> usize {
        match self {
            Token::CrLn => 2usize,
            _ => 1usize,
        }
    }

    proof fn lemma_matching_bounds(&self, data: Seq<u8>) {
    }

    fn is_matching(&self, data: &[u8]) -> (r: (bool, usize)) {
        match self {
            Token::OpenParen => match_char('(', data),
            Token::CloseParen => match_char(')', data),
            Token::Comma => match_char(',', data),
            Token::Semicolon => match_char(';', data),
            Token::Colon => match_char(':', data),
            Token::Whitespace => match_char(' ', data),
            Token::GreaterThan => match_char('>', data),
            Token::LessThan => match_char('<', data),
            Token::Exclamation => match_char('!', data),
            Token::Quote => match_char('\'', data),
            Token::DoubleQuote => match_char('"', data),
            Token::Equal => match_char('=', data),
            Token::Plus => match_char('+', data),
            Token::Dash => match_char('-', data),
            Token::Slash => match_char('/', data),
            Token::Star => match_char('*', data),
            Token::Percent => match_char('%', data),
            Token::Ampersand => match_char('&', data),
            Token::Pipe => match_char('|', data),
            Token::Caret => match_char('^', data),
            Token::Tilde => match_char('~', data),
            Token::Dot => match_char('.', data),
            Token::Question => match_char('?', data),
            Token::At => match_char('@', data),
            Token::Hash => match_char('#', data),
            Token::Dollar => match_char('$', data),
            Token::Backslash => match_char('\\', data),
            Token::Underscore => match_char('_', data),
            Token::Sharp => match_char('#', data),
            Token::Ln => match_char('\n', data),
            Token::Cr => match_char('\r', data),
            Token::Tab => match_char('\t', data),
            Token::CrLn => {
                let crlf: [u8; 2] = [0x0d, 0x0a];
                let r = match_pattern(crlf.as_slice(), data);
                proof {
                    assert(crlf@ =~= Token::spec_crlf());
                }
                r
            },
        }
    }

    fn size(&self) -> (r: usize) {
        match self {
            Token::CrLn => 2,
            _ => 1,
        }
    }
}

/// A token is itself a one-token rule: accepting tries every fixed token in
/// a set order and consumes the first that matches.
impl<'a> Visitor<'a, u8> for Token {
    /// The first byte decides: a byte belonging to a token consumes one
    /// element, any other is "does not apply", and an empty input is a hard
    /// failure.
    open spec fn spec_accept(data: Seq<u8>) -> Result<int, ParseError> {
        if data.len() == 0 {
            Err(ParseError::UnexpectedEndOfInput)
        } else {
            match spec_token_for(data[0]) {
                Some(t) => Ok(1),
                None => Err(ParseError::UnexpectedToken),
            }
        }
    }

    open spec fn spec_value(data: Seq<u8>, v: Self) -> bool {
        data.len() > 0 && spec_token_for(data[0]) == Some(v)
    }

    proof fn lemma_accept_bounds(data: Seq<u8>) {
    }

    fn accept(scanner: &mut Scanner<'a, u8>) -> (r: ParseResult<Self>) {
        let rec = Recognizer::new();
        let rec = try_token_group1(rec, scanner)?;
        let rec = try_token_group2(rec, scanner)?;
        let rec = try_token_group3(rec, scanner)?;
        let rec = try_token_group4(rec, scanner)?;
        match rec.finish() {
            Some(token) => Ok(token),
            None => Err(ParseError::UnexpectedToken),
        }
    }
}

impl PeekableImplementation for Token {
    /// A token's lookahead searches for that token itself, not for the
    /// alternation over all tokens, so the derived strategy is declined.
    type Type = CustomizedPeekableImplementation;
}

/// A token's lookahead reports the nearest occurrence of that very token.
impl<'a> Peekable<'a, u8> for Token {
    open spec fn spec_peek(&self, data: Seq<u8>) -> Result<PeekResult, ParseError> {
        Ok(spec_match_probe(*self, data, 0))
    }

    proof fn lemma_peek_bounds(&self, data: Seq<u8>) {
        crate::peek::lemma_match_probe_bounds(*self, data, 0);
    }

    fn peek(&self, data: &Scanner<'a, u8>) -> (r: ParseResult<PeekResult>) {
        Ok(probe_match(self, data))
    }
}

/// Try the first group of fixed tokens in order, unless a token was already
/// recognized.
fn try_token_group1<'a>(rec: Recognizer<Token>, scanner: &mut Scanner<'a, u8>) -> (r: ParseResult<
    Recognizer<Token>,
>)
    requires
        old(scanner).wf(),
    ensures
        final(scanner).wf(),
        final(scanner).spec_data() == old(scanner).spec_data(),
        ({
            let rem = old(scanner).spec_remaining();
            if rec.spec_data() is Some {
                &&& r matches Ok(rr) && rr.spec_data() == rec.spec_data()
                &&& final(scanner).spec_position() == old(scanner).spec_position()
            } else if rem.len() == 0 {
                &&& r == Err::<Recognizer<Token>, ParseError>(ParseError::UnexpectedEndOfInput)
                &&& final(scanner).spec_position() == old(scanner).spec_position()
            } else {
                match spec_token_group1(rem[0]) {
                    Some(t) => {
                        &&& r matches Ok(rr) && rr.spec_data() == Some(t)
                        &&& final(scanner).spec_position() == old(scanner).spec_position() + 1
                    },
                    None => {
                        &&& r matches Ok(rr) && rr.spec_data() is None
                        &&& final(scanner).spec_position() == old(scanner).spec_position()
                    },
                }
            }
        }),
{
    let rec = rec.try_or(Token::OpenParen, scanner)?;
    let rec = rec.try_or(Token::CloseParen, scanner)?;
    let rec = rec.try_or(Token::Comma, scanner)?;
    let rec = rec.try_or(Token::Semicolon, scanner)?;
    let rec = rec.try_or(Token::Colon, scanner)?;
    let rec = rec.try_or(Token::Whitespace, scanner)?;
    let rec = rec.try_or(Token::GreaterThan, scanner)?;
    let rec = rec.try_or(Token::LessThan, scanner)?;
    Ok(rec)
}

/// Try the second group of fixed tokens in order, unless a token was already
/// recognized.
fn try_token_group2<'a>(rec: Recognizer<Token>, scanner: &mut Scanner<'a, u8>) -> (r: ParseResult<
    Recognizer<Token>,
>)
    requires
        old(scanner).wf(),
    ensures
        final(scanner).wf(),
        final(scanner).spec_data() == old(scanner).spec_data(),
        ({
            let rem = old(scanner).spec_remaining();
            if rec.spec_data() is Some {
                &&& r matches Ok(rr) && rr.spec_data() == rec.spec_data()
                &&& final(scanner).spec_position() == old(scanner).spec_position()
            } else if rem.len() == 0 {
                &&& r == Err::<Recognizer<Token>, ParseError>(ParseError::UnexpectedEndOfInput)
                &&& final(scanner).spec_position() == old(scanner).spec_position()
            } else {
                match spec_token_group2(rem[0]) {
                    Some(t) => {
                        &&& r matches Ok(rr) && rr.spec_data() == Some(t)
                        &&& final(scanner).spec_position() == old(scanner).spec_position() + 1
                    },
                    None => {
                        &&& r matches Ok(rr) && rr.spec_data() is None
                        &&& final(scanner).spec_position() == old(scanner).spec_position()
                    },
                }
            }
        }),
{
    let rec = rec.try_or(Token::Exclamation, scanner)?;
    let rec = rec.try_or(Token::Quote, scanner)?;
    let rec = rec.try_or(Token::DoubleQuote, scanner)?;
    let rec = rec.try_or(Token::Equal, scanner)?;
    let rec = rec.try_or(Token::Plus, scanner)?;
    let rec = rec.try_or(Token::Dash, scanner)?;
    let rec = rec.try_or(Token::Slash, scanner)?;
    let rec = rec.try_or(Token::Star, scanner)?;
    Ok(rec)
}

/// Try the third group of fixed tokens in order, unless a token was already
/// recognized.
fn try_token_group3<'a>(rec: Recognizer<Token>, scanner: &mut Scanner<'a, u8>) -> (r: ParseResult<
    Recognizer<Token>,
>)
    requires
        old(scanner).wf(),
    ensures
        final(scanner).wf(),
        final(scanner).spec_data() == old(scanner).spec_data(),
        ({
            let rem = old(scanner).spec_remaining();
            if rec.spec_data() is Some {
                &&& r matches Ok(rr) && rr.spec_data() == rec.spec_data()
                &&& final(scanner).spec_position() == old(scanner).spec_position()
            } else if rem.len() == 0 {
                &&& r == Err::<Recognizer<Token>, ParseError>(ParseError::UnexpectedEndOfInput)
                &&& final(scanner).spec_position() == old(scanner).spec_position()
            } else {
                match spec_token_group3(rem[0]) {
                    Some(t) => {
                        &&& r matches Ok(rr) && rr.spec_data() == Some(t)
                        &&& final(scanner).spec_position() == old(scanner).spec_position() + 1
                    },
                    None => {
                        &&& r matches Ok(rr) && rr.spec_data() is None
                        &&& final(scanner).spec_position() == old(scanner).spec_position()
                    },
                }
            }
        }),
{
    let rec = rec.try_or(Token::Percent, scanner)?;
    let rec = rec.try_or(Token::Ampersand, scanner)?;
    let rec = rec.try_or(Token::Pipe, scanner)?;
    let rec = rec.try_or(Token::Caret, scanner)?;
    let rec = rec.try_or(Token::Tilde, scanner)?;
    let rec = rec.try_or(Token::Dot, scanner)?;
    let rec = rec.try_or(Token::Question, scanner)?;
    let rec = rec.try_or(Token::At, scanner)?;
    Ok(rec)
}

/// Try the fourth group of fixed tokens in order, unless a token was already
/// recognized.
fn try_token_group4<'a>(rec: Recognizer<Token>, scanner: &mut Scanner<'a, u8>) -> (r: ParseResult<
    Recognizer<Token>,
>)
    requires
        old(scanner).wf(),
    ensures
        final(scanner).wf(),
        final(scanner).spec_data() == old(scanner).spec_data(),
        ({
            let rem = old(scanner).spec_remaining();
            if rec.spec_data() is Some {
                &&& r matches Ok(rr) && rr.spec_data() == rec.spec_data()
                &&& final(scanner).spec_position() == old(scanner).spec_position()
            } else if rem.len() == 0 {
                &&& r == Err::<Recognizer<Token>, ParseError>(ParseError::UnexpectedEndOfInput)
                &&& final(scanner).spec_position() == old(scanner).spec_position()
            } else {
                match spec_token_group4(rem[0]) {
                    Some(t) => {
                        &&& r matches Ok(rr) && rr.spec_data() == Some(t)
                        &&& final(scanner).spec_position() == old(scanner).spec_position() + 1
                    },
                    None => {
                        &&& r matches Ok(rr) && rr.spec_data() is None
                        &&& final(scanner).spec_position() == old(scanner).spec_position()
                    },
                }
            }
        }),
{
    let rec = rec.try_or(Token::Hash, scanner)?;
    let rec = rec.try_or(Token::Dollar, scanner)?;
    let rec = rec.try_or(Token::Backslash, scanner)?;
    let rec = rec.try_or(Token::Underscore, scanner)?;
    let rec = rec.try_or(Token::Sharp, scanner)?;
    let rec = rec.try_or(Token::Ln, scanner)?;
    let rec = rec.try_or(Token::Cr, scanner)?;
    let rec = rec.try_or(Token::Tab, scanner)?;
    let rec = rec.try_or(Token::CrLn, scanner)?;
    Ok(rec)
}

} // verus!
