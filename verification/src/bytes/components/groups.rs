//! Balanced-bracket and symmetric-delimiter boundary search with
//! escape-token awareness.

use vstd::prelude::*;

use crate::bytes::token::Token;
use crate::errors::{ParseError, ParseResult};
use crate::matcher::Match;
use crate::peek::{PeekResult, Peekable};
use crate::recognizer::Recognizable;
use crate::scanner::Scanner;

verus! {

/// True when an occurrence standing at `pos` in `data` is escaped: the
/// escape pattern occupies the elements immediately before `pos`. Nothing
/// before the start of the input means never escaped.
pub open spec fn spec_escaped<E: Match<u8>>(escape: E, data: Seq<u8>, pos: int) -> bool {
    &&& pos >= escape.spec_size()
    &&& pos - escape.spec_size() < data.len()
    &&& escape.spec_matching(data.skip(pos - escape.spec_size())).0
}

/// Check whether the token the scanner stands at is escaped, by looking for
/// the escape pattern in the elements immediately before the cursor.
///
/// A cursor closer to the start than the escape's size cannot be escaped.
/// The end-of-input failure can only arise for an escape of declared size
/// zero checked at the very end of the data.
pub fn is_escaped<'a, E: Match<u8>>(mut scanner: Scanner<'a, u8>, escape_token: E) -> (r:
    ParseResult<bool>)
    requires
        scanner.wf(),
    ensures
        ({
            let pos = scanner.spec_position();
            let data = scanner.spec_data();
            let size = escape_token.spec_size();
            if pos < size {
                r == Ok::<bool, ParseError>(false)
            } else if pos - size == data.len() {
                r == Err::<bool, ParseError>(ParseError::UnexpectedEndOfInput)
            } else {
                r == Ok::<bool, ParseError>(spec_escaped(escape_token, data, pos))
            }
        }),
{
    if scanner.current_position() < escape_token.size() {
        return Ok(false);
    }
    let size = escape_token.size();
    scanner.rewind(size);
    match escape_token.recognize(&mut scanner)? {
        Some(_) => Ok(true),
        None => Ok(false),
    }
}

/// One step of the balanced scan at position `pos`: the new position and the
/// new balance.
///
/// A start token found at the position and not escaped raises the balance; an
/// end token found there and not escaped lowers it; an escaped occurrence of
/// either is stepped over unchanged; any other element is skipped one at a
/// time.
pub open spec fn spec_balanced_step<T1: Match<u8>, T2: Match<u8>, T3: Match<u8>>(
    start: T1,
    end: T2,
    escape: T3,
    data: Seq<u8>,
    pos: int,
    balance: int,
) -> (int, int) {
    let rem = data.skip(pos);
    let (ms, ns) = start.spec_matching(rem);
    let (me, ne) = end.spec_matching(rem);
    if ms {
        if spec_escaped(escape, data, pos) {
            (pos + ns, balance)
        } else {
            (pos + ns, balance + 1)
        }
    } else if me {
        if spec_escaped(escape, data, pos) {
            (pos + ne, balance)
        } else {
            (pos + ne, balance - 1)
        }
    } else {
        (pos + 1, balance)
    }
}

/// Try to recognize either a start-group or an end-group token where the
/// scanner stands, and keep the balancing counter in step.
///
/// An unescaped start token raises the counter, an unescaped end token
/// lowers it, an escaped occurrence of either is stepped over, and any other
/// element is skipped; the scanner always advances by at least one element.
pub fn match_for_balanced_group<'a, T1, T2, T3>(
    scanner: &mut Scanner<'a, u8>,
    balance: &mut usize,
    start: T1,
    end: T2,
    escape_token: T3,
) -> (r: ParseResult<()>) where T1: Match<u8> + Copy, T2: Match<u8> + Copy, T3: Match<u8> + Copy
    requires
        old(scanner).wf(),
        old(scanner).spec_remaining().len() > 0,
        1 <= *old(balance) < usize::MAX,
    ensures
        final(scanner).wf(),
        final(scanner).spec_data() == old(scanner).spec_data(),
        r == Ok::<(), ParseError>(()),
        (final(scanner).spec_position(), *final(balance) as int) == spec_balanced_step(
            start,
            end,
            escape_token,
            old(scanner).spec_data(),
            old(scanner).spec_position(),
            *old(balance) as int,
        ),
        old(scanner).spec_position() < final(scanner).spec_position() <= old(
            scanner,
        ).spec_data().len(),
{
    let data = scanner.remaining();
    proof {
        start.lemma_matching_bounds(data@);
        end.lemma_matching_bounds(data@);
    }
    let (ms, ns) = start.is_matching(data);
    if ms {
        scanner.bump_by(ns);
        let mut rewind_scanner = *scanner;
        rewind_scanner.rewind(ns);
        if !is_escaped(rewind_scanner, escape_token)? {
            *balance = *balance + 1;
        }
        return Ok(());
    }
    let (me, ne) = end.is_matching(data);
    if me {
        scanner.bump_by(ne);
        let mut rewind_scanner = *scanner;
        rewind_scanner.rewind(ne);
        if is_escaped(rewind_scanner, escape_token)? {
            return Ok(());
        }
        *balance = *balance - 1;
        return Ok(());
    }
    scanner.bump_by(1);
    Ok(())
}

/// The cursor where the balanced scan started at `pos` with the given
/// balance reaches zero, stepping as `spec_balanced_step` does, or nothing
/// when the input runs out first.
pub open spec fn spec_group_scan<T1: Match<u8>, T2: Match<u8>, T3: Match<u8>>(
    start: T1,
    end: T2,
    escape: T3,
    data: Seq<u8>,
    pos: int,
    balance: int,
) -> Option<int>
    decreases data.len() - pos,
{
    if balance == 0 {
        Some(pos)
    } else if pos < 0 || pos >= data.len() {
        None
    } else {
        let (next, bal) = spec_balanced_step(start, end, escape, data, pos, balance);
        if next <= pos || next > data.len() {
            None
        } else {
            spec_group_scan(start, end, escape, data, next, bal)
        }
    }
}

/// A finished balanced scan stops inside the input.
pub proof fn lemma_group_scan_bounds<T1: Match<u8>, T2: Match<u8>, T3: Match<u8>>(
    start: T1,
    end: T2,
    escape: T3,
    data: Seq<u8>,
    pos: int,
    balance: int,
)
    requires
        0 <= pos <= data.len(),
    ensures
        spec_group_scan(start, end, escape, data, pos, balance) matches Some(c) ==> 0 <= c
            <= data.len(),
    decreases data.len() - pos,
{
    if balance == 0 {
    } else if pos >= data.len() {
    } else {
        let (next, bal) = spec_balanced_step(start, end, escape, data, pos, balance);
        if pos < next <= data.len() {
            lemma_group_scan_bounds(start, end, escape, data, next, bal);
        }
    }
}

/// What searching a balanced group yields on the given input.
///
/// The input must begin with the start token; the matching end token is then
/// looked for with nested, escape-aware balancing, and the reported span runs
/// from the start of the input to just past that end token. An input whose
/// brackets never balance yields nothing; an empty input is a hard failure.
pub open spec fn spec_match_group<T1: Match<u8>, T2: Match<u8>, T3: Match<u8>>(
    start: T1,
    end: T2,
    escape: T3,
    input: Seq<u8>,
) -> Result<PeekResult, ParseError> {
    if input.len() == 0 {
        Err(ParseError::UnexpectedEndOfInput)
    } else {
        let (m0, n0) = start.spec_matching(input);
        if !m0 {
            Ok(PeekResult::NotFound)
        } else {
            match spec_group_scan(start, end, escape, input, n0 as int, 1) {
                None => Ok(PeekResult::NotFound),
                Some(c) => if c == 1 {
                    Ok(PeekResult::NotFound)
                } else {
                    Ok(
                        PeekResult::Found {
                            end_slice: c as usize,
                            start_element_size: start.spec_size(),
                            end_element_size: end.spec_size(),
                        },
                    )
                },
            }
        }
    }
}

/// Find the boundary of a balanced group at the front of the input.
///
/// The input must begin with `start`; nested `start`/`end` pairs are
/// balanced with a counter, an occurrence immediately preceded by
/// `escape_token` counts as literal text, and the reported span ends just
/// past the end token that brings the balance back to zero. A degenerate
/// span of a single element, brackets that never balance, or an input that
/// does not begin with `start` yield nothing; an empty input is a hard
/// failure.
pub fn match_group<'a, T1, T2, T3>(start: T1, end: T2, escape_token: T3, input: &'a [u8]) -> (r:
    ParseResult<PeekResult>) where T1: Match<u8> + Copy, T2: Match<u8> + Copy, T3: Match<u8> + Copy
    ensures
        r == spec_match_group(start, end, escape_token, input@),
{
    let ghost whole = input@;
    let mut balance: usize = 1;
    let mut scanner = Scanner::new(input);
    proof {
        assert(whole.skip(0) =~= whole);
        if whole.len() > 0 {
            start.lemma_matching_bounds(whole);
        }
    }
    let started = start.recognize(&mut scanner)?;
    if started.is_none() {
        return Ok(PeekResult::NotFound);
    }
    let ghost n0 = start.spec_matching(whole).1;
    loop
        invariant
            whole == input@,
            scanner.wf(),
            scanner.spec_data() == whole,
            whole.len() > 0,
            start.spec_matching(whole).0,
            n0 == start.spec_matching(whole).1,
            1 <= n0 <= scanner.spec_position(),
            balance as int <= scanner.spec_position(),
            spec_group_scan(
                start,
                end,
                escape_token,
                whole,
                scanner.spec_position(),
                balance as int,
            ) == spec_group_scan(start, end, escape_token, whole, n0 as int, 1),
        ensures
            balance == 0,
        decreases whole.len() - scanner.spec_position(),
    {
        if balance == 0 {
            break ;
        }
        if scanner.is_empty() {
            return Ok(PeekResult::NotFound);
        }
        proof {
            start.lemma_matching_bounds(scanner.spec_remaining());
            end.lemma_matching_bounds(scanner.spec_remaining());
        }
        match_for_balanced_group(&mut scanner, &mut balance, start, end, escape_token)?;
    }
    let cursor = scanner.current_position();
    if cursor == 1 {
        return Ok(PeekResult::NotFound);
    }
    Ok(
        PeekResult::Found {
            end_slice: cursor,
            start_element_size: start.size(),
            end_element_size: end.size(),
        },
    )
}

/// The cursor just past the unescaped occurrence of `token` that closes a
/// symmetric-delimited region, scanning from `pos`: an escaped occurrence is
/// stepped over, any other element is skipped one at a time, and running out
/// of input yields nothing.
pub open spec fn spec_delimited_scan<T: Match<u8>, E: Match<u8>>(
    token: T,
    escape: E,
    data: Seq<u8>,
    pos: int,
) -> Option<int>
    decreases data.len() - pos,
{
    if pos < 0 || pos >= data.len() {
        None
    } else {
        let (m, n) = token.spec_matching(data.skip(pos));
        if m {
            if n == 0 || pos + n > data.len() {
                None
            } else if spec_escaped(escape, data, pos + n - token.spec_size()) {
                spec_delimited_scan(token, escape, data, pos + n)
            } else {
                Some(pos + n)
            }
        } else {
            spec_delimited_scan(token, escape, data, pos + 1)
        }
    }
}

/// A finished delimited scan stops inside the input, past where it started.
pub proof fn lemma_delimited_scan_bounds<T: Match<u8>, E: Match<u8>>(
    token: T,
    escape: E,
    data: Seq<u8>,
    pos: int,
)
    requires
        0 <= pos <= data.len(),
    ensures
        spec_delimited_scan(token, escape, data, pos) matches Some(c) ==> pos < c <= data.len(),
    decreases data.len() - pos,
{
    if pos >= data.len() {
    } else {
        let (m, n) = token.spec_matching(data.skip(pos));
        if m {
            if n == 0 || pos + n > data.len() {
            } else if spec_escaped(escape, data, pos + n - token.spec_size()) {
                lemma_delimited_scan_bounds(token, escape, data, pos + n);
            }
        } else {
            lemma_delimited_scan_bounds(token, escape, data, pos + 1);
        }
    }
}

/// What searching a symmetric-delimited group yields on the given input.
///
/// The input must hold at least two of the delimiter and begin with it; the
/// region then ends at the first following occurrence that is not escaped.
/// An input with no room for two delimiters, one that does not begin with
/// the delimiter, or one whose closer never comes yields nothing.
pub open spec fn spec_match_for_delimited_group<T: Match<u8>, E: Match<u8>>(
    token: T,
    escape: E,
    input: Seq<u8>,
) -> Result<PeekResult, ParseError> {
    if input.len() < 2 * token.spec_size() {
        Ok(PeekResult::NotFound)
    } else if input.len() == 0 {
        Err(ParseError::UnexpectedEndOfInput)
    } else {
        let (m0, n0) = token.spec_matching(input);
        if !m0 {
            Ok(PeekResult::NotFound)
        } else {
            match spec_delimited_scan(token, escape, input, n0 as int) {
                None => Ok(PeekResult::NotFound),
                Some(c) => Ok(
                    PeekResult::Found {
                        end_slice: c as usize,
                        start_element_size: token.spec_size(),
                        end_element_size: token.spec_size(),
                    },
                ),
            }
        }
    }
}

/// Find the boundary of a quote-like region whose start and end are the same
/// token.
///
/// The input must hold at least two of the delimiter and begin with it. The
/// region ends at the next occurrence of the token not immediately preceded
/// by `escape_token`; escaped occurrences are literal text and are stepped
/// over. No unescaped closer before the end of the input yields nothing.
pub fn match_for_delimited_group<'a, T, E>(token: T, escape_token: E, input: &'a [u8]) -> (r:
    ParseResult<PeekResult>) where T: Match<u8> + Copy, E: Match<u8> + Copy
    requires
        token.spec_size() >= 1,
    ensures
        r == spec_match_for_delimited_group(token, escape_token, input@),
{
    let ghost whole = input@;
    let size = token.size();
    if input.len() / 2 < size {
        proof {
            assert(whole.len() < 2 * token.spec_size());
        }
        return Ok(PeekResult::NotFound);
    }
    let mut scanner = Scanner::new(input);
    proof {
        assert(whole.skip(0) =~= whole);
        if whole.len() > 0 {
            token.lemma_matching_bounds(whole);
        }
    }
    let started = token.recognize(&mut scanner)?;
    if started.is_none() {
        return Ok(PeekResult::NotFound);
    }
    let ghost n0 = token.spec_matching(whole).1;
    loop
        invariant
            whole == input@,
            scanner.wf(),
            scanner.spec_data() == whole,
            whole.len() > 0,
            2 * token.spec_size() <= whole.len(),
            token.spec_matching(whole).0,
            n0 == token.spec_matching(whole).1,
            size == token.spec_size(),
            1 <= size,
            0 <= n0 <= scanner.spec_position(),
            spec_delimited_scan(token, escape_token, whole, scanner.spec_position())
                == spec_delimited_scan(token, escape_token, whole, n0 as int),
        decreases whole.len() - scanner.spec_position(),
    {
        if scanner.is_empty() {
            return Ok(PeekResult::NotFound);
        }
        let rem = scanner.remaining();
        proof {
            token.lemma_matching_bounds(rem@);
        }
        let (m, n) = token.is_matching(rem);
        if m {
            scanner.bump_by(n);
            let escaped = check_escaped_before(scanner, size, escape_token)?;
            if !escaped {
                return Ok(
                    PeekResult::Found {
                        end_slice: scanner.current_position(),
                        start_element_size: size,
                        end_element_size: size,
                    },
                );
            }
        } else {
            scanner.bump_by(1);
        }
    }
}

/// Check whether the occurrence that ends at the scanner's position is
/// escaped, rewinding by the token's declared size to the occurrence's
/// start.
fn check_escaped_before<'a, E: Match<u8>>(
    scanner: Scanner<'a, u8>,
    token_size: usize,
    escape_token: E,
) -> (r: ParseResult<bool>)
    requires
        scanner.wf(),
        token_size <= scanner.spec_position(),
    ensures
        ({
            let at = scanner.spec_position() - token_size;
            let data = scanner.spec_data();
            let size = escape_token.spec_size();
            if at < size {
                r == Ok::<bool, ParseError>(false)
            } else if at - size == data.len() {
                r == Err::<bool, ParseError>(ParseError::UnexpectedEndOfInput)
            } else {
                r == Ok::<bool, ParseError>(spec_escaped(escape_token, data, at))
            }
        }),
{
    let mut rewind_scanner = scanner;
    rewind_scanner.rewind(token_size);
    is_escaped(rewind_scanner, escape_token)
}

/// Types of groups: the closed set of boundary strategies a grammar can ask
/// for without knowing which algorithm backs each.
pub enum GroupKind {
    /// A group enclosed in parentheses.
    Parenthesis,
    /// A group enclosed in single quotes.
    Quotes,
    /// A group enclosed in double quotes.
    DoubleQuotes,
}

impl GroupKind {
    /// What peeking for this kind of group yields on the given input:
    /// parentheses are balanced with nesting, quotes are symmetric
    /// delimiters, and a backslash escapes in every kind.
    pub open spec fn spec_group_peek(self, data: Seq<u8>) -> Result<PeekResult, ParseError> {
        match self {
            GroupKind::Parenthesis => spec_match_group(
                Token::OpenParen,
                Token::CloseParen,
                Token::Backslash,
                data,
            ),
            GroupKind::Quotes => spec_match_for_delimited_group(
                Token::Quote,
                Token::Backslash,
                data,
            ),
            GroupKind::DoubleQuotes => spec_match_for_delimited_group(
                Token::DoubleQuote,
                Token::Backslash,
                data,
            ),
        }
    }
}

impl<'a> Peekable<'a, u8> for GroupKind {
    open spec fn spec_peek(&self, data: Seq<u8>) -> Result<PeekResult, ParseError> {
        self.spec_group_peek(data)
    }

    proof fn lemma_peek_bounds(&self, data: Seq<u8>) {
        match self {
            GroupKind::Parenthesis => {
                if data.len() > 0 {
                    let (m0, n0) = Token::OpenParen.spec_matching(data);
                    if m0 {
                        Token::OpenParen.lemma_matching_bounds(data);
                        lemma_group_scan_bounds(
                            Token::OpenParen,
                            Token::CloseParen,
                            Token::Backslash,
                            data,
                            n0 as int,
                            1,
                        );
                    }
                }
            },
            GroupKind::Quotes => {
                if data.len() > 0 {
                    let (m0, n0) = Token::Quote.spec_matching(data);
                    if m0 {
                        Token::Quote.lemma_matching_bounds(data);
                        lemma_delimited_scan_bounds(
                            Token::Quote,
                            Token::Backslash,
                            data,
                            n0 as int,
                        );
                    }
                }
            },
            GroupKind::DoubleQuotes => {
                if data.len() > 0 {
                    let (m0, n0) = Token::DoubleQuote.spec_matching(data);
                    if m0 {
                        Token::DoubleQuote.lemma_matching_bounds(data);
                        lemma_delimited_scan_bounds(
                            Token::DoubleQuote,
                            Token::Backslash,
                            data,
                            n0 as int,
                        );
                    }
                }
            },
        }
    }

    fn peek(&self, data: &Scanner<'a, u8>) -> (r: ParseResult<PeekResult>) {
        match self {
            GroupKind::Parenthesis => match_group(
                Token::OpenParen,
                Token::CloseParen,
                Token::Backslash,
                data.remaining(),
            ),
            GroupKind::Quotes => match_for_delimited_group(
                Token::Quote,
                Token::Backslash,
                data.remaining(),
            ),
            GroupKind::DoubleQuotes => match_for_delimited_group(
                Token::DoubleQuote,
                Token::Backslash,
                data.remaining(),
            ),
        }
    }
}

} // verus!
