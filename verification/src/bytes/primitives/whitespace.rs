//! Recognize whitespaces.

use vstd::prelude::*;

use crate::bytes::matchers::{lemma_prefix_run_len, lemma_prefix_run_props, prefix_run_len};
use crate::bytes::token::Token;
use crate::errors::{ParseError, ParseResult};
use crate::recognizer::Recognizable;
use crate::scanner::Scanner;
use crate::visitor::Visitor;

verus! {

/// The predicate of the space byte, as a value.
pub open spec fn space_pred() -> spec_fn(u8) -> bool {
    |b: u8| b == 0x20
}

/// A rule that consumes at least one space.
pub struct Whitespaces;

/// A rule that consumes zero or more spaces.
pub struct OptionalWhitespaces;

impl<'a> Visitor<'a, u8> for Whitespaces {
    /// The rule consumes the longest leading run of spaces; an empty input is
    /// a hard failure and an input that does not start with a space does not
    /// apply.
    open spec fn spec_accept(data: Seq<u8>) -> Result<int, ParseError> {
        if data.len() == 0 {
            Err(ParseError::UnexpectedEndOfInput)
        } else if prefix_run_len(data, space_pred()) == 0 {
            Err(ParseError::UnexpectedToken)
        } else {
            Ok(prefix_run_len(data, space_pred()))
        }
    }

    open spec fn spec_value(data: Seq<u8>, v: Self) -> bool {
        true
    }

    proof fn lemma_accept_bounds(data: Seq<u8>) {
        if data.len() > 0 && prefix_run_len(data, space_pred()) != 0 {
            lemma_prefix_run_props(data, space_pred());
        }
    }

    fn accept(scanner: &mut Scanner<'a, u8>) -> (r: ParseResult<Self>) {
        let ghost start = old(scanner).spec_position();
        let ghost data = old(scanner).spec_data();
        let mut found = false;
        loop
            invariant
                scanner.wf(),
                scanner.spec_data() == data,
                old(scanner).spec_data() == data,
                old(scanner).spec_position() == start,
                0 <= start <= scanner.spec_position() <= data.len(),
                forall|i: int| start <= i < scanner.spec_position() ==> space_pred()(data[i]),
                found <==> scanner.spec_position() > start,
                found ==> scanner.spec_position() < data.len(),
            decreases data.len() - scanner.spec_position(),
        {
            let ghost pos = scanner.spec_position();
            proof {
                assert(data.skip(start).len() == data.len() - start);
            }
            match Token::Whitespace.recognize(scanner)? {
                Some(_) => {
                    assert(space_pred()(data[pos]));
                    if scanner.is_empty() {
                        proof {
                            lemma_prefix_run_len(
                                data.skip(start),
                                space_pred(),
                                scanner.spec_position() - start,
                            );
                        }
                        return Ok(Whitespaces);
                    }
                    found = true;
                },
                None => {
                    proof {
                        assert(!space_pred()(data[pos]));
                        lemma_prefix_run_len(data.skip(start), space_pred(), pos - start);
                    }
                    if !found {
                        return Err(ParseError::UnexpectedToken);
                    }
                    return Ok(Whitespaces);
                },
            }
        }
    }
}

impl<'a> Visitor<'a, u8> for OptionalWhitespaces {
    /// The rule consumes the longest leading run of spaces, which may be
    /// empty; it never fails.
    open spec fn spec_accept(data: Seq<u8>) -> Result<int, ParseError> {
        Ok(prefix_run_len(data, space_pred()))
    }

    open spec fn spec_value(data: Seq<u8>, v: Self) -> bool {
        true
    }

    proof fn lemma_accept_bounds(data: Seq<u8>) {
        lemma_prefix_run_props(data, space_pred());
    }

    fn accept(scanner: &mut Scanner<'a, u8>) -> (r: ParseResult<Self>) {
        let ghost start = old(scanner).spec_position();
        let ghost data = old(scanner).spec_data();
        if scanner.is_empty() {
            proof {
                lemma_prefix_run_len(data.skip(start), space_pred(), 0);
            }
            return Ok(OptionalWhitespaces);
        }
        loop
            invariant
                scanner.wf(),
                scanner.spec_data() == data,
                old(scanner).spec_data() == data,
                old(scanner).spec_position() == start,
                0 <= start <= scanner.spec_position() < data.len(),
                forall|i: int| start <= i < scanner.spec_position() ==> space_pred()(data[i]),
            decreases data.len() - scanner.spec_position(),
        {
            let ghost pos = scanner.spec_position();
            proof {
                assert(data.skip(start).len() == data.len() - start);
            }
            match Token::Whitespace.recognize(scanner)? {
                Some(_) => {
                    assert(space_pred()(data[pos]));
                    if scanner.is_empty() {
                        proof {
                            lemma_prefix_run_len(
                                data.skip(start),
                                space_pred(),
                                scanner.spec_position() - start,
                            );
                        }
                        return Ok(OptionalWhitespaces);
                    }
                },
                None => {
                    proof {
                        assert(!space_pred()(data[pos]));
                        lemma_prefix_run_len(data.skip(start), space_pred(), pos - start);
                    }
                    return Ok(OptionalWhitespaces);
                },
            }
        }
    }
}

} // verus!
