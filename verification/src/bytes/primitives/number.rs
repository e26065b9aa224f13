//! Define the number token and its acceptor.

use vstd::prelude::*;

use crate::bytes::matchers::{
    digit_pred, lemma_prefix_run_props, match_number, prefix_run_len, spec_match_number,
};
use crate::errors::{ParseError, ParseResult};
use crate::matcher::Match;
use crate::peek::{DefaultPeekableImplementation, PeekSize, PeekableImplementation};
use crate::recognizer::recognize_slice;
use crate::scanner::Scanner;
use crate::visitor::Visitor;

verus! {

/// The variable-length token of a run of decimal digits.
pub struct TokenNumber;

impl Match<u8> for TokenNumber {
    open spec fn spec_matching(&self, data: Seq<u8>) -> (bool, usize) {
        spec_match_number(data)
    }

    /// The run's length varies with the input, so no size is declared.
    open spec fn spec_size(&self) -> usize {
        0usize
    }

    proof fn lemma_matching_bounds(&self, data: Seq<u8>) {
        lemma_prefix_run_props(data, digit_pred());
    }

    fn is_matching(&self, data: &[u8]) -> (r: (bool, usize)) {
        match_number(data)
    }

    fn size(&self) -> (r: usize) {
        0
    }
}

/// The value a run of decimal digits denotes, most significant digit first.
pub open spec fn spec_dec_value(digits: Seq<u8>) -> int
    decreases digits.len(),
{
    if digits.len() == 0 {
        0
    } else {
        spec_dec_value(digits.drop_last()) * 10 + (digits.last() - 0x30)
    }
}

/// A digit run's value is never negative.
pub proof fn lemma_dec_value_nonneg(digits: Seq<u8>)
    requires
        forall|i: int| 0 <= i < digits.len() ==> digit_pred()(digits[i]),
    ensures
        spec_dec_value(digits) >= 0,
    decreases digits.len(),
{
    if digits.len() > 0 {
        lemma_dec_value_nonneg(digits.drop_last());
    }
}

/// Extending a digit run can only grow its value.
pub proof fn lemma_dec_value_prefix(digits: Seq<u8>, j: int)
    requires
        0 <= j <= digits.len(),
        forall|i: int| 0 <= i < digits.len() ==> digit_pred()(digits[i]),
    ensures
        spec_dec_value(digits.take(j)) <= spec_dec_value(digits),
    decreases digits.len() - j,
{
    if j == digits.len() {
        assert(digits.take(j) =~= digits);
    } else {
        assert(digits.take(j + 1).drop_last() =~= digits.take(j));
        assert(forall|i: int|
            0 <= i < digits.take(j).len() ==> digit_pred()(#[trigger] digits.take(j)[i]));
        lemma_dec_value_nonneg(digits.take(j));
        assert(spec_dec_value(digits.take(j + 1)) == spec_dec_value(digits.take(j)) * 10 + (
        digits[j] - 0x30));
        lemma_dec_value_prefix(digits, j + 1);
    }
}

/// A parsed decimal number.
#[derive(Debug, PartialEq, Eq, Structural, Clone, Copy)]
pub struct Number<T>(pub T);

/// Read the value of a digit run, reporting nothing when it does not fit.
fn parse_decimal_usize(digits: &[u8]) -> (r: Option<usize>)
    requires
        forall|i: int| 0 <= i < digits@.len() ==> digit_pred()(digits@[i]),
    ensures
        match r {
            Some(v) => v == spec_dec_value(digits@),
            None => spec_dec_value(digits@) > usize::MAX,
        },
{
    let n = digits.len();
    let mut value: usize = 0;
    let mut i: usize = 0;
    while i < n
        invariant
            0 <= i <= n,
            n == digits@.len(),
            forall|j: int| 0 <= j < digits@.len() ==> digit_pred()(digits@[j]),
            value == spec_dec_value(digits@.take(i as int)),
        decreases n - i,
    {
        proof {
            assert(digits@.take(i + 1).drop_last() =~= digits@.take(i as int));
            lemma_dec_value_nonneg(digits@);
        }
        let d = digits[i] - 0x30;
        let scaled = match value.checked_mul(10) {
            Some(s) => s,
            None => {
                proof {
                    lemma_dec_value_prefix(digits@, i + 1);
                }
                return None;
            },
        };
        let next = match scaled.checked_add(d as usize) {
            Some(s) => s,
            None => {
                proof {
                    lemma_dec_value_prefix(digits@, i + 1);
                }
                return None;
            },
        };
        value = next;
        i = i + 1;
    }
    proof {
        assert(digits@.take(n as int) =~= digits@);
    }
    Some(value)
}

/// Read the value of a digit run into the widest supported width, reporting
/// nothing when it does not fit.
fn parse_decimal_u64(digits: &[u8]) -> (r: Option<u64>)
    requires
        forall|i: int| 0 <= i < digits@.len() ==> digit_pred()(digits@[i]),
    ensures
        match r {
            Some(v) => v == spec_dec_value(digits@),
            None => spec_dec_value(digits@) > u64::MAX,
        },
{
    let n = digits.len();
    let mut value: u64 = 0;
    let mut i: usize = 0;
    while i < n
        invariant
            0 <= i <= n,
            n == digits@.len(),
            forall|j: int| 0 <= j < digits@.len() ==> digit_pred()(digits@[j]),
            value == spec_dec_value(digits@.take(i as int)),
        decreases n - i,
    {
        proof {
            assert(digits@.take(i + 1).drop_last() =~= digits@.take(i as int));
            lemma_dec_value_nonneg(digits@);
        }
        let d = digits[i] - 0x30;
        let scaled = match value.checked_mul(10) {
            Some(s) => s,
            None => {
                proof {
                    lemma_dec_value_prefix(digits@, i + 1);
                }
                return None;
            },
        };
        let next = match scaled.checked_add(d as u64) {
            Some(s) => s,
            None => {
                proof {
                    lemma_dec_value_prefix(digits@, i + 1);
                }
                return None;
            },
        };
        value = next;
        i = i + 1;
    }
    proof {
        assert(digits@.take(n as int) =~= digits@);
    }
    Some(value)
}

impl<'a> Visitor<'a, u8> for Number<usize> {
    /// The rule consumes the longest leading digit run; an empty input is a
    /// hard failure, an input that does not start with a digit does not
    /// apply, and a run whose value does not fit the integer type fails as a
    /// malformed number after the run was consumed.
    open spec fn spec_accept(data: Seq<u8>) -> Result<int, ParseError> {
        let run = prefix_run_len(data, digit_pred());
        if data.len() == 0 {
            Err(ParseError::UnexpectedEndOfInput)
        } else if run == 0 {
            Err(ParseError::UnexpectedToken)
        } else if spec_dec_value(data.take(run)) > usize::MAX {
            Err(ParseError::ParseIntError)
        } else {
            Ok(run)
        }
    }

    open spec fn spec_value(data: Seq<u8>, v: Self) -> bool {
        v.0 == spec_dec_value(data.take(prefix_run_len(data, digit_pred())))
    }

    proof fn lemma_accept_bounds(data: Seq<u8>) {
        lemma_prefix_run_props(data, digit_pred());
    }

    fn accept(scanner: &mut Scanner<'a, u8>) -> (r: ParseResult<Self>) {
        let ghost rem = old(scanner).spec_remaining();
        proof {
            lemma_prefix_run_props(rem, digit_pred());
        }
        let raw = recognize_slice(TokenNumber, scanner)?;
        match parse_decimal_usize(raw) {
            Some(v) => Ok(Number(v)),
            None => Err(ParseError::ParseIntError),
        }
    }
}

impl<'a> Visitor<'a, u8> for Number<u64> {
    /// The rule consumes the longest leading digit run; an empty input is a
    /// hard failure, an input that does not start with a digit does not
    /// apply, and a run whose value does not fit the integer type fails as a
    /// malformed number after the run was consumed.
    open spec fn spec_accept(data: Seq<u8>) -> Result<int, ParseError> {
        let run = prefix_run_len(data, digit_pred());
        if data.len() == 0 {
            Err(ParseError::UnexpectedEndOfInput)
        } else if run == 0 {
            Err(ParseError::UnexpectedToken)
        } else if spec_dec_value(data.take(run)) > u64::MAX {
            Err(ParseError::ParseIntError)
        } else {
            Ok(run)
        }
    }

    open spec fn spec_value(data: Seq<u8>, v: Self) -> bool {
        v.0 == spec_dec_value(data.take(prefix_run_len(data, digit_pred())))
    }

    proof fn lemma_accept_bounds(data: Seq<u8>) {
        lemma_prefix_run_props(data, digit_pred());
    }

    fn accept(scanner: &mut Scanner<'a, u8>) -> (r: ParseResult<Self>) {
        let ghost rem = old(scanner).spec_remaining();
        proof {
            lemma_prefix_run_props(rem, digit_pred());
        }
        let raw = recognize_slice(TokenNumber, scanner)?;
        match parse_decimal_u64(raw) {
            Some(v) => Ok(Number(v)),
            None => Err(ParseError::ParseIntError),
        }
    }
}

impl<'a> Visitor<'a, u8> for Number<u32> {
    /// The rule consumes the longest leading digit run; an empty input is a
    /// hard failure, an input that does not start with a digit does not
    /// apply, and a run whose value does not fit the integer type fails as a
    /// malformed number after the run was consumed.
    open spec fn spec_accept(data: Seq<u8>) -> Result<int, ParseError> {
        let run = prefix_run_len(data, digit_pred());
        if data.len() == 0 {
            Err(ParseError::UnexpectedEndOfInput)
        } else if run == 0 {
            Err(ParseError::UnexpectedToken)
        } else if spec_dec_value(data.take(run)) > u32::MAX {
            Err(ParseError::ParseIntError)
        } else {
            Ok(run)
        }
    }

    open spec fn spec_value(data: Seq<u8>, v: Self) -> bool {
        v.0 == spec_dec_value(data.take(prefix_run_len(data, digit_pred())))
    }

    proof fn lemma_accept_bounds(data: Seq<u8>) {
        lemma_prefix_run_props(data, digit_pred());
    }

    fn accept(scanner: &mut Scanner<'a, u8>) -> (r: ParseResult<Self>) {
        let ghost rem = old(scanner).spec_remaining();
        proof {
            lemma_prefix_run_props(rem, digit_pred());
        }
        let raw = recognize_slice(TokenNumber, scanner)?;
        match parse_decimal_u64(raw) {
            Some(v) => if v <= u32::MAX as u64 {
                Ok(Number(v as u32))
            } else {
                Err(ParseError::ParseIntError)
            },
            None => Err(ParseError::ParseIntError),
        }
    }
}

impl PeekSize<u8> for Number<usize> {
    /// A number's length varies with the input, so no size is declared and
    /// the found number stays inside the reported content.
    open spec fn spec_peek_size() -> usize {
        0usize
    }

    fn peek_size(&self) -> (r: usize) {
        0
    }
}

impl PeekableImplementation for Number<usize> {
    /// A number rule is happy with the derived element-by-element lookahead.
    type Type = DefaultPeekableImplementation;
}

} // verus!
