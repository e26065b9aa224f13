//! Binary operators.

use vstd::prelude::*;

use crate::acceptor::Acceptor;
use crate::bytes::token::Token;
use crate::errors::{ParseError, ParseResult};
use crate::recognizer::recognize;
use crate::scanner::Scanner;
use crate::visitor::Visitor;

verus! {

/// What accepting one fixed byte yields on the given input.
pub open spec fn spec_accept_byte(b: u8, data: Seq<u8>) -> Result<int, ParseError> {
    if data.len() == 0 {
        Err(ParseError::UnexpectedEndOfInput)
    } else if data[0] != b {
        Err(ParseError::UnexpectedToken)
    } else {
        Ok(1)
    }
}

/// What accepting two fixed bytes in a row yields on the given input: the
/// first byte decides whether the rule applies at all, and a missing second
/// byte after a present first one is a structural failure.
pub open spec fn spec_accept_byte_pair(b0: u8, b1: u8, data: Seq<u8>) -> Result<int, ParseError> {
    if data.len() == 0 {
        Err(ParseError::UnexpectedEndOfInput)
    } else if data[0] != b0 {
        Err(ParseError::UnexpectedToken)
    } else if data.len() == 1 {
        Err(ParseError::UnexpectedEndOfInput)
    } else if data[1] != b1 {
        Err(ParseError::UnexpectedToken)
    } else {
        Ok(2)
    }
}

/// The rule of the `==` operator.
struct BinaryOperatorEqual;

impl<'a> Visitor<'a, u8> for BinaryOperatorEqual {
    open spec fn spec_accept(data: Seq<u8>) -> Result<int, ParseError> {
        spec_accept_byte_pair(0x3d, 0x3d, data)
    }

    open spec fn spec_value(data: Seq<u8>, v: Self) -> bool {
        true
    }

    proof fn lemma_accept_bounds(data: Seq<u8>) {
    }

    fn accept(scanner: &mut Scanner<'a, u8>) -> (r: ParseResult<Self>) {
        recognize(Token::Equal, scanner)?;
        recognize(Token::Equal, scanner)?;
        Ok(BinaryOperatorEqual)
    }
}

/// The rule of the `!=` operator.
struct BinaryOperatorNotEqual;

impl<'a> Visitor<'a, u8> for BinaryOperatorNotEqual {
    open spec fn spec_accept(data: Seq<u8>) -> Result<int, ParseError> {
        spec_accept_byte_pair(0x21, 0x3d, data)
    }

    open spec fn spec_value(data: Seq<u8>, v: Self) -> bool {
        true
    }

    proof fn lemma_accept_bounds(data: Seq<u8>) {
    }

    fn accept(scanner: &mut Scanner<'a, u8>) -> (r: ParseResult<Self>) {
        recognize(Token::Exclamation, scanner)?;
        recognize(Token::Equal, scanner)?;
        Ok(BinaryOperatorNotEqual)
    }
}

/// The rule of the `<` operator.
struct BinaryOperatorLessThan;

impl<'a> Visitor<'a, u8> for BinaryOperatorLessThan {
    open spec fn spec_accept(data: Seq<u8>) -> Result<int, ParseError> {
        spec_accept_byte(0x3c, data)
    }

    open spec fn spec_value(data: Seq<u8>, v: Self) -> bool {
        true
    }

    proof fn lemma_accept_bounds(data: Seq<u8>) {
    }

    fn accept(scanner: &mut Scanner<'a, u8>) -> (r: ParseResult<Self>) {
        recognize(Token::LessThan, scanner)?;
        Ok(BinaryOperatorLessThan)
    }
}

/// The rule of the `<=` operator.
struct BinaryOperatorLessThanOrEqual;

impl<'a> Visitor<'a, u8> for BinaryOperatorLessThanOrEqual {
    open spec fn spec_accept(data: Seq<u8>) -> Result<int, ParseError> {
        spec_accept_byte_pair(0x3c, 0x3d, data)
    }

    open spec fn spec_value(data: Seq<u8>, v: Self) -> bool {
        true
    }

    proof fn lemma_accept_bounds(data: Seq<u8>) {
    }

    fn accept(scanner: &mut Scanner<'a, u8>) -> (r: ParseResult<Self>) {
        recognize(Token::LessThan, scanner)?;
        recognize(Token::Equal, scanner)?;
        Ok(BinaryOperatorLessThanOrEqual)
    }
}

/// The rule of the `>` operator.
struct BinaryOperatorGreaterThan;

impl<'a> Visitor<'a, u8> for BinaryOperatorGreaterThan {
    open spec fn spec_accept(data: Seq<u8>) -> Result<int, ParseError> {
        spec_accept_byte(0x3e, data)
    }

    open spec fn spec_value(data: Seq<u8>, v: Self) -> bool {
        true
    }

    proof fn lemma_accept_bounds(data: Seq<u8>) {
    }

    fn accept(scanner: &mut Scanner<'a, u8>) -> (r: ParseResult<Self>) {
        recognize(Token::GreaterThan, scanner)?;
        Ok(BinaryOperatorGreaterThan)
    }
}

/// The rule of the `>=` operator.
struct BinaryOperatorGreaterThanOrEqual;

impl<'a> Visitor<'a, u8> for BinaryOperatorGreaterThanOrEqual {
    open spec fn spec_accept(data: Seq<u8>) -> Result<int, ParseError> {
        spec_accept_byte_pair(0x3e, 0x3d, data)
    }

    open spec fn spec_value(data: Seq<u8>, v: Self) -> bool {
        true
    }

    proof fn lemma_accept_bounds(data: Seq<u8>) {
    }

    fn accept(scanner: &mut Scanner<'a, u8>) -> (r: ParseResult<Self>) {
        recognize(Token::GreaterThan, scanner)?;
        recognize(Token::Equal, scanner)?;
        Ok(BinaryOperatorGreaterThanOrEqual)
    }
}

/// Binary comparison operators.
#[derive(Debug, PartialEq, Eq, Structural, Clone, Copy)]
pub enum BinaryOperator {
    /// The `==` operator
    Equal,
    /// The `!=` operator
    NotEqual,
    /// The `<` operator
    LessThan,
    /// The `<=` operator
    LessThanOrEqual,
    /// The `>` operator
    GreaterThan,
    /// The `>=` operator
    GreaterThanOrEqual,
}

/// What accepting a binary operator yields on the given input.
///
/// The branches are tried in a set order with the one-character comparisons
/// before their or-equal forms, so `<` and `>` always win over `<=` and
/// `>=`. Only "does not apply" moves to the next branch; a first operator
/// character with nothing after it is a structural failure.
pub open spec fn spec_binary_operator_accept(data: Seq<u8>) -> Result<int, ParseError> {
    if data.len() == 0 {
        Err(ParseError::UnexpectedEndOfInput)
    } else if data[0] == 0x3d || data[0] == 0x21 {
        spec_accept_byte_pair(data[0], 0x3d, data)
    } else if data[0] == 0x3c || data[0] == 0x3e {
        Ok(1)
    } else {
        Err(ParseError::UnexpectedToken)
    }
}

/// The operator a successful accept yields for the given input.
pub open spec fn spec_binary_operator_for(data: Seq<u8>) -> BinaryOperator {
    if data.len() > 0 && data[0] == 0x3d {
        BinaryOperator::Equal
    } else if data.len() > 0 && data[0] == 0x21 {
        BinaryOperator::NotEqual
    } else if data.len() > 0 && data[0] == 0x3c {
        BinaryOperator::LessThan
    } else {
        BinaryOperator::GreaterThan
    }
}

impl<'a> Visitor<'a, u8> for BinaryOperator {
    open spec fn spec_accept(data: Seq<u8>) -> Result<int, ParseError> {
        spec_binary_operator_accept(data)
    }

    open spec fn spec_value(data: Seq<u8>, v: Self) -> bool {
        v == spec_binary_operator_for(data)
    }

    proof fn lemma_accept_bounds(data: Seq<u8>) {
    }

    /// Try each operator rule in order and yield the operator of the first
    /// that applies.
    fn accept(scanner: &mut Scanner<'a, u8>) -> (r: ParseResult<Self>) {
        let found = Acceptor::new().try_or(to_equal, scanner)?.try_or(
            to_not_equal,
            scanner,
        )?.try_or(to_less_than, scanner)?.try_or(to_less_than_or_equal, scanner)?.try_or(
            to_greater_than,
            scanner,
        )?.try_or(to_greater_than_or_equal, scanner)?.finish();
        match found {
            Some(op) => Ok(op),
            None => Err(ParseError::UnexpectedToken),
        }
    }
}

/// The branch transform of the `==` rule.
fn to_equal(v: BinaryOperatorEqual) -> (op: BinaryOperator)
    ensures
        op == BinaryOperator::Equal,
{
    BinaryOperator::Equal
}

/// The branch transform of the `!=` rule.
fn to_not_equal(v: BinaryOperatorNotEqual) -> (op: BinaryOperator)
    ensures
        op == BinaryOperator::NotEqual,
{
    BinaryOperator::NotEqual
}

/// The branch transform of the `<` rule.
fn to_less_than(v: BinaryOperatorLessThan) -> (op: BinaryOperator)
    ensures
        op == BinaryOperator::LessThan,
{
    BinaryOperator::LessThan
}

/// The branch transform of the `<=` rule.
fn to_less_than_or_equal(v: BinaryOperatorLessThanOrEqual) -> (op: BinaryOperator)
    ensures
        op == BinaryOperator::LessThanOrEqual,
{
    BinaryOperator::LessThanOrEqual
}

/// The branch transform of the `>` rule.
fn to_greater_than(v: BinaryOperatorGreaterThan) -> (op: BinaryOperator)
    ensures
        op == BinaryOperator::GreaterThan,
{
    BinaryOperator::GreaterThan
}

/// The branch transform of the `>=` rule.
fn to_greater_than_or_equal(v: BinaryOperatorGreaterThanOrEqual) -> (op: BinaryOperator)
    ensures
        op == BinaryOperator::GreaterThanOrEqual,
{
    BinaryOperator::GreaterThanOrEqual
}

} // verus!
