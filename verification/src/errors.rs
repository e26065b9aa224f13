//! Error types shared by every rule of the library.

use vstd::prelude::*;

verus! {

/// The result of a parse operation.
pub type ParseResult<T> = Result<T, ParseError>;

/// How a parse attempt failed.
///
/// Only `UnexpectedToken` means "this rule does not apply here" and may be
/// recovered from by trying another alternative; every other kind is a
/// structural failure that alternation must propagate unchanged.
#[derive(Clone, Copy, Debug, PartialEq, Eq, Structural)]
pub enum ParseError {
    /// The scanner has fewer elements remaining than the rule requires.
    UnexpectedEndOfInput,
    /// The rule's content test failed; recoverable by alternation.
    UnexpectedToken,
    /// A recognized byte region is not valid UTF-8.
    Utf8Error,
    /// A recognized digit run does not fit in the requested integer type.
    ParseIntError,
}

} // verus!
