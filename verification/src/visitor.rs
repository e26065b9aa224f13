//! The composite-rule capability.

use vstd::prelude::*;

use crate::errors::{ParseError, ParseResult};
use crate::scanner::Scanner;

verus! {

/// A `Visitor` is a composite grammar rule: `accept` consumes input from a
/// scanner, possibly across many nested sub-rules, and returns the parsed
/// value.
///
/// Unlike a `Recognizable`, a failing `Visitor` may have advanced the scanner
/// before failing; callers that need alternation must restore the position
/// themselves (see `Acceptor`).
pub trait Visitor<'a, T>: Sized {
    /// The outcome `accept` yields on the given remaining input: the number
    /// of elements the rule consumes, or the error it fails with.
    spec fn spec_accept(data: Seq<T>) -> Result<int, ParseError>;

    /// How a parsed value relates to the input it was parsed from.
    spec fn spec_value(data: Seq<T>, v: Self) -> bool;

    /// A successful rule consumes at most what remains.
    proof fn lemma_accept_bounds(data: Seq<T>)
        ensures
            Self::spec_accept(data) matches Ok(n) ==> 0 <= n <= data.len(),
    ;

    /// Try to accept the rule on the scanner and return the parsed value.
    ///
    /// On success the scanner has advanced by exactly what the rule consumed;
    /// on failure it stands at or after its old position, never before.
    fn accept(scanner: &mut Scanner<'a, T>) -> (r: ParseResult<Self>)
        requires
            old(scanner).wf(),
        ensures
            final(scanner).wf(),
            final(scanner).spec_data() == old(scanner).spec_data(),
            final(scanner).spec_position() >= old(scanner).spec_position(),
            match r {
                Ok(v) => Self::spec_accept(old(scanner).spec_remaining()) == Ok::<int, ParseError>(
                    final(scanner).spec_position() - old(scanner).spec_position(),
                ) && Self::spec_value(old(scanner).spec_remaining(), v),
                Err(e) => Self::spec_accept(old(scanner).spec_remaining()) == Err::<
                    int,
                    ParseError,
                >(e),
            },
    ;
}

} // verus!
