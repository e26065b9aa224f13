//! The rewind-on-failure alternation builder over composite rules.

use vstd::prelude::*;

use crate::errors::{ParseError, ParseResult};
use crate::scanner::Scanner;
use crate::visitor::Visitor;

verus! {

/// A fluent alternation builder over `Visitor` candidates with a per-branch
/// transform to a common output type.
///
/// A failing `Visitor` may have advanced the scanner, so every branch
/// snapshots the position and restores it when the candidate answers "this
/// alternative does not apply" (`UnexpectedToken`). Any other error kind is
/// structural and aborts the whole alternation at once, without restoring.
pub struct Acceptor<V> {
    /// The accepted value, if any branch has succeeded so far.
    data: Option<V>,
}

impl<V> Acceptor<V> {
    /// The value accepted so far, if any.
    pub closed spec fn spec_data(&self) -> Option<V> {
        self.data
    }

    /// Create an alternation with no branch tried yet.
    pub fn new() -> (r: Self)
        ensures
            r.spec_data() is None,
    {
        Acceptor { data: None }
    }

    /// Attempt to accept the candidate rule `U` and transform its value,
    /// unless an earlier branch already succeeded.
    ///
    /// A prior success short-circuits: the scanner does not move and the held
    /// value stays. Otherwise the candidate runs where the scanner stands: on
    /// success the transformed value is kept; on `UnexpectedToken` the
    /// scanner is rewound to where this branch started and the next branch
    /// may try; any other error is returned at once, with the scanner
    /// wherever the candidate left it.
    pub fn try_or<'a, T, U: Visitor<'a, T>, F: Fn(U) -> V>(
        self,
        transformer: F,
        scanner: &mut Scanner<'a, T>,
    ) -> (r: ParseResult<Self>)
        requires
            old(scanner).wf(),
            forall|u: U| call_requires(transformer, (u,)),
        ensures
            final(scanner).wf(),
            final(scanner).spec_data() == old(scanner).spec_data(),
            final(scanner).spec_position() >= old(scanner).spec_position(),
            ({
                let rem = old(scanner).spec_remaining();
                if self.spec_data() is Some {
                    &&& r matches Ok(rr) && rr.spec_data() == self.spec_data()
                    &&& final(scanner).spec_position() == old(scanner).spec_position()
                } else {
                    match U::spec_accept(rem) {
                        Ok(n) => {
                            &&& r matches Ok(rr) && rr.spec_data() matches Some(v) && (exists|u: U|
                                U::spec_value(rem, u) && call_ensures(transformer, (u,), v))
                            &&& final(scanner).spec_position() == old(scanner).spec_position() + n
                        },
                        Err(e) => {
                            if e is UnexpectedToken {
                                &&& r matches Ok(rr) && rr.spec_data() is None
                                &&& final(scanner).spec_position() == old(
                                    scanner,
                                ).spec_position()
                            } else {
                                r == Err::<Acceptor<V>, ParseError>(e)
                            }
                        },
                    }
                }
            }),
    {
        let cursor = scanner.current_position();
        if self.data.is_some() {
            return Ok(self);
        }
        match U::accept(scanner) {
            Ok(found) => Ok(Acceptor { data: Some(transformer(found)) }),
            Err(ParseError::UnexpectedToken) => {
                scanner.jump_to(cursor);
                Ok(self)
            },
            Err(err) => Err(err),
        }
    }

    /// Consume the alternation and return the accepted value, if any branch
    /// succeeded.
    pub fn finish(self) -> (r: Option<V>)
        ensures
            r == self.spec_data(),
    {
        self.data
    }
}

/// How far an alternation over the rules `U1` then `U2` consumes on the
/// given input: the first branch that applies decides, a branch that
/// answers "does not apply" hands the untouched input to the next, any
/// other failure of a branch is final, and no branch applying leaves the
/// alternation not applying.
pub open spec fn spec_acceptor_pair_outcome<'a, T, U1: Visitor<'a, T>, U2: Visitor<'a, T>>(
    data: Seq<T>,
) -> Result<int, ParseError> {
    match U1::spec_accept(data) {
        Ok(n) => Ok(n),
        Err(e) => if e is UnexpectedToken {
            match U2::spec_accept(data) {
                Ok(n) => Ok(n),
                Err(e2) => if e2 is UnexpectedToken {
                    Err(ParseError::UnexpectedToken)
                } else {
                    Err(e2)
                },
            }
        } else {
            Err(e)
        },
    }
}

/// Alternation over composite rules is fair: with branches `[U1, U2]` where
/// `U1` does not apply to the input and `U2` accepts it, the alternation
/// accepts with exactly the consumption `U2` alone would make from the
/// original position, because the failing branch's partial progress is
/// rewound before the next branch runs.
pub proof fn lemma_acceptor_alternation_fair<'a, T, U1: Visitor<'a, T>, U2: Visitor<'a, T>>(
    data: Seq<T>,
)
    requires
        U1::spec_accept(data) == Err::<int, ParseError>(ParseError::UnexpectedToken),
        U2::spec_accept(data) is Ok,
    ensures
        spec_acceptor_pair_outcome::<T, U1, U2>(data) == U2::spec_accept(data),
{
}

} // verus!
