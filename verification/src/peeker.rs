//! The multi-candidate boundary chooser.

use vstd::prelude::*;

use crate::errors::{ParseError, ParseResult};
use crate::peek::{PeekResult, Peekable, Peeking};
use crate::scanner::Scanner;

verus! {

/// A pool of boundary searches evaluated against one scanner: of every
/// candidate that finds a region, the one with the smallest span wins, and
/// among equal spans the earliest added candidate is kept.
///
/// Candidates are run in the order they are added; the first error any of
/// them reports is held and returned when the pool is read out.
pub struct Peeker<'a, 'b, T> {
    /// The scanner every candidate is evaluated against.
    scanner: &'b Scanner<'a, T>,
    /// The smallest region found so far, if any.
    best: Option<Peeking<'a, T>>,
    /// The first error a candidate reported, if any.
    failure: Option<ParseError>,
}

impl<'a, 'b, T> Peeker<'a, 'b, T> {
    /// The scanner the pool evaluates against.
    pub closed spec fn spec_scanner(&self) -> Scanner<'a, T> {
        *self.scanner
    }

    /// The smallest region found so far, if any.
    pub closed spec fn spec_best(&self) -> Option<Peeking<'a, T>> {
        self.best
    }

    /// The first error a candidate reported, if any.
    pub closed spec fn spec_failure(&self) -> Option<ParseError> {
        self.failure
    }

    /// Whether the pool's held state is well formed: a held region is a
    /// prefix view of the scanner's remaining input.
    pub open spec fn wf(&self) -> bool {
        &&& self.spec_scanner().wf()
        &&& self.spec_best() matches Some(p) ==> {
            &&& p.end_slice <= self.spec_scanner().spec_remaining().len()
            &&& p.data@ == self.spec_scanner().spec_remaining().take(p.end_slice as int)
        }
    }

    /// Create an empty pool over the given scanner.
    pub fn new(scanner: &'b Scanner<'a, T>) -> (r: Self)
        requires
            scanner.wf(),
        ensures
            r.wf(),
            r.spec_scanner() == *scanner,
            r.spec_best() is None,
            r.spec_failure() is None,
    {
        Self { scanner, best: None, failure: None }
    }

    /// Run one more candidate against the scanner and keep its find when it
    /// is the smallest seen so far.
    ///
    /// After an earlier candidate's error the pool is frozen. Otherwise the
    /// candidate's find replaces the held one exactly when it is strictly
    /// smaller; a miss changes nothing; an error is held for `peek` to
    /// report.
    pub fn add_peekable<F: Peekable<'a, T>>(self, peekable: F) -> (r: Self)
        requires
            self.wf(),
        ensures
            r.wf(),
            r.spec_scanner() == self.spec_scanner(),
            ({
                let rem = self.spec_scanner().spec_remaining();
                if self.spec_failure() is Some {
                    r.spec_best() == self.spec_best() && r.spec_failure() == self.spec_failure()
                } else {
                    match peekable.spec_peek(rem) {
                        Err(e) => r.spec_best() == self.spec_best() && r.spec_failure() == Some(e),
                        Ok(PeekResult::NotFound) => r.spec_best() == self.spec_best()
                            && r.spec_failure() is None,
                        Ok(
                            PeekResult::Found { end_slice, start_element_size, end_element_size },
                        ) => {
                            &&& r.spec_failure() is None
                            &&& if self.spec_best() matches Some(b) && b.data@.len()
                                <= end_slice {
                                r.spec_best() == self.spec_best()
                            } else {
                                r.spec_best() matches Some(p) && p.end_slice == end_slice
                                    && p.start_element_size == start_element_size
                                    && p.end_element_size == end_element_size && p.data@
                                    == rem.take(end_slice as int)
                            }
                        },
                    }
                }
            }),
    {
        if self.failure.is_some() {
            return self;
        }
        match crate::peek::peek(peekable, self.scanner) {
            Err(e) => Peeker { scanner: self.scanner, best: self.best, failure: Some(e) },
            Ok(None) => self,
            Ok(Some(found)) => {
                match &self.best {
                    None => Peeker { scanner: self.scanner, best: Some(found), failure: None },
                    Some(held) => {
                        if found.data.len() < held.data.len() {
                            Peeker { scanner: self.scanner, best: Some(found), failure: None }
                        } else {
                            self
                        }
                    },
                }
            },
        }
    }

    /// Read the pool out: the smallest region any candidate found, or the
    /// first error one of them reported.
    pub fn peek(self) -> (r: ParseResult<Option<Peeking<'a, T>>>)
        ensures
            match self.spec_failure() {
                Some(e) => r == Err::<Option<Peeking<'a, T>>, ParseError>(e),
                None => r matches Ok(b) && b == self.spec_best(),
            },
    {
        match self.failure {
            Some(e) => Err(e),
            None => Ok(self.best),
        }
    }
}

} // verus!
