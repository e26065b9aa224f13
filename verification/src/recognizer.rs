//! Defines how to recognize a single token-like object.

use vstd::prelude::*;

use crate::errors::{ParseError, ParseResult};
use crate::matcher::Match;
use crate::scanner::Scanner;

verus! {

/// The capability to attempt-and-consume a single `Match`-like value on a
/// scanner.
///
/// On a match the scanner advances by exactly the matched length; on a
/// non-match it does not move at all, so alternation over `Recognizable`
/// candidates needs no explicit rewind.
pub trait Recognizable<'a, T, V>: Match<T> + Sized {
    /// How a recognized value of type `V` relates to the input it was
    /// recognized on.
    spec fn spec_value(&self, data: Seq<T>, v: V) -> bool;

    /// Try to recognize the object on the given scanner.
    ///
    /// An empty scanner is a hard failure (`UnexpectedEndOfInput`), distinct
    /// from "the matcher did not match" (`Ok(None)`, not an error).
    fn recognize(self, scanner: &mut Scanner<'a, T>) -> (r: ParseResult<Option<V>>)
        requires
            old(scanner).wf(),
        ensures
            final(scanner).wf(),
            final(scanner).spec_data() == old(scanner).spec_data(),
            ({
                let rem = old(scanner).spec_remaining();
                if rem.len() == 0 {
                    &&& r == Err::<Option<V>, ParseError>(ParseError::UnexpectedEndOfInput)
                    &&& final(scanner).spec_position() == old(scanner).spec_position()
                } else {
                    let (matched, consumed) = self.spec_matching(rem);
                    if matched {
                        &&& r matches Ok(Some(v)) && self.spec_value(rem, v)
                        &&& final(scanner).spec_position() == old(scanner).spec_position()
                            + consumed
                    } else {
                        &&& r == Ok::<Option<V>, ParseError>(None)
                        &&& final(scanner).spec_position() == old(scanner).spec_position()
                    }
                }
            }),
    ;

    /// Try to recognize the object on the given scanner and return the exact
    /// matched subslice instead of reconstructing the value.
    fn recognize_slice(self, scanner: &mut Scanner<'a, T>) -> (r: ParseResult<Option<&'a [T]>>)
        requires
            old(scanner).wf(),
        ensures
            final(scanner).wf(),
            final(scanner).spec_data() == old(scanner).spec_data(),
            ({
                let rem = old(scanner).spec_remaining();
                if rem.len() == 0 {
                    &&& r == Err::<Option<&'a [T]>, ParseError>(ParseError::UnexpectedEndOfInput)
                    &&& final(scanner).spec_position() == old(scanner).spec_position()
                } else {
                    let (matched, consumed) = self.spec_matching(rem);
                    if matched {
                        &&& r matches Ok(Some(s)) && s@ == rem.take(consumed as int)
                        &&& final(scanner).spec_position() == old(scanner).spec_position()
                            + consumed
                    } else {
                        &&& r == Ok::<Option<&'a [T]>, ParseError>(None)
                        &&& final(scanner).spec_position() == old(scanner).spec_position()
                    }
                }
            }),
    ;
}

/// Every matcher can attempt-and-consume itself on a scanner: on success the
/// recognized value is the matcher value itself.
impl<'a, T, M: Match<T>> Recognizable<'a, T, M> for M {
    open spec fn spec_value(&self, data: Seq<T>, v: M) -> bool {
        v == *self
    }

    fn recognize(self, scanner: &mut Scanner<'a, T>) -> (r: ParseResult<Option<M>>) {
        if scanner.is_empty() {
            return Err(ParseError::UnexpectedEndOfInput);
        }
        let data = scanner.remaining();
        proof {
            self.lemma_matching_bounds(data@);
        }
        let (result, size) = self.is_matching(data);
        if !result {
            return Ok(None);
        }
        scanner.bump_by(size);
        Ok(Some(self))
    }

    fn recognize_slice(self, scanner: &mut Scanner<'a, T>) -> (r: ParseResult<Option<&'a [T]>>) {
        if scanner.is_empty() {
            return Err(ParseError::UnexpectedEndOfInput);
        }
        let data = scanner.remaining();
        proof {
            self.lemma_matching_bounds(data@);
        }
        let (result, size) = self.is_matching(data);
        if !result {
            return Ok(None);
        }
        scanner.bump_by(size);
        Ok(Some(vstd::slice::slice_subrange(data, 0, size)))
    }
}

/// Recognize an object on the given scanner, as grammars are expected to do
/// it.
///
/// A matcher longer than what remains, or an empty scanner, is
/// `UnexpectedEndOfInput`; a matcher that does not match is
/// `UnexpectedToken`; otherwise the recognized value is returned and the
/// scanner has advanced by the matched length.
pub fn recognize<'a, T, V, R: Recognizable<'a, T, V>>(
    recognizable: R,
    scanner: &mut Scanner<'a, T>,
) -> (r: ParseResult<V>)
    requires
        old(scanner).wf(),
    ensures
        final(scanner).wf(),
        final(scanner).spec_data() == old(scanner).spec_data(),
        ({
            let rem = old(scanner).spec_remaining();
            if rem.len() == 0 || recognizable.spec_size() > rem.len() {
                &&& r == Err::<V, ParseError>(ParseError::UnexpectedEndOfInput)
                &&& final(scanner).spec_position() == old(scanner).spec_position()
            } else {
                let (matched, consumed) = recognizable.spec_matching(rem);
                if matched {
                    &&& r matches Ok(v) && recognizable.spec_value(rem, v)
                    &&& final(scanner).spec_position() == old(scanner).spec_position() + consumed
                } else {
                    &&& r == Err::<V, ParseError>(ParseError::UnexpectedToken)
                    &&& final(scanner).spec_position() == old(scanner).spec_position()
                }
            }
        }),
{
    if recognizable.size() > scanner.remaining().len() {
        return Err(ParseError::UnexpectedEndOfInput);
    }
    match recognizable.recognize(scanner)? {
        Some(v) => Ok(v),
        None => Err(ParseError::UnexpectedToken),
    }
}

/// Recognize an object on the given scanner and return the matched subslice.
///
/// The end-of-input and no-match distinctions are exactly those of
/// `recognize`.
pub fn recognize_slice<'a, T, V, R: Recognizable<'a, T, V>>(
    recognizable: R,
    scanner: &mut Scanner<'a, T>,
) -> (r: ParseResult<&'a [T]>)
    requires
        old(scanner).wf(),
    ensures
        final(scanner).wf(),
        final(scanner).spec_data() == old(scanner).spec_data(),
        ({
            let rem = old(scanner).spec_remaining();
            if rem.len() == 0 || recognizable.spec_size() > rem.len() {
                &&& r == Err::<&'a [T], ParseError>(ParseError::UnexpectedEndOfInput)
                &&& final(scanner).spec_position() == old(scanner).spec_position()
            } else {
                let (matched, consumed) = recognizable.spec_matching(rem);
                if matched {
                    &&& r matches Ok(s) && s@ == rem.take(consumed as int)
                    &&& final(scanner).spec_position() == old(scanner).spec_position() + consumed
                } else {
                    &&& r == Err::<&'a [T], ParseError>(ParseError::UnexpectedToken)
                    &&& final(scanner).spec_position() == old(scanner).spec_position()
                }
            }
        }),
{
    if recognizable.size() > scanner.remaining().len() {
        return Err(ParseError::UnexpectedEndOfInput);
    }
    match recognizable.recognize_slice(scanner)? {
        Some(s) => Ok(s),
        None => Err(ParseError::UnexpectedToken),
    }
}

/// The value and consumption that trying one alternation candidate after
/// another yields on the given input: the first candidate that matches is
/// kept with its consumed length, and a candidate that does not match moves
/// nothing before the next is tried.
pub open spec fn spec_alternation_outcome<T, M: Match<T>>(candidates: Seq<M>, data: Seq<T>) -> (
    Option<M>,
    int,
)
    decreases candidates.len(),
{
    if candidates.len() == 0 {
        (None, 0)
    } else {
        let (matched, consumed) = candidates[0].spec_matching(data);
        if matched {
            (Some(candidates[0]), consumed as int)
        } else {
            spec_alternation_outcome(candidates.skip(1), data)
        }
    }
}

/// Alternation is fair: with candidates `[a, b]` where `a` does not match
/// the input and `b` does, the alternation yields `b`'s result, having
/// consumed exactly what `b` alone would consume from the original
/// position. A candidate that does not match never moves the scanner, so
/// the later candidate is tried from where the earlier one started.
pub proof fn lemma_recognizer_alternation_fair<T, M: Match<T>>(a: M, b: M, data: Seq<T>)
    requires
        !a.spec_matching(data).0,
        b.spec_matching(data).0,
    ensures
        spec_alternation_outcome(seq![a, b], data) == spec_alternation_outcome(seq![b], data),
        spec_alternation_outcome(seq![a, b], data) == (
            Some(b),
            b.spec_matching(data).1 as int,
        ),
{
    let pair = seq![a, b];
    let second = seq![b];
    assert(pair[0] == a);
    assert(second[0] == b);
    assert(pair.skip(1) =~= second);
    assert(spec_alternation_outcome(second, data) == (
        Some(b),
        b.spec_matching(data).1 as int,
    ));
    assert(spec_alternation_outcome(pair, data) == spec_alternation_outcome(second, data));
}

/// A fluent alternation builder over `Recognizable` candidates that share one
/// result type.
///
/// Once a candidate has matched, later `try_or` calls are no-ops; because
/// candidates never partially consume on failure, no rewind is needed
/// between attempts.
pub struct Recognizer<U> {
    /// The recognized value, if any candidate has matched so far.
    data: Option<U>,
}

impl<U> Recognizer<U> {
    /// The value recognized so far, if any.
    pub closed spec fn spec_data(&self) -> Option<U> {
        self.data
    }

    /// Create an alternation with no candidate tried yet.
    pub fn new() -> (r: Self)
        ensures
            r.spec_data() is None,
    {
        Recognizer { data: None }
    }

    /// Consume the alternation and return the recognized value, if any
    /// candidate matched.
    pub fn finish(self) -> (r: Option<U>)
        ensures
            r == self.spec_data(),
    {
        self.data
    }
    /// Attempt to recognize the given candidate, unless an earlier candidate
    /// already matched.
    ///
    /// A prior match short-circuits: the scanner does not move and the held
    /// value stays. Otherwise the candidate is attempted where the scanner
    /// stands: an empty scanner is a hard failure, a match is kept and
    /// consumed, and a non-match leaves both the scanner and the held value
    /// unchanged.
    pub fn try_or<'a, T>(self, element: U, scanner: &mut Scanner<'a, T>) -> (r: ParseResult<Self>) where
        U: Recognizable<'a, T, U>,

        requires
            old(scanner).wf(),
        ensures
            final(scanner).wf(),
            final(scanner).spec_data() == old(scanner).spec_data(),
            ({
                let rem = old(scanner).spec_remaining();
                if self.spec_data() is Some {
                    &&& r matches Ok(rr) && rr.spec_data() == self.spec_data()
                    &&& final(scanner).spec_position() == old(scanner).spec_position()
                } else if rem.len() == 0 {
                    &&& r matches Err(e) && e == ParseError::UnexpectedEndOfInput
                    &&& final(scanner).spec_position() == old(scanner).spec_position()
                } else {
                    let (matched, consumed) = element.spec_matching(rem);
                    if matched {
                        &&& r matches Ok(rr) && rr.spec_data() matches Some(v)
                            && element.spec_value(rem, v)
                        &&& final(scanner).spec_position() == old(scanner).spec_position()
                            + consumed
                    } else {
                        &&& r matches Ok(rr) && rr.spec_data() is None
                        &&& final(scanner).spec_position() == old(scanner).spec_position()
                    }
                }
            }),
    {
        if self.data.is_some() {
            return Ok(self);
        }
        match element.recognize(scanner)? {
            Some(found) => Ok(Recognizer { data: Some(found) }),
            None => Ok(Recognizer { data: None }),
        }
    }
}

} // verus!
