//! Peekable types.
//!
//! A `Peekable` computes where a region would end at the scanner's current
//! position, without moving the scanner.

use vstd::prelude::*;

use crate::errors::{ParseError, ParseResult};
use crate::matcher::Match;
use crate::scanner::Scanner;
use crate::visitor::Visitor;
use core::marker::PhantomData;

verus! {

/// The result of a peeking operation: either the relative offset where the
/// region ends, together with the sizes of its opening and closing
/// delimiters, or nothing.
#[derive(PartialEq, Eq, Structural, Debug, Clone, Copy)]
pub enum PeekResult {
    /// The match was successful.
    Found {
        /// The offset just past the region, relative to where the peek began.
        end_slice: usize,
        /// The size of the opening delimiter at the front of the region.
        start_element_size: usize,
        /// The size of the closing delimiter at the back of the region.
        end_element_size: usize,
    },
    /// The match was unsuccessful.
    NotFound,
}

/// A successful peek, materialized: a borrowed view of the peeked region of
/// the original buffer, together with the delimiter sizes of `PeekResult`.
#[derive(Debug)]
pub struct Peeking<'a, T> {
    /// The size of the opening delimiter at the front of `data`.
    pub start_element_size: usize,
    /// The size of the closing delimiter at the back of `data`.
    pub end_element_size: usize,
    /// The length of the peeked region.
    pub end_slice: usize,
    /// The peeked region of the original buffer.
    pub data: &'a [T],
}

impl<'a, T> Peeking<'a, T> {
    /// The payload of the peeked region: `data` with the opening delimiter
    /// trimmed from the front and the closing delimiter trimmed from the
    /// back.
    ///
    /// The delimiter sizes together never exceed the region, so the
    /// payload's length plus both delimiter sizes gives back `end_slice`
    /// exactly.
    pub fn peeked_slice(&self) -> (r: &'a [T])
        requires
            self.start_element_size + self.end_element_size <= self.end_slice,
            self.end_slice <= self.data@.len(),
        ensures
            r@ == self.data@.subrange(
                self.start_element_size as int,
                self.end_slice - self.end_element_size,
            ),
            r@.len() + self.start_element_size + self.end_element_size == self.end_slice,
    {
        vstd::slice::slice_subrange(
            self.data,
            self.start_element_size,
            self.end_slice - self.end_element_size,
        )
    }
}

/// The capability to compute where a region would end at the scanner's
/// current position, without moving the scanner.
pub trait Peekable<'a, T> {
    /// The outcome `peek` yields on the given remaining input.
    spec fn spec_peek(&self, data: Seq<T>) -> Result<PeekResult, ParseError>;

    /// A found region ends within the input it was searched in.
    proof fn lemma_peek_bounds(&self, data: Seq<T>)
        requires
            data.len() <= usize::MAX,
        ensures
            self.spec_peek(data) matches Ok(PeekResult::Found { end_slice, .. }) ==> end_slice
                <= data.len(),
    ;

    /// Compute where the region would end at the scanner's current position.
    ///
    /// The scanner is only read, never moved: probing happens on a throwaway
    /// cursor.
    fn peek(&self, data: &Scanner<'a, T>) -> (r: ParseResult<PeekResult>)
        requires
            data.wf(),
        ensures
            r == self.spec_peek(data.spec_remaining()),
    ;
}

/// The declared size of the last token a rule accepts, used by the derived
/// lookahead strategy to exclude that token from the reported content.
pub trait PeekSize<T> {
    /// The declared size; `0` leaves the final token inside the content.
    spec fn spec_peek_size() -> usize;

    /// The declared size of the rule's final token.
    fn peek_size(&self) -> (r: usize)
        ensures
            r == Self::spec_peek_size(),
    ;
}

/// Marker selecting the derived implementation of `Peekable` for a rule.
pub struct DefaultPeekableImplementation;

/// Marker selecting a hand-written implementation of `Peekable` for a rule.
pub struct CustomizedPeekableImplementation;

/// Chooses how a rule obtains its `Peekable`.
///
/// Declaring [`DefaultPeekableImplementation`] opts a `Visitor` with a peek
/// size into the derived element-by-element probing strategy; declaring
/// [`CustomizedPeekableImplementation`] keeps the way free for a
/// hand-written one.
pub trait PeekableImplementation {
    /// The marker type choosing the strategy.
    type Type;
}

/// Where the derived lookahead for rule `V` would end, probing from `offset`:
/// at each position the rule is attempted; a success ends the span where the
/// rule stopped, a "does not apply" moves one element on, any other failure
/// is propagated, and running out of input reports nothing.
pub open spec fn spec_visitor_probe<'a, T, V: Visitor<'a, T> + PeekSize<T>>(
    data: Seq<T>,
    offset: int,
) -> Result<PeekResult, ParseError>
    decreases data.len() - offset,
{
    if offset < 0 || offset >= data.len() {
        Ok(PeekResult::NotFound)
    } else {
        match V::spec_accept(data.skip(offset)) {
            Ok(n) => Ok(
                PeekResult::Found {
                    end_slice: (offset + n) as usize,
                    start_element_size: 0usize,
                    end_element_size: V::spec_peek_size(),
                },
            ),
            Err(e) => if e is UnexpectedToken {
                spec_visitor_probe::<T, V>(data, offset + 1)
            } else {
                Err(e)
            },
        }
    }
}

/// The derived probe never reports a span past the end of the input.
pub proof fn lemma_visitor_probe_bounds<'a, T, V: Visitor<'a, T> + PeekSize<T>>(
    data: Seq<T>,
    offset: int,
)
    requires
        0 <= offset <= data.len(),
        data.len() <= usize::MAX,
    ensures
        spec_visitor_probe::<T, V>(data, offset) matches Ok(PeekResult::Found { end_slice, .. })
            ==> end_slice <= data.len(),
    decreases data.len() - offset,
{
    if offset >= data.len() {
    } else {
        match V::spec_accept(data.skip(offset)) {
            Ok(n) => {
                V::lemma_accept_bounds(data.skip(offset));
            },
            Err(e) => {
                if e is UnexpectedToken {
                    lemma_visitor_probe_bounds::<T, V>(data, offset + 1);
                }
            },
        }
    }
}

/// Any rule with a declared peek size that opts in gets lookahead for free:
/// probe forward element by element and attempt the rule at each position.
impl<'a, T, V> Peekable<'a, T> for V where
    V: Visitor<'a, T> + PeekSize<T> + PeekableImplementation<Type = DefaultPeekableImplementation>
 {
    open spec fn spec_peek(&self, data: Seq<T>) -> Result<PeekResult, ParseError> {
        spec_visitor_probe::<T, V>(data, 0)
    }

    proof fn lemma_peek_bounds(&self, data: Seq<T>) {
        lemma_visitor_probe_bounds::<T, V>(data, 0);
    }

    fn peek(&self, data: &Scanner<'a, T>) -> (r: ParseResult<PeekResult>) {
        let ghost rem = data.spec_remaining();
        let mut scanner = Scanner::new(data.remaining());
        loop
            invariant
                data.wf(),
                rem == data.spec_remaining(),
                scanner.wf(),
                scanner.spec_data() == rem,
                spec_visitor_probe::<T, V>(rem, scanner.spec_position())
                    == spec_visitor_probe::<T, V>(rem, 0),
            decreases rem.len() - scanner.spec_position(),
        {
            if scanner.is_empty() {
                return Ok(PeekResult::NotFound);
            }
            let pos = scanner.current_position();
            match V::accept(&mut scanner) {
                Ok(element) => {
                    return Ok(
                        PeekResult::Found {
                            end_slice: scanner.current_position(),
                            start_element_size: 0,
                            end_element_size: element.peek_size(),
                        },
                    );
                },
                Err(ParseError::UnexpectedToken) => {
                    scanner.jump_to(pos);
                    scanner.bump_by(1);
                },
                Err(e) => {
                    return Err(e);
                },
            }
        }
    }
}

/// Where the nearest match of `m` ends, probing from `offset`: the least
/// position at or after `offset` where `m` matches ends the span just past
/// the match, with `m`'s declared size reported as the closing delimiter.
pub open spec fn spec_match_probe<T, M: Match<T>>(m: M, data: Seq<T>, offset: int) -> PeekResult
    decreases data.len() - offset,
{
    if offset < 0 || offset >= data.len() {
        PeekResult::NotFound
    } else {
        let (matched, n) = m.spec_matching(data.skip(offset));
        if matched {
            PeekResult::Found {
                end_slice: (offset + n) as usize,
                start_element_size: 0usize,
                end_element_size: m.spec_size(),
            }
        } else {
            spec_match_probe(m, data, offset + 1)
        }
    }
}

/// A found probe span starts past the probe's origin and ends within the
/// input.
pub proof fn lemma_match_probe_bounds<T, M: Match<T>>(m: M, data: Seq<T>, offset: int)
    requires
        0 <= offset <= data.len(),
        data.len() <= usize::MAX,
    ensures
        spec_match_probe(m, data, offset) matches PeekResult::Found { end_slice, .. } ==> offset
            < end_slice <= data.len(),
    decreases data.len() - offset,
{
    if offset >= data.len() {
    } else {
        m.lemma_matching_bounds(data.skip(offset));
        let (matched, n) = m.spec_matching(data.skip(offset));
        if matched {
        } else {
            lemma_match_probe_bounds(m, data, offset + 1);
        }
    }
}

/// Probe a scanner's remaining input for the nearest match of `m`.
pub(crate) fn probe_match<'a, T, M: Match<T>>(m: &M, data: &Scanner<'a, T>) -> (r: PeekResult)
    requires
        data.wf(),
    ensures
        r == spec_match_probe(*m, data.spec_remaining(), 0),
{
    let ghost rem = data.spec_remaining();
    let slice = data.remaining();
    let mut offset: usize = 0;
    loop
        invariant
            data.wf(),
            rem == data.spec_remaining(),
            0 <= offset <= rem.len(),
            slice@ == rem,
            spec_match_probe(*m, rem, offset as int) == spec_match_probe(*m, rem, 0),
        decreases rem.len() - offset,
    {
        if offset == slice.len() {
            return PeekResult::NotFound;
        }
        let suffix = vstd::slice::slice_subrange(slice, offset, slice.len());
        proof {
            m.lemma_matching_bounds(suffix@);
        }
        let (matched, n) = m.is_matching(suffix);
        if matched {
            return PeekResult::Found {
                end_slice: offset + n,
                start_element_size: 0,
                end_element_size: m.size(),
            };
        }
        offset = offset + 1;
    }
}

/// Attempt to match a `Peekable` at the current position of a scanner and
/// materialize the found region.
///
/// The scanner is never moved. On a find, the returned view covers the
/// region of the original buffer from the scanner's position to the found
/// end; on a miss, `None` comes back; an error of the peekable is handed
/// through.
pub fn peek<'a, T, P: Peekable<'a, T>>(peekable: P, scanner: &Scanner<'a, T>) -> (r: ParseResult<
    Option<Peeking<'a, T>>,
>)
    requires
        scanner.wf(),
    ensures
        match r {
            Ok(opt) => match opt {
                Some(p) => {
                    &&& peekable.spec_peek(scanner.spec_remaining()) == Ok::<
                        PeekResult,
                        ParseError,
                    >(
                        PeekResult::Found {
                            end_slice: p.end_slice,
                            start_element_size: p.start_element_size,
                            end_element_size: p.end_element_size,
                        },
                    )
                    &&& p.data@ == scanner.spec_remaining().take(p.end_slice as int)
                    &&& p.end_slice <= scanner.spec_remaining().len()
                },
                None => peekable.spec_peek(scanner.spec_remaining()) == Ok::<
                    PeekResult,
                    ParseError,
                >(PeekResult::NotFound),
            },
            Err(e) => peekable.spec_peek(scanner.spec_remaining()) == Err::<
                PeekResult,
                ParseError,
            >(e),
        },
{
    let source_cursor = scanner.current_position();
    let all = scanner.data();
    match peekable.peek(scanner)? {
        PeekResult::Found { end_slice, start_element_size, end_element_size } => {
            proof {
                peekable.lemma_peek_bounds(scanner.spec_remaining());
            }
            let d = vstd::slice::slice_subrange(all, source_cursor, source_cursor + end_slice);
            proof {
                assert(d@ =~= scanner.spec_remaining().take(end_slice as int));
            }
            Ok(
                Some(
                    Peeking {
                        start_element_size,
                        end_element_size,
                        end_slice,
                        data: d,
                    },
                ),
            )
        },
        PeekResult::NotFound => Ok(None),
    }
}

/// A `Peekable` that always reports everything to the end of the input,
/// with no delimiters.
pub struct UntilEnd<T>(pub PhantomData<T>);

impl<T> UntilEnd<T> {
    /// Create the peekable that reports everything to the end of the input.
    pub fn new() -> (r: UntilEnd<T>) {
        UntilEnd(PhantomData)
    }
}

impl<T> Default for UntilEnd<T> {
    /// The peekable that reports everything to the end of the input.
    fn default() -> (r: UntilEnd<T>)
        ensures
            r == (UntilEnd::<T>(PhantomData)),
    {
        UntilEnd(PhantomData)
    }
}

/// A materialized peek degrades back to the bare result it was built from.
impl<'a, T> From<Option<Peeking<'a, T>>> for PeekResult {
    fn from(peeking: Option<Peeking<'a, T>>) -> (r: PeekResult) {
        match peeking {
            None => PeekResult::NotFound,
            Some(found) => PeekResult::Found {
                end_slice: found.end_slice,
                start_element_size: found.start_element_size,
                end_element_size: found.end_element_size,
            },
        }
    }
}

impl<'a, T> vstd::std_specs::convert::FromSpecImpl<Option<Peeking<'a, T>>> for PeekResult {
    open spec fn obeys_from_spec() -> bool {
        true
    }

    open spec fn from_spec(peeking: Option<Peeking<'a, T>>) -> PeekResult {
        match peeking {
            None => PeekResult::NotFound,
            Some(found) => PeekResult::Found {
                end_slice: found.end_slice,
                start_element_size: found.start_element_size,
                end_element_size: found.end_element_size,
            },
        }
    }
}

/// The start of the nearest match of `m` at or after `offset`, if any.
pub open spec fn spec_probe_start<T, M: Match<T>>(m: M, data: Seq<T>, offset: int) -> Option<int>
    decreases data.len() - offset,
{
    if offset < 0 || offset >= data.len() {
        None
    } else if m.spec_matching(data.skip(offset)).0 {
        Some(offset)
    } else {
        spec_probe_start(m, data, offset + 1)
    }
}

/// A found start lies at or after the probe's origin and inside the input.
pub proof fn lemma_probe_start_bounds<T, M: Match<T>>(m: M, data: Seq<T>, offset: int)
    requires
        0 <= offset <= data.len(),
    ensures
        spec_probe_start(m, data, offset) matches Some(i) ==> offset <= i < data.len(),
    decreases data.len() - offset,
{
    if offset >= data.len() {
    } else if m.spec_matching(data.skip(offset)).0 {
    } else {
        lemma_probe_start_bounds(m, data, offset + 1);
    }
}

/// Probe a scanner's remaining input for where the nearest match of `m`
/// starts.
fn probe_match_start<'a, T, M: Match<T>>(m: &M, data: &Scanner<'a, T>) -> (r: Option<usize>)
    requires
        data.wf(),
    ensures
        match r {
            Some(i) => spec_probe_start(*m, data.spec_remaining(), 0) == Some(i as int),
            None => spec_probe_start(*m, data.spec_remaining(), 0) is None,
        },
{
    let ghost rem = data.spec_remaining();
    let slice = data.remaining();
    let mut offset: usize = 0;
    loop
        invariant
            data.wf(),
            rem == data.spec_remaining(),
            0 <= offset <= rem.len(),
            slice@ == rem,
            spec_probe_start(*m, rem, offset as int) == spec_probe_start(*m, rem, 0),
        decreases rem.len() - offset,
    {
        if offset == slice.len() {
            return None;
        }
        let suffix = vstd::slice::slice_subrange(slice, offset, slice.len());
        let (matched, n) = m.is_matching(suffix);
        if matched {
            return Some(offset);
        }
        offset = offset + 1;
    }
}

/// Find the nearest occurrence of a wrapped matcher: the reported span runs
/// up to, and excludes, the occurrence's own extent.
pub struct Until<T, V> {
    /// The matcher whose nearest occurrence is searched for.
    pub element: V,
    /// Records the element type the matcher applies to.
    pub marker: PhantomData<T>,
}

impl<T, V> Until<T, V> {
    /// Wrap a matcher for nearest-occurrence search.
    pub fn new(element: V) -> (r: Until<T, V>)
        ensures
            r.element == element,
    {
        Until { element, marker: PhantomData }
    }
}

impl<'a, T, V: Match<T>> Peekable<'a, T> for Until<T, V> {
    open spec fn spec_peek(&self, data: Seq<T>) -> Result<PeekResult, ParseError> {
        match spec_probe_start(self.element, data, 0) {
            Some(i) => Ok(
                PeekResult::Found {
                    end_slice: i as usize,
                    start_element_size: 0usize,
                    end_element_size: 0usize,
                },
            ),
            None => Ok(PeekResult::NotFound),
        }
    }

    proof fn lemma_peek_bounds(&self, data: Seq<T>) {
        lemma_probe_start_bounds(self.element, data, 0);
    }

    fn peek(&self, data: &Scanner<'a, T>) -> (r: ParseResult<PeekResult>) {
        match probe_match_start(&self.element, data) {
            Some(i) => Ok(
                PeekResult::Found { end_slice: i, start_element_size: 0, end_element_size: 0 },
            ),
            None => Ok(PeekResult::NotFound),
        }
    }
}

/// Find the right-most occurrence of a wrapped peekable: the wrapped search
/// is re-applied to the remainder after each find, and the reported span is
/// the sum of all found extents, so that everything before the last
/// occurrence's own delimiter is covered.
pub struct Last<T, V> {
    /// The peekable whose last occurrence is searched for.
    pub element: V,
    /// Records the element type the peekable applies to.
    pub marker: PhantomData<T>,
}

impl<T, V> Last<T, V> {
    /// Wrap a peekable for last-occurrence search.
    pub fn new(element: V) -> (r: Last<T, V>)
        ensures
            r.element == element,
    {
        Last { element, marker: PhantomData }
    }
}

/// Where the last-occurrence search for `element` ends, scanning from
/// `offset` with `acc` holding the outcome accumulated so far: each find
/// extends the span past the found extent and the search continues on the
/// remainder; a miss, the end of the input, or a find that cannot make
/// progress reports the accumulated outcome; an error of the element is
/// handed through.
pub open spec fn spec_last_scan<'a, T, V: Peekable<'a, T>>(
    element: V,
    data: Seq<T>,
    offset: int,
    acc: PeekResult,
) -> Result<PeekResult, ParseError>
    decreases data.len() - offset,
{
    if offset < 0 || offset >= data.len() {
        Ok(acc)
    } else {
        match element.spec_peek(data.skip(offset)) {
            Err(e) => Err(e),
            Ok(PeekResult::NotFound) => Ok(acc),
            Ok(PeekResult::Found { end_slice: n, start_element_size: s, end_element_size: e }) => {
                if n == 0 || offset + n > data.len() {
                    Ok(acc)
                } else {
                    spec_last_scan(
                        element,
                        data,
                        offset + n,
                        PeekResult::Found {
                            end_slice: (offset + n) as usize,
                            start_element_size: s,
                            end_element_size: e,
                        },
                    )
                }
            },
        }
    }
}

/// The last-occurrence span never runs past the end of the input.
pub proof fn lemma_last_scan_bounds<'a, T, V: Peekable<'a, T>>(
    element: V,
    data: Seq<T>,
    offset: int,
    acc: PeekResult,
)
    requires
        0 <= offset <= data.len(),
        data.len() <= usize::MAX,
        acc matches PeekResult::Found { end_slice, .. } ==> end_slice <= offset,
    ensures
        spec_last_scan(element, data, offset, acc) matches Ok(PeekResult::Found {
            end_slice,
            ..
        }) ==> end_slice <= data.len(),
    decreases data.len() - offset,
{
    if offset >= data.len() {
    } else {
        match element.spec_peek(data.skip(offset)) {
            Err(e) => {},
            Ok(PeekResult::NotFound) => {},
            Ok(PeekResult::Found { end_slice: n, start_element_size: s, end_element_size: e }) => {
                if n == 0 || offset + n > data.len() {
                } else {
                    lemma_last_scan_bounds(
                        element,
                        data,
                        offset + n,
                        PeekResult::Found {
                            end_slice: (offset + n) as usize,
                            start_element_size: s,
                            end_element_size: e,
                        },
                    );
                }
            },
        }
    }
}

impl<'a, T, V: Peekable<'a, T>> Peekable<'a, T> for Last<T, V> {
    open spec fn spec_peek(&self, data: Seq<T>) -> Result<PeekResult, ParseError> {
        spec_last_scan(self.element, data, 0, PeekResult::NotFound)
    }

    proof fn lemma_peek_bounds(&self, data: Seq<T>) {
        lemma_last_scan_bounds(self.element, data, 0, PeekResult::NotFound);
    }

    fn peek(&self, data: &Scanner<'a, T>) -> (r: ParseResult<PeekResult>) {
        let ghost rem = data.spec_remaining();
        let mut inner = Scanner::new(data.remaining());
        let mut state = PeekResult::NotFound;
        loop
            invariant
                data.wf(),
                rem == data.spec_remaining(),
                inner.wf(),
                inner.spec_data() == rem,
                spec_last_scan(self.element, rem, inner.spec_position(), state) == spec_last_scan(
                    self.element,
                    rem,
                    0,
                    PeekResult::NotFound,
                ),
            decreases rem.len() - inner.spec_position(),
        {
            if inner.is_empty() {
                return Ok(state);
            }
            match self.element.peek(&inner)? {
                PeekResult::NotFound => {
                    return Ok(state);
                },
                PeekResult::Found { end_slice, start_element_size, end_element_size } => {
                    proof {
                        self.element.lemma_peek_bounds(inner.spec_remaining());
                    }
                    // A find of zero extent cannot make progress and ends the
                    // search with what was accumulated so far.
                    if end_slice == 0 {
                        return Ok(state);
                    }
                    inner.bump_by(end_slice);
                    state =
                    PeekResult::Found {
                        end_slice: inner.current_position(),
                        start_element_size,
                        end_element_size,
                    };
                },
            }
        }
    }
}

} // verus!
