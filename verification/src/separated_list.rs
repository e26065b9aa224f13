//! The repeated-element-then-separator grammar rule.

use vstd::prelude::*;

use core::marker::PhantomData;
use crate::errors::{ParseError, ParseResult};
use crate::matcher::Match;
use crate::scanner::Scanner;
use crate::visitor::Visitor;

verus! {

broadcast use vstd::std_specs::vec::axiom_spec_into_iter;

/// An ordered list of parsed elements, in input order, with the separators
/// between them discarded.
pub struct SeparatedList<T, V, S> {
    /// The parsed elements, in input order.
    pub data: Vec<V>,
    /// Records the separator rule and element type the list was parsed with.
    pub separator: PhantomData<(S, T)>,
}

impl<T, V, S> SeparatedList<T, V, S> {
    /// Consume the list and return an iterator over its elements, in input
    /// order.
    pub fn into_iter(self) -> (r: std::vec::IntoIter<V>)
        ensures
            vstd::std_specs::vec::into_iter_elts(r) == self.data@,
    {
        self.data.into_iter()
    }
}

/// The offset where the list rule finishes, scanning from `offset`: each
/// round accepts one element and, unless the input is exhausted, one
/// separator. An element failure makes the whole list not apply; a separator
/// failure is structural and is handed through; a round that consumes
/// nothing cannot make progress and makes the list not apply.
pub open spec fn spec_list_scan<'a, T, V: Visitor<'a, T>, S: Visitor<'a, T>>(
    data: Seq<T>,
    offset: int,
) -> Result<int, ParseError>
    decreases data.len() - offset,
{
    if offset < 0 || offset >= data.len() {
        Ok(offset)
    } else {
        match V::spec_accept(data.skip(offset)) {
            Err(e) => Err(ParseError::UnexpectedToken),
            Ok(nv) => if offset + nv >= data.len() {
                Ok(offset + nv)
            } else {
                match S::spec_accept(data.skip(offset + nv)) {
                    Err(e) => Err(e),
                    Ok(ns) => if nv + ns <= 0 || offset + nv + ns > data.len() {
                        Err(ParseError::UnexpectedToken)
                    } else {
                        spec_list_scan::<T, V, S>(data, offset + nv + ns)
                    },
                }
            },
        }
    }
}

/// How the values of a finished list relate to the input, scanning from
/// `offset`: the first value is the element accepted there, and the rest are
/// the values of the list parsed after the following separator.
pub open spec fn spec_list_values<'a, T, V: Visitor<'a, T>, S: Visitor<'a, T>>(
    data: Seq<T>,
    offset: int,
    values: Seq<V>,
) -> bool
    decreases data.len() - offset,
{
    if offset < 0 || offset >= data.len() {
        values.len() == 0
    } else {
        match V::spec_accept(data.skip(offset)) {
            Err(e) => false,
            Ok(nv) => {
                &&& values.len() >= 1
                &&& V::spec_value(data.skip(offset), values[0])
                &&& if offset + nv >= data.len() {
                    values.len() == 1
                } else {
                    match S::spec_accept(data.skip(offset + nv)) {
                        Err(e) => false,
                        Ok(ns) => if nv + ns <= 0 || offset + nv + ns > data.len() {
                            false
                        } else {
                            spec_list_values::<T, V, S>(data, offset + nv + ns, values.skip(1))
                        },
                    }
                }
            },
        }
    }
}

impl<'a, T, V, S> Visitor<'a, T> for SeparatedList<T, V, S> where
    V: Visitor<'a, T>,
    S: Visitor<'a, T>,
 {
    /// Accept elements separated by separators until the input runs out:
    /// after each element the next separator is consumed, unless the element
    /// ended the input. An empty input is an empty list. When an element
    /// fails, the whole list does not apply and the scanner stands back at
    /// the list's start; a separator failure is handed through unchanged.
    open spec fn spec_accept(data: Seq<T>) -> Result<int, ParseError> {
        spec_list_scan::<T, V, S>(data, 0)
    }

    open spec fn spec_value(data: Seq<T>, v: Self) -> bool {
        spec_list_values::<T, V, S>(data, 0, v.data@)
    }

    proof fn lemma_accept_bounds(data: Seq<T>) {
        lemma_list_scan_bounds::<T, V, S>(data, 0);
    }

    fn accept(scanner: &mut Scanner<'a, T>) -> (r: ParseResult<Self>) {
        let ghost whole = old(scanner).spec_data();
        let ghost rem0 = old(scanner).spec_remaining();
        let cursor = scanner.current_position();
        let mut elements: Vec<V> = Vec::new();
        loop
            invariant
                scanner.wf(),
                scanner.spec_data() == whole,
                old(scanner).spec_data() == whole,
                old(scanner).spec_position() == cursor,
                rem0 == whole.skip(cursor as int),
                cursor <= scanner.spec_position() <= whole.len(),
                spec_list_scan::<T, V, S>(rem0, scanner.spec_position() - cursor)
                    == spec_list_scan::<T, V, S>(rem0, 0),
                forall|rest: Seq<V>|
                    #[trigger] spec_list_values::<T, V, S>(
                        rem0,
                        scanner.spec_position() - cursor,
                        rest,
                    ) ==> spec_list_values::<T, V, S>(rem0, 0, elements@ + rest),
            ensures
                scanner.wf(),
                scanner.spec_data() == whole,
                cursor <= scanner.spec_position() <= whole.len(),
                spec_list_scan::<T, V, S>(rem0, 0) == Ok::<int, ParseError>(
                    scanner.spec_position() - cursor,
                ),
                spec_list_values::<T, V, S>(rem0, 0, elements@),
            decreases whole.len() - scanner.spec_position(),
        {
            let ghost off = scanner.spec_position() - cursor;
            proof {
                assert(whole.skip(cursor as int).skip(off) =~= whole.skip(
                    scanner.spec_position(),
                ));
            }
            if scanner.is_empty() {
                proof {
                    assert(elements@ + Seq::<V>::empty() =~= elements@);
                    assert(spec_list_values::<T, V, S>(rem0, off, Seq::<V>::empty()));
                }
                break ;
            }
            let round_start = scanner.current_position();
            let element = match scanner.visit::<V>() {
                Ok(el) => el,
                Err(e) => {
                    scanner.jump_to(cursor);
                    return Err(ParseError::UnexpectedToken);
                },
            };
            let ghost el = element;
            let ghost held = elements@;
            let ghost nv = scanner.spec_position() - cursor - off;
            proof {
                V::lemma_accept_bounds(rem0.skip(off));
            }
            if scanner.is_empty() {
                elements.push(element);
                proof {
                    let one = seq![el];
                    assert(one[0] == el);
                    assert(spec_list_values::<T, V, S>(rem0, off, one));
                    assert(elements@ =~= held + one);
                }
                break ;
            }
            let ghost sep_off = scanner.spec_position() - cursor;
            proof {
                assert(whole.skip(cursor as int).skip(sep_off) =~= whole.skip(
                    scanner.spec_position(),
                ));
            }
            scanner.visit::<S>()?;
            let ghost ns = scanner.spec_position() - cursor - sep_off;
            proof {
                S::lemma_accept_bounds(rem0.skip(sep_off));
            }
            if scanner.current_position() == round_start {
                // A round that consumed nothing cannot make progress, so the
                // list does not apply here.
                scanner.jump_to(cursor);
                return Err(ParseError::UnexpectedToken);
            }
            elements.push(element);
            proof {
                let ghost off2 = off + nv + ns;
                assert forall|rest: Seq<V>|
                    #[trigger] spec_list_values::<T, V, S>(rem0, off2, rest) implies spec_list_values::<
                    T,
                    V,
                    S,
                >(rem0, 0, elements@ + rest) by {
                    let with_el = seq![el] + rest;
                    assert(with_el.skip(1) =~= rest);
                    assert(with_el[0] == el);
                    assert(spec_list_values::<T, V, S>(rem0, off, with_el));
                    assert(held + with_el =~= elements@ + rest);
                }
            }
        }
        Ok(SeparatedList { data: elements, separator: PhantomData })
    }
}

/// A finished list scan stops inside the input.
pub proof fn lemma_list_scan_bounds<'a, T, V: Visitor<'a, T>, S: Visitor<'a, T>>(
    data: Seq<T>,
    offset: int,
)
    requires
        0 <= offset <= data.len(),
    ensures
        spec_list_scan::<T, V, S>(data, offset) matches Ok(n) ==> offset <= n <= data.len(),
    decreases data.len() - offset,
{
    if offset >= data.len() {
    } else {
        match V::spec_accept(data.skip(offset)) {
            Err(e) => {},
            Ok(nv) => {
                V::lemma_accept_bounds(data.skip(offset));
                if offset + nv >= data.len() {
                } else {
                    match S::spec_accept(data.skip(offset + nv)) {
                        Err(e) => {},
                        Ok(ns) => {
                            if nv + ns <= 0 || offset + nv + ns > data.len() {
                            } else {
                                lemma_list_scan_bounds::<T, V, S>(data, offset + nv + ns);
                            }
                        },
                    }
                }
            },
        }
    }
}

/// Produce a scanner over the remaining input with one trailing occurrence
/// of the separator cut off, when the input ends in one.
///
/// Callers that tolerate a trailing separator run the list rule on the
/// trimmed view and afterwards advance their own scanner past the original,
/// untrimmed region themselves. An input that does not end in the separator,
/// or a separator of no declared size, comes back unchanged.
pub fn strip_trailing_separator<'a, T, M: Match<T> + Copy>(
    scanner: &Scanner<'a, T>,
    separator: M,
) -> (r: Scanner<'a, T>)
    requires
        scanner.wf(),
    ensures
        r.wf(),
        r.spec_position() == 0,
        ({
            let rem = scanner.spec_remaining();
            let size = separator.spec_size();
            if 1 <= size <= rem.len() && separator.spec_matching(rem.skip(rem.len() - size)).0 {
                r.spec_data() == rem.take(rem.len() - size)
            } else {
                r.spec_data() == rem
            }
        }),
{
    let rem = scanner.remaining();
    let size = separator.size();
    if 1 <= size && size <= rem.len() {
        let tail = vstd::slice::slice_subrange(rem, rem.len() - size, rem.len());
        let (matched, n) = separator.is_matching(tail);
        if matched {
            return Scanner::new(vstd::slice::slice_subrange(rem, 0, rem.len() - size));
        }
    }
    Scanner::new(rem)
}

} // verus!
