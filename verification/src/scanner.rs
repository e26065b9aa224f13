//! A scanner for a sequence of elements.

use vstd::prelude::*;

use crate::errors::{ParseError, ParseResult};
use crate::visitor::Visitor;

verus! {

/// A non-owning cursor over a borrowed element sequence.
///
/// A scanner holds only a borrow of the data and a 0-based offset into it, so
/// copying one duplicates the position and the borrow, never the elements.
/// The offset never exceeds the length of the data.
#[derive(Clone, Copy)]
pub struct Scanner<'a, T> {
    /// The borrowed element sequence.
    data: &'a [T],
    /// The cursor: a 0-based offset into `data`.
    position: usize,
}

impl<'a, T> Scanner<'a, T> {
    /// The whole backing sequence, as a mathematical sequence.
    pub closed spec fn spec_data(&self) -> Seq<T> {
        self.data@
    }

    /// The cursor offset.
    pub closed spec fn spec_position(&self) -> int {
        self.position as int
    }

    /// The scanner's invariant: the cursor stays inside `[0, len]`, and the
    /// data, being a real slice, fits the machine's address space.
    pub open spec fn wf(&self) -> bool {
        0 <= self.spec_position() <= self.spec_data().len() <= usize::MAX
    }

    /// The elements not yet scanned: everything from the cursor to the end.
    pub open spec fn spec_remaining(&self) -> Seq<T>
        recommends
            self.wf(),
    {
        self.spec_data().skip(self.spec_position())
    }

    /// Create a scanner positioned at the start of `data`.
    pub fn new(data: &'a [T]) -> (r: Scanner<'a, T>)
        ensures
            r.wf(),
            r.spec_data() == data@,
            r.spec_position() == 0,
    {
        proof {
            vstd::slice::axiom_spec_len::<T>(data);
        }
        Scanner { data, position: 0 }
    }

    /// Move the cursor forward by `n` positions.
    ///
    /// Overrunning the end of the data is a programming error, not a parse
    /// error, so the bound is demanded of the caller.
    pub fn bump_by(&mut self, n: usize)
        requires
            old(self).wf(),
            old(self).spec_position() + n <= old(self).spec_data().len(),
        ensures
            final(self).wf(),
            final(self).spec_data() == old(self).spec_data(),
            final(self).spec_position() == old(self).spec_position() + n,
    {
        self.position = self.position + n;
    }

    /// Move the cursor to the absolute position `n`.
    pub fn jump_to(&mut self, n: usize)
        requires
            old(self).wf(),
            n <= old(self).spec_data().len(),
        ensures
            final(self).wf(),
            final(self).spec_data() == old(self).spec_data(),
            final(self).spec_position() == n,
    {
        self.position = n;
    }

    /// Move the cursor backward by `n` positions.
    ///
    /// Moving before the start of the data is a programming error, so the
    /// bound is demanded of the caller.
    pub fn rewind(&mut self, n: usize)
        requires
            old(self).wf(),
            n <= old(self).spec_position(),
        ensures
            final(self).wf(),
            final(self).spec_data() == old(self).spec_data(),
            final(self).spec_position() == old(self).spec_position() - n,
    {
        self.position = self.position - n;
    }

    /// The current position of the cursor.
    pub fn current_position(&self) -> (r: usize)
        ensures
            r == self.spec_position(),
    {
        self.position
    }

    /// A view of the data that remains to be scanned.
    pub fn remaining(&self) -> (r: &'a [T])
        requires
            self.wf(),
        ensures
            r@ == self.spec_remaining(),
    {
        vstd::slice::slice_subrange(self.data, self.position, self.data.len())
    }

    /// The original data given to the scanner.
    pub fn data(&self) -> (r: &'a [T])
        ensures
            r@ == self.spec_data(),
    {
        self.data
    }

    /// Consume the scanner and return a view of the remaining data.
    pub fn into_data(self) -> (r: &'a [T])
        requires
            self.wf(),
        ensures
            r@ == self.spec_remaining(),
    {
        vstd::slice::slice_subrange(self.data, self.position, self.data.len())
    }

    /// True when no elements remain to be scanned.
    pub fn is_empty(&self) -> (r: bool)
        requires
            self.wf(),
        ensures
            r == (self.spec_remaining().len() == 0),
    {
        self.position == self.data.len()
    }

    /// Run a visitor on the scanner: accept the rule `V` where the scanner
    /// stands and return the parsed value.
    pub fn visit<V: Visitor<'a, T>>(&mut self) -> (r: ParseResult<V>)
        requires
            old(self).wf(),
        ensures
            final(self).wf(),
            final(self).spec_data() == old(self).spec_data(),
            final(self).spec_position() >= old(self).spec_position(),
            match r {
                Ok(v) => V::spec_accept(old(self).spec_remaining()) == Ok::<int, ParseError>(
                    final(self).spec_position() - old(self).spec_position(),
                ) && V::spec_value(old(self).spec_remaining(), v),
                Err(e) => V::spec_accept(old(self).spec_remaining()) == Err::<int, ParseError>(e),
            },
    {
        V::accept(self)
    }
}

} // verus!
