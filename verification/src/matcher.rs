//! Provides the `Match` trait.

use vstd::prelude::*;

verus! {

/// A pattern test over a raw slice, independent of any scanner.
///
/// A matcher answers "does a prefix of this slice look like me, and how many
/// elements would that consume". It also declares a nominal `size`: the
/// element count it stands for when that is known statically, or `0` for
/// variable-length constructs such as a run of digits.
pub trait Match<T> {
    /// What `is_matching` returns on the given data.
    spec fn spec_matching(&self, data: Seq<T>) -> (bool, usize);

    /// The declared nominal size of the pattern.
    spec fn spec_size(&self) -> usize;

    /// Every matcher consumes at least one and at most all elements when it
    /// matches, and a matcher of a statically known size consumes exactly
    /// that size.
    proof fn lemma_matching_bounds(&self, data: Seq<T>)
        requires
            data.len() > 0,
            data.len() <= usize::MAX,
        ensures
            ({
                let (matched, consumed) = self.spec_matching(data);
                matched ==> 1 <= consumed <= data.len() && (self.spec_size() > 0
                    ==> consumed == self.spec_size())
            }),
    ;

    /// Test whether a prefix of `data` matches the pattern.
    ///
    /// Returns the pair of the test's outcome and the number of elements the
    /// match consumed; the count is only meaningful when the test succeeded.
    fn is_matching(&self, data: &[T]) -> (r: (bool, usize))
        requires
            data@.len() > 0,
        ensures
            r == self.spec_matching(data@),
    ;

    /// The declared nominal size of the pattern.
    fn size(&self) -> (r: usize)
        ensures
            r == self.spec_size(),
    ;
}

} // verus!
