//! Specialized primitive parsers for bytes.

use vstd::prelude::*;

use crate::matcher::Match;
use crate::peek::Until;

pub mod binary_operator;
pub mod number;
pub mod string;
pub mod whitespace;

verus! {

/// A nearest-occurrence search matches exactly where its wrapped matcher
/// does and declares that matcher's size.
impl<M: Match<u8>> Match<u8> for Until<u8, M> {
    open spec fn spec_matching(&self, data: Seq<u8>) -> (bool, usize) {
        self.element.spec_matching(data)
    }

    open spec fn spec_size(&self) -> usize {
        self.element.spec_size()
    }

    proof fn lemma_matching_bounds(&self, data: Seq<u8>) {
        self.element.lemma_matching_bounds(data);
    }

    fn is_matching(&self, data: &[u8]) -> (r: (bool, usize)) {
        self.element.is_matching(data)
    }

    fn size(&self) -> (r: usize) {
        self.element.size()
    }
}

} // verus!
