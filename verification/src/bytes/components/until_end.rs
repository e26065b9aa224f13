//! The trivial boundary search that takes everything to the end.

use vstd::prelude::*;

use crate::errors::{ParseError, ParseResult};
use crate::peek::{PeekResult, Peekable, UntilEnd};
use crate::scanner::Scanner;

verus! {

impl<'a> Peekable<'a, u8> for UntilEnd<u8> {
    /// Everything that remains is the region, with no delimiters on either
    /// side.
    open spec fn spec_peek(&self, data: Seq<u8>) -> Result<PeekResult, ParseError> {
        Ok(
            PeekResult::Found {
                end_slice: data.len() as usize,
                start_element_size: 0usize,
                end_element_size: 0usize,
            },
        )
    }

    proof fn lemma_peek_bounds(&self, data: Seq<u8>) {
    }

    fn peek(&self, data: &Scanner<'a, u8>) -> (r: ParseResult<PeekResult>) {
        Ok(
            PeekResult::Found {
                end_slice: data.remaining().len(),
                start_element_size: 0,
                end_element_size: 0,
            },
        )
    }
}

} // verus!
