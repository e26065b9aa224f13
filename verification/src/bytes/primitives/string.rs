//! String primitives.

use vstd::prelude::*;

use crate::bytes::matchers::{
    lemma_prefix_run_props, match_string, prefix_run_len, spec_match_string, text_pred,
};
use crate::errors::{ParseError, ParseResult};
use crate::matcher::Match;
use crate::recognizer::recognize_slice;
use crate::scanner::Scanner;
use crate::visitor::Visitor;
use vstd::string::StringSliceAdditionalSpecFns;

verus! {

broadcast use vstd::string::to_string_from_display_ensures_for_str;

/// The variable-length token of a run of text bytes: everything up to the
/// first ASCII punctuation byte.
struct TokenString;

impl Match<u8> for TokenString {
    open spec fn spec_matching(&self, data: Seq<u8>) -> (bool, usize) {
        spec_match_string(data)
    }

    /// The run's length varies with the input, so no size is declared.
    open spec fn spec_size(&self) -> usize {
        0usize
    }

    proof fn lemma_matching_bounds(&self, data: Seq<u8>) {
        lemma_prefix_run_props(data, text_pred());
    }

    fn is_matching(&self, data: &[u8]) -> (r: (bool, usize)) {
        match_string(data)
    }

    fn size(&self) -> (r: usize) {
        0
    }
}

/// A parsed run of text, decoded as UTF-8.
pub struct DataString<T>(pub T);

/// Relies on `core::str::from_utf8`: it accepts exactly the valid UTF-8
/// byte sequences and returns a view of the same bytes, copying nothing.
#[verifier::external_body]
fn bytes_as_str(v: &[u8]) -> (r: Option<&str>)
    ensures
        r is Some <==> vstd::utf8::valid_utf8(v@),
        r matches Some(s) ==> s.spec_bytes() == v@,
{
    core::str::from_utf8(v).ok()
}

/// What accepting a text run yields on the given input: the longest leading
/// run of non-punctuation bytes is consumed. An empty input is a hard
/// failure, an input that starts with punctuation does not apply, and a run
/// that is not valid UTF-8 fails as malformed text after the run was
/// consumed.
pub open spec fn spec_data_string_accept(data: Seq<u8>) -> Result<int, ParseError> {
    let run = prefix_run_len(data, text_pred());
    if data.len() == 0 {
        Err(ParseError::UnexpectedEndOfInput)
    } else if run == 0 {
        Err(ParseError::UnexpectedToken)
    } else if !vstd::utf8::valid_utf8(data.take(run)) {
        Err(ParseError::Utf8Error)
    } else {
        Ok(run)
    }
}

impl<'a> Visitor<'a, u8> for DataString<&'a str> {
    open spec fn spec_accept(data: Seq<u8>) -> Result<int, ParseError> {
        spec_data_string_accept(data)
    }

    /// The borrowed text views exactly the consumed run of bytes.
    open spec fn spec_value(data: Seq<u8>, v: Self) -> bool {
        v.0.spec_bytes() == data.take(prefix_run_len(data, text_pred()))
    }

    proof fn lemma_accept_bounds(data: Seq<u8>) {
        lemma_prefix_run_props(data, text_pred());
    }

    fn accept(scanner: &mut Scanner<'a, u8>) -> (r: ParseResult<Self>) {
        let ghost rem = old(scanner).spec_remaining();
        proof {
            lemma_prefix_run_props(rem, text_pred());
        }
        let raw = recognize_slice(TokenString, scanner)?;
        match bytes_as_str(raw) {
            Some(s) => Ok(DataString(s)),
            None => Err(ParseError::Utf8Error),
        }
    }
}

impl<'a> Visitor<'a, u8> for DataString<String> {
    open spec fn spec_accept(data: Seq<u8>) -> Result<int, ParseError> {
        spec_data_string_accept(data)
    }

    /// The owned text encodes back to exactly the consumed run of bytes.
    open spec fn spec_value(data: Seq<u8>, v: Self) -> bool {
        vstd::utf8::encode_utf8(v.0@) == data.take(prefix_run_len(data, text_pred()))
    }

    proof fn lemma_accept_bounds(data: Seq<u8>) {
        lemma_prefix_run_props(data, text_pred());
    }

    fn accept(scanner: &mut Scanner<'a, u8>) -> (r: ParseResult<Self>) {
        let ghost rem = old(scanner).spec_remaining();
        proof {
            lemma_prefix_run_props(rem, text_pred());
        }
        let raw = recognize_slice(TokenString, scanner)?;
        match bytes_as_str(raw) {
            Some(s) => Ok(DataString(s.to_string())),
            None => Err(ParseError::Utf8Error),
        }
    }
}

} // verus!
