//! Pattern tests over byte slices.

use vstd::prelude::*;

verus! {

/// The byte a character denotes for byte-level matching: its scalar value
/// reduced modulo 256, as a plain `as`-cast to `u8` computes it.
pub open spec fn spec_char_byte(pattern: char) -> u8 {
    ((pattern as u32) % 256) as u8
}

/// The ASCII lower-case image of a byte: ASCII capital letters are shifted to
/// their lower-case forms, every other byte is unchanged.
pub open spec fn spec_lower(b: u8) -> u8 {
    if 0x41 <= b <= 0x5a {
        (b + 32) as u8
    } else {
        b
    }
}

/// Two byte sequences are equal up to ASCII case.
pub open spec fn spec_eq_ignore_ascii_case(a: Seq<u8>, b: Seq<u8>) -> bool {
    a.len() == b.len() && (forall|i: int| 0 <= i < a.len() ==> spec_lower(a[i]) == spec_lower(b[i]))
}

/// True for the ASCII digit bytes.
pub open spec fn spec_is_digit(b: u8) -> bool {
    0x30 <= b <= 0x39
}

/// True for the ASCII punctuation bytes:
///  * U+0021 ..= U+002F ! " # $ % & ' ( ) * + , - . /, or
///  * U+003A ..= U+0040 : ; < = > ? @, or
///  * U+005B ..= U+0060 [ \ ] ^ _ `, or
///  * U+007B ..= U+007E { | } ~
pub open spec fn spec_is_punctuation(b: u8) -> bool {
    (0x21 <= b <= 0x2f) || (0x3a <= b <= 0x40) || (0x5b <= b <= 0x60) || (0x7b <= b <= 0x7e)
}

/// The predicate of `spec_is_digit`, as a value.
pub open spec fn digit_pred() -> spec_fn(u8) -> bool {
    |b: u8| spec_is_digit(b)
}

/// The predicate of text bytes: everything but ASCII punctuation.
pub open spec fn text_pred() -> spec_fn(u8) -> bool {
    |b: u8| !spec_is_punctuation(b)
}

/// The length of the longest prefix of `data` whose bytes all satisfy `p`.
pub open spec fn prefix_run_len(data: Seq<u8>, p: spec_fn(u8) -> bool) -> int
    decreases data.len(),
{
    if data.len() == 0 || !p(data[0]) {
        0
    } else {
        1 + prefix_run_len(data.skip(1), p)
    }
}

/// `prefix_run_len` is exactly the first index whose byte fails `p`, or the
/// whole length when no byte fails it.
pub proof fn lemma_prefix_run_len(data: Seq<u8>, p: spec_fn(u8) -> bool, k: int)
    requires
        0 <= k <= data.len(),
        forall|i: int| 0 <= i < k ==> p(data[i]),
        k == data.len() || !p(data[k]),
    ensures
        prefix_run_len(data, p) == k,
    decreases k,
{
    if k == 0 {
    } else {
        assert(p(data[0]));
        assert(forall|i: int| 0 <= i < k - 1 ==> p(data.skip(1)[i]));
        lemma_prefix_run_len(data.skip(1), p, k - 1);
    }
}

/// A longest prefix run stays within the data, and every byte in it
/// satisfies the predicate.
pub proof fn lemma_prefix_run_props(data: Seq<u8>, p: spec_fn(u8) -> bool)
    ensures
        0 <= prefix_run_len(data, p) <= data.len(),
        forall|i: int| 0 <= i < prefix_run_len(data, p) ==> p(data[i]),
    decreases data.len(),
{
    if data.len() == 0 || !p(data[0]) {
    } else {
        lemma_prefix_run_props(data.skip(1), p);
        assert forall|i: int| 0 <= i < prefix_run_len(data, p) implies p(data[i]) by {
            if i > 0 {
                assert(data.skip(1)[i - 1] == data[i]);
            }
        }
    }
}

/// What `match_char` returns on the given data.
pub open spec fn spec_match_char(pattern: char, data: Seq<u8>) -> (bool, usize) {
    (spec_char_byte(pattern) == data[0], 1usize)
}

/// What `match_pattern` returns on the given data.
pub open spec fn spec_match_pattern(pattern: Seq<u8>, data: Seq<u8>) -> (bool, usize) {
    if pattern.len() == 0 || pattern.len() > data.len() {
        (false, 0usize)
    } else if spec_eq_ignore_ascii_case(pattern, data.take(pattern.len() as int)) {
        (true, pattern.len() as usize)
    } else {
        (false, 0usize)
    }
}

/// What `match_number` returns on the given data.
pub open spec fn spec_match_number(data: Seq<u8>) -> (bool, usize) {
    let run = prefix_run_len(data, digit_pred());
    (run >= 1, run as usize)
}

/// What `match_string` returns on the given data.
pub open spec fn spec_match_string(data: Seq<u8>) -> (bool, usize) {
    let run = prefix_run_len(data, text_pred());
    (run >= 1, run as usize)
}

/// Attempt to match a single character against the first byte of a slice.
///
/// Returns whether the first byte equals the character (reduced to a byte)
/// and the one byte such a match consumes.
pub fn match_char(pattern: char, data: &[u8]) -> (r: (bool, usize))
    requires
        data@.len() >= 1,
    ensures
        r == spec_match_char(pattern, data@),
{
    let scalar: u32 = pattern as u32;
    let byte: u8 = (scalar % 256) as u8;
    (byte == data[0], 1)
}

/// Attempt to match a byte pattern, up to ASCII case, against the front of a
/// byte slice.
///
/// Returns whether the pattern matched and, on a match, the pattern's length
/// as the number of bytes consumed.
pub fn match_pattern(pattern: &[u8], data: &[u8]) -> (r: (bool, usize))
    ensures
        r == spec_match_pattern(pattern@, data@),
{
    if pattern.is_empty() {
        return (false, 0);
    }
    if pattern.len() > data.len() {
        return (false, 0);
    }
    let n = pattern.len();
    let mut i: usize = 0;
    while i < n
        invariant
            0 <= i <= n,
            n == pattern@.len() <= data@.len(),
            forall|j: int| 0 <= j < i ==> spec_lower(pattern@[j]) == spec_lower(data@[j]),
        decreases n - i,
    {
        if lower_byte(pattern[i]) != lower_byte(data[i]) {
            assert(!spec_eq_ignore_ascii_case(pattern@, data@.take(n as int)));
            return (false, 0);
        }
        i = i + 1;
    }
    assert(forall|j: int| 0 <= j < n ==> spec_lower(pattern@[j]) == spec_lower(
        data@.take(n as int)[j],
    ));
    (true, n)
}

/// The ASCII lower-case image of a byte.
fn lower_byte(b: u8) -> (r: u8)
    ensures
        r == spec_lower(b),
{
    if 0x41 <= b && b <= 0x5a {
        b + 32
    } else {
        b
    }
}

/// True for the ASCII digit bytes.
fn is_digit(b: u8) -> (r: bool)
    ensures
        r == spec_is_digit(b),
{
    0x30 <= b && b <= 0x39
}

/// True for the ASCII punctuation bytes.
fn is_punctuation(b: u8) -> (r: bool)
    ensures
        r == spec_is_punctuation(b),
{
    (0x21 <= b && b <= 0x2f) || (0x3a <= b && b <= 0x40) || (0x5b <= b && b <= 0x60) || (0x7b <= b
        && b <= 0x7e)
}

/// Attempt to match a run of decimal digits at the front of a byte slice.
///
/// Returns whether at least one digit was found and the length of the
/// longest leading digit run.
pub fn match_number(data: &[u8]) -> (r: (bool, usize))
    ensures
        r == spec_match_number(data@),
{
    let mut pos: usize = 0;
    loop
        invariant
            0 <= pos <= data@.len(),
            forall|i: int| 0 <= i < pos ==> digit_pred()(data@[i]),
        decreases data@.len() - pos,
    {
        if pos == data.len() {
            proof {
                lemma_prefix_run_len(data@, digit_pred(), pos as int);
            }
            return (pos >= 1, pos);
        }
        if is_digit(data[pos]) {
            assert(digit_pred()(data@[pos as int]));
            pos = pos + 1;
        } else {
            assert(!digit_pred()(data@[pos as int]));
            proof {
                lemma_prefix_run_len(data@, digit_pred(), pos as int);
            }
            return (pos >= 1, pos);
        }
    }
}

/// Attempt to match a run of text bytes at the front of a byte slice,
/// stopping at the first ASCII punctuation byte.
///
/// Returns whether at least one text byte was found and the length of the
/// longest leading text run.
pub fn match_string(data: &[u8]) -> (r: (bool, usize))
    ensures
        r == spec_match_string(data@),
{
    let mut pos: usize = 0;
    loop
        invariant
            0 <= pos <= data@.len(),
            forall|i: int| 0 <= i < pos ==> text_pred()(data@[i]),
        decreases data@.len() - pos,
    {
        if pos == data.len() {
            proof {
                lemma_prefix_run_len(data@, text_pred(), pos as int);
            }
            return (pos >= 1, pos);
        }
        if !is_punctuation(data[pos]) {
            assert(text_pred()(data@[pos as int]));
            pos = pos + 1;
        } else {
            assert(!text_pred()(data@[pos as int]));
            proof {
                lemma_prefix_run_len(data@, text_pred(), pos as int);
            }
            return (pos >= 1, pos);
        }
    }
}

} // verus!
