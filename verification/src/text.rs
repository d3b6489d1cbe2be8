//! Comparisons of byte strings and of text.

use vstd::prelude::*;
use vstd::utf8::{decode_utf8, encode_utf8, valid_utf8};

verus! {

/// What each element of a list stands for, in the list's order.
pub open spec fn views<T: View>(list: Seq<T>) -> Seq<T::V> {
    list.map_values(|item: T| item@)
}

/// Whether two byte strings hold the same bytes.
pub fn bytes_eq(a: &[u8], b: &[u8]) -> (same: bool)
    ensures
        same == (a@ == b@),
{
    if a.len() != b.len() {
        return false;
    }
    let mut i: usize = 0;
    while i < a.len()
        invariant
            a.len() == b.len(),
            i <= a.len(),
            forall|k: int| 0 <= k < i ==> a@[k] == b@[k],
        decreases a.len() - i,
    {
        if a[i] != b[i] {
            return false;
        }
        i += 1;
    }
    assert(a@ =~= b@);
    true
}

/// Two texts with the same UTF-8 encoding are the same text.
pub proof fn lemma_encoding_injective(a: Seq<char>, b: Seq<char>)
    requires
        encode_utf8(a) == encode_utf8(b),
    ensures
        a == b,
{
    vstd::utf8::encode_utf8_decode_utf8(a);
    vstd::utf8::encode_utf8_decode_utf8(b);
}

/// Whether two texts hold the same characters.
pub fn str_eq(a: &str, b: &str) -> (same: bool)
    ensures
        same == (a@ == b@),
{
    let same = bytes_eq(a.as_bytes(), b.as_bytes());
    proof {
        if same {
            lemma_encoding_injective(a@, b@);
        }
    }
    same
}

/// `String::push` appends one character to the end of the string.
pub assume_specification[ String::push ](s: &mut String, c: char)
    ensures
        final(s)@ == old(s)@.push(c),
;

/// Reads a byte string as UTF-8 text, by `core::str::from_utf8`.
///
/// Trusted: the text comes back exactly when the bytes are well-formed UTF-8,
/// and it is then the text that those bytes encode.
#[verifier::external_body]
pub(crate) fn utf8_text(bytes: &[u8]) -> (text: Option<&str>)
    ensures
        text is Some <==> valid_utf8(bytes@),
        text matches Some(t) ==> t@ == decode_utf8(bytes@),
{
    core::str::from_utf8(bytes).ok()
}

/// What `String::from_utf8_lossy` reads out of a byte string that is not
/// well-formed UTF-8: the text of its well-formed stretches, with U+FFFD in
/// place of each ill-formed one.
pub uninterp spec fn lossy_reading(bytes: Seq<u8>) -> Seq<char>;

/// The textual form of a byte string: the text that it encodes where it is
/// well-formed UTF-8, and its lossy reading otherwise.
pub open spec fn lossy_text(bytes: Seq<u8>) -> Seq<char> {
    if valid_utf8(bytes) {
        decode_utf8(bytes)
    } else {
        lossy_reading(bytes)
    }
}

/// Reads a byte string as text, by `String::from_utf8_lossy`.
///
/// Trusted: well-formed UTF-8 comes back as the text that it encodes, and
/// anything else as its lossy reading.
#[verifier::external_body]
pub(crate) fn decode_lossy(bytes: &[u8]) -> (text: String)
    ensures
        valid_utf8(bytes@) ==> text@ == decode_utf8(bytes@),
        !valid_utf8(bytes@) ==> text@ == lossy_reading(bytes@),
{
    String::from_utf8_lossy(bytes).into_owned()
}

/// The encoding of two texts in a row is the two encodings in a row.
pub proof fn lemma_encoding_concat(a: Seq<char>, b: Seq<char>)
    ensures
        encode_utf8(a + b) == encode_utf8(a) + encode_utf8(b),
    decreases a.len(),
{
    if a.len() > 0 {
        lemma_encoding_concat(a.drop_first(), b);
        assert((a + b).drop_first() =~= a.drop_first() + b);
    }
}

/// The lowercase form that `str::to_lowercase` gives to a text, by the
/// Unicode case mappings.
pub uninterp spec fn lowercase_of(text: Seq<char>) -> Seq<char>;

/// Puts a text in lowercase, by `str::to_lowercase`.
///
/// Trusted: the result is the lowercase form of the argument.
#[verifier::external_body]
pub(crate) fn to_lowercase(text: &str) -> (lower: String)
    ensures
        lower@ == lowercase_of(text@),
{
    text.to_lowercase()
}

} // verus!
