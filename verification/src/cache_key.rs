//! The key under which the cache holds the thumbnail of a file.
//!
//! The cache's producers name an entry after the file's location: the MD5
//! digest of the file's `file://` URI, written as 32 lowercase hexadecimal
//! digits. The path goes into the URI as it stands: nothing is resolved,
//! normalised or escaped.

use crate::text::{decode_lossy, lemma_encoding_concat, lossy_text};
use vstd::prelude::*;
use vstd::string::StringExecFns;
use vstd::utf8::{decode_utf8, encode_utf8, valid_utf8};

verus! {

/// What precedes the path in the URI of a local file.
pub const URI_SCHEME: &'static str = "file://";

/// The MD5 digest of a byte string: 16 bytes.
pub uninterp spec fn md5_of(data: Seq<u8>) -> Seq<u8>;

/// Computes the MD5 digest of a byte string, by `md5::compute`.
///
/// Trusted: the 16 bytes that come back are the digest of the argument.
#[verifier::external_body]
fn md5_digest(data: &[u8]) -> (digest: [u8; 16])
    ensures
        digest@ == md5_of(data@),
{
    md5::compute(data).0
}

/// The lowercase hexadecimal digit for a value below 16.
pub open spec fn hex_digit(nibble: u8) -> char {
    if nibble < 10 {
        ((0x30 + nibble) as u8) as char
    } else {
        ((0x57 + nibble) as u8) as char
    }
}

/// Whether a character is one of `0`-`9` and `a`-`f`.
pub open spec fn is_lower_hex(c: char) -> bool {
    ('0' <= c && c <= '9') || ('a' <= c && c <= 'f')
}

/// A byte string in lowercase hexadecimal: two digits for each byte, the high
/// four bits first.
pub open spec fn hex_lower(bytes: Seq<u8>) -> Seq<char> {
    Seq::new(
        2 * bytes.len(),
        |i: int|
            if i % 2 == 0 {
                hex_digit(bytes[i / 2] / 16)
            } else {
                hex_digit(bytes[i / 2] % 16)
            },
    )
}

/// The URI of the local file whose path has the given textual form.
pub open spec fn file_uri(text: Seq<char>) -> Seq<char> {
    URI_SCHEME@ + text
}

/// The cache key of the file at `path`.
pub open spec fn thumbnail_key(path: Seq<u8>) -> Seq<char> {
    hex_lower(md5_of(encode_utf8(file_uri(lossy_text(path)))))
}

/// A byte string in hexadecimal has two lowercase hexadecimal digits for each
/// byte.
pub proof fn lemma_hex_lower(bytes: Seq<u8>)
    ensures
        hex_lower(bytes).len() == 2 * bytes.len(),
        forall|i: int| 0 <= i < hex_lower(bytes).len() ==> is_lower_hex(#[trigger] hex_lower(bytes)[i]),
{
}

/// For a path that is well-formed UTF-8, the key is the digest of the bytes of
/// `file://` followed by the bytes of the path.
pub proof fn lemma_key_of_utf8_path(path: Seq<u8>)
    requires
        valid_utf8(path),
    ensures
        thumbnail_key(path) == hex_lower(md5_of(encode_utf8(URI_SCHEME@) + path)),
{
    lemma_encoding_concat(URI_SCHEME@, decode_utf8(path));
    vstd::utf8::decode_utf8_encode_utf8(path);
}

/// The lowercase hexadecimal digit for a value below 16.
fn hex_digit_of(nibble: u8) -> (digit: char)
    requires
        nibble < 16,
    ensures
        digit == hex_digit(nibble),
{
    if nibble < 10 {
        (0x30 + nibble) as char
    } else {
        (0x57 + nibble) as char
    }
}

/// Writes a byte string in lowercase hexadecimal.
pub fn to_hex_lower(bytes: &[u8]) -> (hex: String)
    ensures
        hex@ == hex_lower(bytes@),
{
    let mut hex = String::new();
    let mut i: usize = 0;
    while i < bytes.len()
        invariant
            i <= bytes.len(),
            hex@ == hex_lower(bytes@.take(i as int)),
        decreases bytes.len() - i,
    {
        let b: u8 = bytes[i];
        hex.push(hex_digit_of(b / 16));
        hex.push(hex_digit_of(b % 16));
        assert(hex@ =~= hex_lower(bytes@.take(i + 1)));
        i += 1;
    }
    hex
}

/// The URI of the local file whose path has the given textual form.
pub fn file_uri_of(text: &str) -> (uri: String)
    ensures
        uri@ == file_uri(text@),
{
    let mut uri = String::from_str(URI_SCHEME);
    uri.append(text);
    uri
}

/// The cache key of the file at `path`: 32 lowercase hexadecimal digits.
pub fn compute_thumbnail_hash(path: &[u8]) -> (key: String)
    ensures
        key@ == thumbnail_key(path@),
        key@.len() == 32,
        forall|i: int| 0 <= i < 32 ==> is_lower_hex(#[trigger] key@[i]),
{
    let text = decode_lossy(path);
    let uri = file_uri_of(text.as_str());
    let digest = md5_digest(uri.as_str().as_bytes());
    proof {
        lemma_hex_lower(digest@);
    }
    to_hex_lower(digest.as_slice())
}

} // verus!
