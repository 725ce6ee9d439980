//! Encodings that other crates compute: Base64 text, BLAKE3 digests, and the
//! lossy reading of bytes as text.

use base64::Engine;
use vstd::prelude::*;
use vstd::utf8::{decode_utf8, valid_utf8};

verus! {

/// The standard Base64 text of some bytes, with padding.
pub uninterp spec fn base64_text(data: Seq<u8>) -> Seq<char>;

/// The bytes that a standard Base64 text stands for, or what is wrong with it.
pub uninterp spec fn base64_data(text: Seq<char>) -> Result<Seq<u8>, Seq<char>>;

/// The BLAKE3 digest of some bytes, in hexadecimal.
pub uninterp spec fn blake3_text(data: Seq<u8>) -> Seq<char>;

/// Some bytes read as UTF-8, with a replacement for what is not UTF-8.
pub uninterp spec fn lossy_text(data: Seq<u8>) -> Seq<char>;

/// Whether the Base64 text of that many bytes fits in memory.
pub open spec fn base64_fits(len: nat) -> bool {
    (len + 2) / 3 * 4 <= isize::MAX
}

/// Whether `text` is a Base64 text of `data`.
pub open spec fn decodes_to(text: Seq<char>, data: Seq<u8>) -> bool {
    base64_data(text) == Ok::<Seq<u8>, Seq<char>>(data)
}

/// The view of a decoding result.
pub open spec fn decoded_view(r: Result<Vec<u8>, String>) -> Result<Seq<u8>, Seq<char>> {
    match r {
        Ok(data) => Ok(data@),
        Err(text) => Err(text@),
    }
}

/// `Engine::encode` of `base64`'s standard engine. Trusted: the text is a function
/// of the bytes alone, and the engine decodes it to the same bytes.
#[verifier::external_body]
pub(crate) fn base64_encode(data: &[u8]) -> (r: String)
    requires
        base64_fits(data@.len()),
    ensures
        r@ == base64_text(data@),
        decodes_to(r@, data@),
{
    base64::engine::general_purpose::STANDARD.encode(data)
}

/// `Engine::decode` of `base64`'s standard engine, with the text of its error.
/// Trusted: the result is a function of the text alone.
#[verifier::external_body]
pub(crate) fn base64_decode(text: &str) -> (r: Result<Vec<u8>, String>)
    ensures
        decoded_view(r) == base64_data(text@),
{
    base64::engine::general_purpose::STANDARD.decode(text).map_err(|e| e.to_string())
}

/// `blake3::hash` and `Hash::to_hex`. Trusted: the digest is a function of the
/// bytes alone, and its text is 64 lower-case hexadecimal digits.
#[verifier::external_body]
pub(crate) fn blake3_hex(data: &[u8]) -> (r: String)
    ensures
        r@ == blake3_text(data@),
        r@.len() == 64,
        forall|i: int|
            0 <= i < r@.len() ==> ('0' <= #[trigger] r@[i] <= '9' || 'a' <= r@[i] <= 'f'),
{
    blake3::hash(data).to_hex().to_string()
}

/// `String::from_utf8_lossy`. Trusted: the text is a function of the bytes alone,
/// and bytes that are UTF-8 are read as the text they encode.
#[verifier::external_body]
pub(crate) fn utf8_lossy(data: &[u8]) -> (r: String)
    ensures
        r@ == lossy_text(data@),
        valid_utf8(data@) ==> r@ == decode_utf8(data@),
{
    String::from_utf8_lossy(data).into_owned()
}

} // verus!
