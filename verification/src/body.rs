//! Bodies on the wire: raw bytes, carried as standard base64 text.

use vstd::prelude::*;

verus! {

/// The standard base64 text of `bytes`, with padding: what
/// [`base64::encode`] returns.
pub uninterp spec fn base64_text(bytes: Seq<u8>) -> Seq<char>;

/// What [`base64::decode`] makes of `text`: the bytes that the text stands
/// for, or the decoder's complaint about a text that is not base64.
pub uninterp spec fn base64_bytes(text: Seq<char>) -> Result<Seq<u8>, Seq<char>>;

/// The outcome of decoding a text that stands for `bytes`.
pub open spec fn decoded(bytes: Seq<u8>) -> Result<Seq<u8>, Seq<char>> {
    Ok(bytes)
}

/// What a decoded body holds: the bytes, or the complaint.
pub open spec fn decoded_view(body: Result<Vec<u8>, String>) -> Result<Seq<u8>, Seq<char>> {
    match body {
        Ok(bytes) => Ok(bytes@),
        Err(complaint) => Err(complaint@),
    }
}

/// The longest body that can be encoded: its text, a third longer, still
/// fits in memory.
pub open spec fn max_body_len() -> nat {
    (usize::MAX / 4) as nat
}

/// Whether `bytes` is short enough to be encoded.
pub fn fits(bytes: &[u8]) -> (short: bool)
    ensures
        short == (bytes@.len() <= max_body_len()),
{
    bytes.len() <= usize::MAX / 4
}

/// Encodes `bytes` with [`base64::encode`]. The text is the standard base64
/// encoding of the bytes, and decoding it gives the bytes back. The function
/// panics when the length of the text overflows, so long inputs are left
/// out.
#[verifier::external_body]
pub(crate) fn encode(bytes: &[u8]) -> (text: String)
    requires
        bytes@.len() <= max_body_len(),
    ensures
        text@ == base64_text(bytes@),
        base64_bytes(text@) == decoded(bytes@),
{
    base64::encode(bytes)
}

/// Decodes `text` with [`base64::decode`]: the bytes, or the message of the
/// decoder's error. Both are fixed by the text.
#[verifier::external_body]
pub(crate) fn decode(text: &str) -> (body: Result<Vec<u8>, String>)
    ensures
        decoded_view(body) == base64_bytes(text@),
{
    match base64::decode(text) {
        Ok(bytes) => Ok(bytes),
        Err(error) => Err(error.to_string()),
    }
}

} // verus!
