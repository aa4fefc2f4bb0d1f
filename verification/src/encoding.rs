//! Binary payloads as text.

use base64::Engine;
use vstd::prelude::*;

verus! {

/// Bytes in standard base64 with padding, as [`base64_encode`] writes them.
pub uninterp spec fn base64_text(bytes: Seq<u8>) -> Seq<char>;

/// The bytes that a standard base64 text stands for, if it is one, as
/// [`base64_decode`] reads it.
pub uninterp spec fn base64_bytes(text: Seq<char>) -> Option<Seq<u8>>;

/// How long bytes are in base64: four characters for three bytes or a rest.
pub open spec fn base64_len(bytes: nat) -> nat {
    (bytes + 2) / 3 * 4
}

/// Standard base64 of some bytes: `Engine::encode` of
/// `base64::engine::general_purpose::STANDARD`. The contract names the result as
/// a function of the bytes, and claims that decoding gives the bytes back. It
/// panics where the text would be longer than an allocation can be.
#[verifier::external_body]
pub(crate) fn base64_encode(bytes: &Vec<u8>) -> (text: String)
    requires
        base64_len(bytes@.len()) <= isize::MAX,
    ensures
        text@ == base64_text(bytes@),
        base64_bytes(text@) == Some(bytes@),
{
    base64::engine::general_purpose::STANDARD.encode(bytes)
}

/// The bytes of a standard base64 text: `Engine::decode` of
/// `base64::engine::general_purpose::STANDARD`; none where it reports an error.
/// The contract only names the result as a function of the text.
#[verifier::external_body]
pub(crate) fn base64_decode(text: &str) -> (bytes: Option<Vec<u8>>)
    ensures
        (match bytes {
            Some(bytes) => Some(bytes@),
            None => None,
        }) == base64_bytes(text@),
{
    base64::engine::general_purpose::STANDARD.decode(text).ok()
}

} // verus!
