//! Base64 transport encoding, reached through the `base64` crate.
//!
//! The rendering itself is named, not restated: `b64_of` stands for the
//! standard (RFC 4648, padded) encoding of a byte sequence, and
//! `b64_decode_of` for what strict standard decoding yields on a text.
use vstd::prelude::*;

use base64::prelude::{Engine, BASE64_STANDARD};

verus! {

/// The standard base64 rendering (RFC 4648, with padding) of the given bytes.
pub uninterp spec fn b64_of(bytes: Seq<u8>) -> Seq<char>;

/// What strict standard base64 decoding yields on the given text: `None`
/// where the text is not a canonical rendering of any byte sequence.
pub uninterp spec fn b64_decode_of(text: Seq<char>) -> Option<Seq<u8>>;

/// Relies on `base64::engine::Engine::encode` with the `BASE64_STANDARD`
/// engine: the output is four characters for every three input bytes
/// (padded), and decoding it with the same engine gives the input back.
#[verifier::external_body]
pub(crate) fn b64_encode(bytes: &Vec<u8>) -> (r: String)
    requires
        ((bytes@.len() + 2) / 3) * 4 <= usize::MAX,
    ensures
        r@ == b64_of(bytes@),
        r@.len() == ((bytes@.len() + 2) / 3) * 4,
        b64_decode_of(r@) == Some(bytes@),
{
    BASE64_STANDARD.encode(bytes)
}

/// Relies on `base64::engine::Engine::decode` with the `BASE64_STANDARD`
/// engine: strict RFC 4648 decoding, which accepts canonical input only.
#[verifier::external_body]
pub(crate) fn b64_decode(text: &str) -> (r: Option<Vec<u8>>)
    ensures
        match r {
            Some(v) => b64_decode_of(text@) == Some(v@),
            None => b64_decode_of(text@) is None,
        },
{
    BASE64_STANDARD.decode(text).ok()
}

} // verus!
