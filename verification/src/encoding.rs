//! Base64 framing of wire records and UTF-8 recovery of text payloads.

use vstd::prelude::*;
use vstd::utf8::{decode_utf8, valid_utf8};

use base64::Engine;

verus! {

/// The standard base64 rendering (padded, canonical) of a byte sequence.
/// The alphabet is not modelled; the rendering is a fixed function of the
/// bytes alone.
pub uninterp spec fn base64_of(bytes: Seq<u8>) -> Seq<char>;

/// Whether `s` is the base64 rendering of some byte sequence.
pub open spec fn is_base64(s: Seq<char>) -> bool {
    exists|b: Seq<u8>| s == base64_of(b)
}

/// The byte sequence that `s` renders, where one exists.
pub open spec fn base64_bytes_of(s: Seq<char>) -> Seq<u8> {
    choose|b: Seq<u8>| s == base64_of(b)
}

/// Relies on base64's STANDARD engine (Engine::encode): a padded canonical
/// rendering that depends on the input bytes alone.
#[verifier::external_body]
pub(crate) fn base64_encode(bytes: &[u8]) -> (r: String)
    ensures
        r@ == base64_of(bytes@),
{
    base64::engine::general_purpose::STANDARD.encode(bytes)
}

/// Relies on base64's STANDARD engine (Engine::decode): it requires
/// canonical padding and forbids trailing bits, so it accepts exactly the
/// strings the engine's encode produces and returns the encoded bytes.
#[verifier::external_body]
pub(crate) fn base64_decode(s: &str) -> (r: Option<Vec<u8>>)
    ensures
        r matches Some(v) ==> s@ == base64_of(v@) && (forall|b: Seq<u8>| s@ == base64_of(b) ==> v@ == b),
        r is None ==> !is_base64(s@),
{
    base64::engine::general_purpose::STANDARD.decode(s).ok()
}

/// Relies on String::from_utf8: it succeeds exactly on valid UTF-8 and
/// returns the decoded characters.
#[verifier::external_body]
pub(crate) fn string_from_utf8(bytes: Vec<u8>) -> (r: Option<String>)
    ensures
        r matches Some(s) ==> valid_utf8(bytes@) && s@ == decode_utf8(bytes@),
        r is None ==> !valid_utf8(bytes@),
{
    String::from_utf8(bytes).ok()
}

} // verus!
