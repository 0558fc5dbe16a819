//! Fresh randomness from the system's cryptographically secure generator.

use vstd::prelude::*;

use chacha20poly1305::aead::Generate;

verus! {

/// Relies on crypto_common::Generate (Nonce::try_generate, backed by the
/// system CSPRNG): twelve bytes about which nothing further can be promised;
/// `None` reports a generator failure.
#[verifier::external_body]
pub(crate) fn fresh_random_12() -> (r: Option<Vec<u8>>)
    ensures
        r matches Some(v) ==> v@.len() == 12,
{
    match chacha20poly1305::Nonce::try_generate() {
        Ok(nonce) => Some(nonce.to_vec()),
        Err(_) => None,
    }
}

} // verus!
