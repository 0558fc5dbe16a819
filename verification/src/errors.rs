//! Failure taxonomy of the node core.
//!
//! Cryptographic failures are opaque classified kinds: no partial plaintext,
//! key bytes or internal hash intermediates appear in any error value.

use vstd::prelude::*;

verus! {

/// Failures of the authenticated cipher.
#[derive(Clone, Copy, Debug, PartialEq, Eq, Structural)]
pub enum CipherError {
    /// The wire blob is not well-formed base64.
    InvalidEncoding,
    /// The decoded record is shorter than one nonce.
    CorruptData,
    /// Tag verification failed: wrong key, tampered ciphertext or wrong
    /// nonce split. The three causes are deliberately indistinguishable.
    AuthenticationFailed,
    /// The record authenticates, but its payload is not valid UTF-8 text.
    /// Only the text-level decryption reports this kind.
    InvalidUtf8,
    /// The encryption backend refused the request (it draws the nonce from
    /// the system generator and may report its failure).
    EncryptionFailed,
}

impl CipherError {
    /// A short human-readable label; contains nothing derived from the data.
    pub fn message(&self) -> (r: String)
        ensures
            *self == CipherError::InvalidEncoding ==> r@ == "invalid encoding"@,
            *self == CipherError::CorruptData ==> r@ == "corrupt data"@,
            *self == CipherError::AuthenticationFailed ==> r@ == "authentication failed"@,
            *self == CipherError::InvalidUtf8 ==> r@ == "invalid utf-8"@,
            *self == CipherError::EncryptionFailed ==> r@ == "encryption failed"@,
    {
        match self {
            CipherError::InvalidEncoding => ("invalid encoding").to_owned(),
            CipherError::CorruptData => ("corrupt data").to_owned(),
            CipherError::AuthenticationFailed => ("authentication failed").to_owned(),
            CipherError::InvalidUtf8 => ("invalid utf-8").to_owned(),
            CipherError::EncryptionFailed => ("encryption failed").to_owned(),
        }
    }
}

/// Failures of the attestation path.
#[derive(Clone, Copy, Debug, PartialEq, Eq, Structural)]
pub enum AttestationError {
    /// The underlying root of trust cannot be reached. Never masked by a
    /// silent fallback to a simulated provider.
    Unavailable,
    /// The root of trust was reached but refused to sign the quote.
    SigningFailed,
}

impl AttestationError {
    /// A short human-readable label.
    pub fn message(&self) -> (r: String)
        ensures
            *self == AttestationError::Unavailable ==> r@ == "attestation unavailable"@,
            *self == AttestationError::SigningFailed ==> r@ == "attestation signing failed"@,
    {
        match self {
            AttestationError::Unavailable => ("attestation unavailable").to_owned(),
            AttestationError::SigningFailed => ("attestation signing failed").to_owned(),
        }
    }
}

} // verus!
