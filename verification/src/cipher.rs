//! Authenticated encryption of opaque payloads under a node-bound key.
//!
//! Wire form of a record: `base64(nonce ‖ ciphertext ‖ tag)` with a fixed
//! 96-bit nonce and a 16-byte tag, the nonce drawn fresh from the system
//! generator on every encryption.

use vstd::prelude::*;
use vstd::slice::slice_subrange;
use vstd::utf8::{decode_utf8, decode_utf8_encode_utf8, encode_utf8, encode_utf8_decode_utf8,
    encode_utf8_valid_utf8, valid_utf8};

use chacha20poly1305::aead::{Aead, KeyInit};
use chacha20poly1305::{ChaCha20Poly1305, Nonce};

use crate::encoding::{base64_bytes_of, base64_decode, base64_encode, base64_of, is_base64,
    string_from_utf8};
use crate::errors::CipherError;
use crate::keys::{derive_node_key, node_key_of};
use crate::rng::fresh_random_12;

verus! {

/// The ChaCha20-Poly1305 sealing of `plaintext` under `key` and `nonce`:
/// the ciphertext with the 16-byte authentication tag appended. The
/// construction is not modelled; the result is a fixed function of the
/// three arguments alone.
pub uninterp spec fn chacha_seal(key: Seq<u8>, nonce: Seq<u8>, plaintext: Seq<u8>) -> Seq<u8>;

/// Relies on chacha20poly1305::ChaCha20Poly1305 (Aead::encrypt): sealing is
/// deterministic in key, nonce and plaintext, and appends a 16-byte tag.
#[verifier::external_body]
fn aead_seal(key: &[u8], nonce: &[u8], plaintext: &[u8]) -> (r: Option<Vec<u8>>)
    requires
        key@.len() == 32,
        nonce@.len() == 12,
    ensures
        r matches Some(ct) ==> ct@ == chacha_seal(key@, nonce@, plaintext@) && ct@.len()
            == plaintext@.len() + 16,
{
    let cipher = match ChaCha20Poly1305::new_from_slice(key) {
        Ok(c) => c,
        Err(_) => return None,
    };
    let nonce = match Nonce::try_from(nonce) {
        Ok(n) => n,
        Err(_) => return None,
    };
    cipher.encrypt(&nonce, plaintext).ok()
}

/// Relies on chacha20poly1305::ChaCha20Poly1305 (Aead::decrypt): it returns
/// a plaintext exactly when the input is the sealing of that plaintext under
/// the same key and nonce, and rejects everything else as inauthentic.
#[verifier::external_body]
fn aead_open(key: &[u8], nonce: &[u8], ciphertext: &[u8]) -> (r: Option<Vec<u8>>)
    requires
        key@.len() == 32,
        nonce@.len() == 12,
    ensures
        r matches Some(p) ==> ciphertext@ == chacha_seal(key@, nonce@, p@) && (forall|p2: Seq<u8>|
            ciphertext@ == chacha_seal(key@, nonce@, p2) ==> p@ == p2),
        r is None ==> !(exists|p: Seq<u8>| ciphertext@ == chacha_seal(key@, nonce@, p)),
{
    let cipher = match ChaCha20Poly1305::new_from_slice(key) {
        Ok(c) => c,
        Err(_) => return None,
    };
    let nonce = match Nonce::try_from(nonce) {
        Ok(n) => n,
        Err(_) => return None,
    };
    cipher.decrypt(&nonce, ciphertext).ok()
}

/// Whether `blob` is a well-formed encrypted record of `plaintext` under
/// `key`: the base64 rendering of a 12-byte nonce followed by the sealing of
/// `plaintext` under that nonce, the sealing being the ciphertext (as long
/// as the plaintext) with the 16-byte tag appended. The rendered packet is
/// therefore exactly `12 + plaintext.len() + 16` bytes long; nonce and tag
/// lengths are fixed by the construction and never vary.
pub open spec fn is_encryption_of(key: Seq<u8>, blob: Seq<char>, plaintext: Seq<u8>) -> bool {
    exists|nonce: Seq<u8>|
        nonce.len() == 12 && chacha_seal(key, nonce, plaintext).len() == plaintext.len() + 16
            && blob == base64_of(nonce + chacha_seal(key, nonce, plaintext))
}

/// A node's identity and the symmetric key bound to it. The key is derived
/// from the fingerprint once at construction and never stored elsewhere.
pub struct NodeHardware {
    fingerprint: String,
    secret_key: Vec<u8>,
}

impl NodeHardware {
    /// The node's stable identity fingerprint.
    pub closed spec fn spec_fingerprint(&self) -> Seq<char> {
        self.fingerprint@
    }

    /// The node's derived 256-bit key.
    pub closed spec fn spec_key(&self) -> Seq<u8> {
        self.secret_key@
    }

    /// The key is exactly the derivation of the fingerprint.
    pub open spec fn wf(&self) -> bool {
        self.spec_key() == node_key_of(self.spec_fingerprint()) && self.spec_key().len() == 32
    }

    /// A node bound to the fixed development fingerprint.
    pub fn new() -> (r: NodeHardware)
        ensures
            r.wf(),
            r.spec_fingerprint() == "MOCK_FINGERPRINT_DEV_001"@,
    {
        NodeHardware::from_fingerprint(("MOCK_FINGERPRINT_DEV_001").to_owned())
    }

    /// A node bound to the given fingerprint; the key is derived from it.
    pub fn from_fingerprint(fingerprint: String) -> (r: NodeHardware)
        ensures
            r.wf(),
            r.spec_fingerprint() == fingerprint@,
    {
        let secret_key = derive_node_key(fingerprint.as_str());
        NodeHardware { fingerprint, secret_key }
    }

    pub fn get_fingerprint(&self) -> (r: String)
        ensures
            r@ == self.spec_fingerprint(),
    {
        self.fingerprint.clone()
    }

    /// Seals `plaintext` under the node key and a fresh random 96-bit nonce
    /// and renders the record as base64: `nonce[12] ‖ ciphertext ‖ tag[16]`,
    /// so the rendered packet is exactly `12 + plaintext.len() + 16` bytes.
    /// A (key, nonce) pair is never reused by construction: the nonce exists
    /// only inside this call.
    pub fn encrypt_bytes(&self, plaintext: &[u8]) -> (r: Result<String, CipherError>)
        requires
            self.wf(),
        ensures
            r matches Ok(blob) ==> is_encryption_of(self.spec_key(), blob@, plaintext@),
            r matches Err(e) ==> e == CipherError::EncryptionFailed,
    {
        let mut packet = match fresh_random_12() {
            Some(n) => n,
            None => return Err(CipherError::EncryptionFailed),
        };
        let ghost nonce_view = packet@;
        let mut sealed = match aead_seal(self.secret_key.as_slice(), packet.as_slice(), plaintext)
            {
            Some(ct) => ct,
            None => return Err(CipherError::EncryptionFailed),
        };
        packet.append(&mut sealed);
        let blob = base64_encode(packet.as_slice());
        proof {
            assert(packet@ == nonce_view + chacha_seal(self.spec_key(), nonce_view, plaintext@));
            assert(chacha_seal(self.spec_key(), nonce_view, plaintext@).len() == plaintext@.len()
                + 16);
            assert(is_encryption_of(self.spec_key(), blob@, plaintext@));
        }
        Ok(blob)
    }

    /// Opens a base64 record sealed with [`Self::encrypt_bytes`] and returns
    /// the plaintext bytes, classifying every failure. Decryption never
    /// retries and never returns partial plaintext.
    pub fn decrypt_bytes(&self, blob: &str) -> (r: Result<Vec<u8>, CipherError>)
        requires
            self.wf(),
        ensures
            r == Err::<Vec<u8>, CipherError>(CipherError::InvalidEncoding) <==> !is_base64(blob@),
            r == Err::<Vec<u8>, CipherError>(CipherError::CorruptData) <==> is_base64(blob@)
                && base64_bytes_of(blob@).len() < 12,
            r == Err::<Vec<u8>, CipherError>(CipherError::AuthenticationFailed) <==> is_base64(
                blob@,
            ) && base64_bytes_of(blob@).len() >= 12 && !(exists|p: Seq<u8>|
                base64_bytes_of(blob@).skip(12) == chacha_seal(
                    self.spec_key(),
                    base64_bytes_of(blob@).take(12),
                    p,
                )),
            r matches Ok(p) ==> is_base64(blob@) && base64_bytes_of(blob@).len() >= 12
                && base64_bytes_of(blob@).skip(12) == chacha_seal(
                self.spec_key(),
                base64_bytes_of(blob@).take(12),
                p@,
            ) && (forall|p2: Seq<u8>|
                base64_bytes_of(blob@).skip(12) == chacha_seal(
                    self.spec_key(),
                    base64_bytes_of(blob@).take(12),
                    p2,
                ) ==> p@ == p2),
            forall|p: Seq<u8>|
                is_encryption_of(self.spec_key(), blob@, p) ==> (r matches Ok(v) && v@ == p),
            r matches Err(e) ==> (e == CipherError::InvalidEncoding || e
                == CipherError::CorruptData || e == CipherError::AuthenticationFailed),
    {
        let ghost key = self.spec_key();
        let packet = match base64_decode(blob) {
            Some(p) => p,
            None => {
                proof {
                    assert forall|p: Seq<u8>| !is_encryption_of(key, blob@, p) by {
                        if is_encryption_of(key, blob@, p) {
                            let n = choose|n: Seq<u8>|
                                n.len() == 12 && blob@ == base64_of(
                                    n + chacha_seal(key, n, p),
                                );
                            assert(is_base64(blob@));
                        }
                    }
                }
                return Err(CipherError::InvalidEncoding);
            },
        };
        proof {
            assert(blob@ == base64_of(packet@));
            assert(is_base64(blob@));
            assert(base64_bytes_of(blob@) == packet@) by {
                let b = choose|b: Seq<u8>| blob@ == base64_of(b);
            }
        }
        if packet.len() < 12 {
            proof {
                assert forall|p: Seq<u8>| !is_encryption_of(key, blob@, p) by {
                    if is_encryption_of(key, blob@, p) {
                        let n = choose|n: Seq<u8>|
                            n.len() == 12 && blob@ == base64_of(n + chacha_seal(key, n, p));
                        assert(packet@ == n + chacha_seal(key, n, p));
                        assert(packet@.len() >= 12);
                    }
                }
            }
            return Err(CipherError::CorruptData);
        }
        let nonce = slice_subrange(packet.as_slice(), 0, 12);
        let ciphertext = slice_subrange(packet.as_slice(), 12, packet.len());
        proof {
            assert(nonce@ == packet@.take(12));
            assert(ciphertext@ == packet@.skip(12));
        }
        match aead_open(self.secret_key.as_slice(), nonce, ciphertext) {
            Some(plaintext) => {
                proof {
                    assert forall|p: Seq<u8>|
                        is_encryption_of(key, blob@, p) implies plaintext@ == p by {
                        let n = choose|n: Seq<u8>|
                            n.len() == 12 && blob@ == base64_of(n + chacha_seal(key, n, p));
                        assert(packet@ == n + chacha_seal(key, n, p));
                        assert(n =~= packet@.take(12));
                        assert(ciphertext@ =~= chacha_seal(key, n, p));
                    }
                }
                Ok(plaintext)
            },
            None => {
                proof {
                    assert forall|p: Seq<u8>| !is_encryption_of(key, blob@, p) by {
                        if is_encryption_of(key, blob@, p) {
                            let n = choose|n: Seq<u8>|
                                n.len() == 12 && blob@ == base64_of(
                                    n + chacha_seal(key, n, p),
                                );
                            assert(packet@ == n + chacha_seal(key, n, p));
                            assert(n =~= packet@.take(12));
                            assert(ciphertext@ =~= chacha_seal(key, n, p));
                        }
                    }
                }
                Err(CipherError::AuthenticationFailed)
            },
        }
    }

    /// Encrypts a text payload: the UTF-8 bytes of `plaintext` are sealed
    /// under the node key with a fresh nonce and rendered as base64.
    pub fn encrypt_data(&self, plaintext: String) -> (r: Result<String, CipherError>)
        requires
            self.wf(),
        ensures
            r matches Ok(blob) ==> is_encryption_of(
                self.spec_key(),
                blob@,
                encode_utf8(plaintext@),
            ),
            r matches Err(e) ==> e == CipherError::EncryptionFailed,
    {
        self.encrypt_bytes(plaintext.as_str().as_bytes())
    }

    /// Decrypts a base64 record back to text. Any record produced by
    /// [`Self::encrypt_data`] under the same key decrypts to the original
    /// plaintext; every failure is classified and nothing about the payload
    /// is disclosed beyond the classified kind. A record that is tampered
    /// with so that it no longer authenticates is answered
    /// `AuthenticationFailed`, exactly; `CorruptData` means exactly a
    /// decoded record shorter than one nonce; a record that authenticates
    /// but whose payload is not valid UTF-8 text is answered `InvalidUtf8`.
    /// [`Self::decrypt_bytes`] is the byte-level surface, to which the last
    /// kind cannot happen.
    pub fn decrypt_data(&self, blob: &str) -> (r: Result<String, CipherError>)
        requires
            self.wf(),
        ensures
            forall|p: Seq<char>|
                is_encryption_of(self.spec_key(), blob@, encode_utf8(p)) ==> (r matches Ok(s)
                    && s@ == p),
            r == Err::<String, CipherError>(CipherError::InvalidEncoding) <==> !is_base64(blob@),
            r == Err::<String, CipherError>(CipherError::CorruptData) <==> is_base64(blob@)
                && base64_bytes_of(blob@).len() < 12,
            r == Err::<String, CipherError>(CipherError::AuthenticationFailed) <==> is_base64(
                blob@,
            ) && base64_bytes_of(blob@).len() >= 12 && !(exists|p: Seq<u8>|
                base64_bytes_of(blob@).skip(12) == chacha_seal(
                    self.spec_key(),
                    base64_bytes_of(blob@).take(12),
                    p,
                )),
            r == Err::<String, CipherError>(CipherError::InvalidUtf8) <==> is_base64(blob@)
                && base64_bytes_of(blob@).len() >= 12 && (exists|p: Seq<u8>|
                base64_bytes_of(blob@).skip(12) == chacha_seal(
                    self.spec_key(),
                    base64_bytes_of(blob@).take(12),
                    p,
                ) && !valid_utf8(p)),
            r matches Ok(s) ==> is_base64(blob@) && base64_bytes_of(blob@).len() >= 12
                && base64_bytes_of(blob@).skip(12) == chacha_seal(
                self.spec_key(),
                base64_bytes_of(blob@).take(12),
                encode_utf8(s@),
            ) && (forall|p2: Seq<u8>|
                base64_bytes_of(blob@).skip(12) == chacha_seal(
                    self.spec_key(),
                    base64_bytes_of(blob@).take(12),
                    p2,
                ) ==> encode_utf8(s@) == p2),
            r matches Err(e) ==> e != CipherError::EncryptionFailed,
    {
        let ghost key = self.spec_key();
        let bytes = match self.decrypt_bytes(blob) {
            Ok(b) => b,
            Err(e) => {
                proof {
                    assert forall|p: Seq<char>| !is_encryption_of(key, blob@, encode_utf8(p)) by {
                    }
                    if is_base64(blob@) && base64_bytes_of(blob@).len() >= 12 && (
                    exists|p: Seq<u8>|
                        base64_bytes_of(blob@).skip(12) == chacha_seal(
                            key,
                            base64_bytes_of(blob@).take(12),
                            p,
                        )) {
                        assert(e != CipherError::InvalidEncoding);
                        assert(e != CipherError::CorruptData);
                        assert(e != CipherError::AuthenticationFailed);
                        assert(false);
                    }
                }
                return Err(e);
            },
        };
        let ghost pt = bytes@;
        match string_from_utf8(bytes) {
            Some(text) => {
                proof {
                    decode_utf8_encode_utf8(pt);
                    assert forall|p: Seq<char>|
                        is_encryption_of(key, blob@, encode_utf8(p)) implies text@ == p by {
                        encode_utf8_decode_utf8(p);
                    }
                    assert forall|p2: Seq<u8>|
                        base64_bytes_of(blob@).skip(12) == chacha_seal(
                            key,
                            base64_bytes_of(blob@).take(12),
                            p2,
                        ) implies encode_utf8(text@) == p2 && valid_utf8(p2) by {
                        assert(pt == p2);
                    }
                }
                Ok(text)
            },
            None => {
                proof {
                    assert forall|p: Seq<char>| !is_encryption_of(key, blob@, encode_utf8(p)) by {
                        if is_encryption_of(key, blob@, encode_utf8(p)) {
                            encode_utf8_valid_utf8(p);
                        }
                    }
                    assert(base64_bytes_of(blob@).skip(12) == chacha_seal(
                        key,
                        base64_bytes_of(blob@).take(12),
                        pt,
                    ) && !valid_utf8(pt));
                }
                Err(CipherError::InvalidUtf8)
            },
        }
    }
}

} // verus!
