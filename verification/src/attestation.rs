//! Attestation quotes: a provider proves a node's integrity by signing a
//! digest of its measured state composed with a caller-supplied nonce.
//!
//! Provider selection is an explicit, caller-visible choice: a provider
//! never falls back to simulation to mask unavailability, and the simulated
//! provider always reports that it is not hardware backed.

use vstd::prelude::*;
use vstd::string::StringExecFns;
use vstd::utf8::encode_utf8;

use crate::digest::{hex_of, sha256_digest, sha256_of};
use crate::encoding::{base64_encode, base64_of};
use crate::errors::AttestationError;

verus! {

/// A capability producing signed integrity quotes for a node. The nonce is
/// a non-empty string chosen by the remote verifier; the digest and the
/// signature are functions of the provider's measured state and the nonce
/// alone, so a quote is reproducible.
pub trait TpmProvider {
    /// The node identifier the provider reports.
    spec fn spec_node_id(&self) -> Seq<char>;

    /// Whether the underlying root of trust can be reached and will sign.
    /// An implementation folds its willingness to sign into this predicate,
    /// so that both failure kinds below stay reachable when it is false.
    spec fn spec_available(&self) -> bool;

    /// Whether quotes are backed by real hardware.
    spec fn spec_hardware_backed(&self) -> bool;

    /// The digest of the measured state composed with the nonce.
    spec fn spec_quote_hash(&self, nonce: Seq<char>) -> Seq<char>;

    /// The signature over that digest under the provider's attestation key.
    spec fn spec_quote_signature(&self, nonce: Seq<char>) -> Seq<char>;

    /// The tag naming which implementation produced a quote.
    spec fn spec_provider_tag(&self) -> Seq<char>;

    fn get_node_id(&self) -> (r: Result<String, AttestationError>)
        ensures
            self.spec_available() ==> r is Ok,
            r matches Ok(s) ==> s@ == self.spec_node_id(),
            r matches Err(e) ==> !self.spec_available() && e == AttestationError::Unavailable,
    ;

    /// Signs a quote for `nonce`. The error kind is the implementation's to
    /// pick: an unreachable root of trust surfaces as `Unavailable`, a
    /// reached root that refuses to sign as `SigningFailed`; neither is ever
    /// masked by a fallback.
    fn sign_quote(&self, nonce: &str) -> (r: Result<(String, String), AttestationError>)
        requires
            nonce@.len() > 0,
        ensures
            self.spec_available() ==> r is Ok,
            r matches Ok(q) ==> q.0@ == self.spec_quote_hash(nonce@) && q.1@
                == self.spec_quote_signature(nonce@),
            r matches Err(e) ==> !self.spec_available(),
    ;

    fn is_hardware_backed(&self) -> (r: bool)
        ensures
            r == self.spec_hardware_backed(),
    ;

    fn provider_tag(&self) -> (r: String)
        ensures
            r@ == self.spec_provider_tag(),
    ;
}

/// The measured-state composite the simulated provider digests for a nonce.
pub open spec fn mock_quote_input(nonce: Seq<char>) -> Seq<char> {
    "PCR0:SECURE|NONCE:"@ + nonce
}

/// The material the simulated provider signs: a fixed prefix over the hex
/// digest.
pub open spec fn mock_signature_input(nonce: Seq<char>) -> Seq<char> {
    "SIG_OF_"@ + hex_of(sha256_of(encode_utf8(mock_quote_input(nonce))))
}

/// A simulated provider for development: always reachable, never hardware
/// backed, and deterministic in the nonce.
pub struct MockTpm {
    simulated_key: String,
}

impl MockTpm {
    pub fn new() -> (r: MockTpm)
        ensures
            r.spec_node_id() == "0xSIMULATED_TPM_KEY_DEV_MODE_882"@,
            r.spec_available(),
            !r.spec_hardware_backed(),
    {
        MockTpm { simulated_key: ("0xSIMULATED_TPM_KEY_DEV_MODE_882").to_owned() }
    }
}

impl TpmProvider for MockTpm {
    closed spec fn spec_node_id(&self) -> Seq<char> {
        self.simulated_key@
    }

    open spec fn spec_available(&self) -> bool {
        true
    }

    open spec fn spec_hardware_backed(&self) -> bool {
        false
    }

    open spec fn spec_quote_hash(&self, nonce: Seq<char>) -> Seq<char> {
        hex_of(sha256_of(encode_utf8(mock_quote_input(nonce))))
    }

    open spec fn spec_quote_signature(&self, nonce: Seq<char>) -> Seq<char> {
        base64_of(encode_utf8(mock_signature_input(nonce)))
    }

    open spec fn spec_provider_tag(&self) -> Seq<char> {
        "RUST_MOCK_TPM"@
    }

    fn get_node_id(&self) -> (r: Result<String, AttestationError>) {
        Ok(self.simulated_key.clone())
    }

    fn sign_quote(&self, nonce: &str) -> (r: Result<(String, String), AttestationError>) {
        let mut composite = ("PCR0:SECURE|NONCE:").to_owned();
        composite.append(nonce);
        let pcr_hash = sha256_digest(composite.as_str().as_bytes());
        let mut signed = ("SIG_OF_").to_owned();
        signed.append(pcr_hash.as_str());
        let signature = base64_encode(signed.as_str().as_bytes());
        Ok((pcr_hash, signature))
    }

    fn is_hardware_backed(&self) -> (r: bool) {
        false
    }

    fn provider_tag(&self) -> (r: String) {
        ("RUST_MOCK_TPM").to_owned()
    }
}

/// A signed integrity quote; immutable once constructed.
pub struct AttestationQuote {
    pub node_id: String,
    pub timestamp: String,
    pub pcr_hash: String,
    pub signature: String,
    pub hardware_backed: bool,
    pub provider_tag: String,
}

/// Obtains a quote for `nonce` from `provider` and assembles the response.
/// The timestamp is supplied by the caller, who owns the clock. A provider
/// failure propagates unmodified; no partial quote is produced.
pub fn build_quote<P: TpmProvider>(provider: &P, nonce: &str, timestamp: String) -> (r: Result<
    AttestationQuote,
    AttestationError,
>)
    requires
        nonce@.len() > 0,
    ensures
        provider.spec_available() ==> r is Ok,
        r matches Ok(q) ==> q.node_id@ == provider.spec_node_id() && q.pcr_hash@
            == provider.spec_quote_hash(nonce@) && q.signature@ == provider.spec_quote_signature(
            nonce@,
        ) && q.hardware_backed == provider.spec_hardware_backed() && q.provider_tag@
            == provider.spec_provider_tag() && q.timestamp == timestamp,
        r matches Err(e) ==> !provider.spec_available(),
{
    let node_id = match provider.get_node_id() {
        Ok(s) => s,
        Err(e) => return Err(e),
    };
    let (pcr_hash, signature) = match provider.sign_quote(nonce) {
        Ok(q) => q,
        Err(e) => return Err(e),
    };
    let hardware_backed = provider.is_hardware_backed();
    let provider_tag = provider.provider_tag();
    Ok(
        AttestationQuote {
            node_id,
            timestamp,
            pcr_hash,
            signature,
            hardware_backed,
            provider_tag,
        },
    )
}

/// Determinism of quote signing: for a fixed provider (fixed measured
/// state) and a fixed nonce, any two digests the provider's contract admits
/// are the same digest, and likewise the signatures.
pub proof fn lemma_sign_quote_deterministic<P: TpmProvider>(
    provider: &P,
    nonce: Seq<char>,
    first: (Seq<char>, Seq<char>),
    second: (Seq<char>, Seq<char>),
)
    requires
        first.0 == provider.spec_quote_hash(nonce),
        first.1 == provider.spec_quote_signature(nonce),
        second.0 == provider.spec_quote_hash(nonce),
        second.1 == provider.spec_quote_signature(nonce),
    ensures
        first == second,
{
}

} // verus!
