use base64::Engine;
use sha2::Digest;

use proxy_core::attestation::{build_quote, MockTpm, TpmProvider};
use proxy_core::digest::sha256_digest;
use proxy_core::errors::AttestationError;
use proxy_core::tpm_binding::{TpmBinding, TpmError};

#[test]
fn sign_quote_is_reproducible() {
    let provider = MockTpm::new();
    let first = provider.sign_quote("abc").unwrap();
    let second = provider.sign_quote("abc").unwrap();
    assert_eq!(first, second);
}

#[test]
fn sign_quote_digest_matches_recomputation() {
    let provider = MockTpm::new();
    let (pcr_hash, signature) = provider.sign_quote("abc").unwrap();
    let expected_hash = hex::encode(sha2::Sha256::digest(b"PCR0:SECURE|NONCE:abc"));
    assert_eq!(pcr_hash, expected_hash);
    let expected_signature = base64::engine::general_purpose::STANDARD
        .encode(format!("SIG_OF_{}", expected_hash));
    assert_eq!(signature, expected_signature);
}

#[test]
fn distinct_nonces_give_distinct_digests() {
    let provider = MockTpm::new();
    let (first, _) = provider.sign_quote("one").unwrap();
    let (second, _) = provider.sign_quote("two").unwrap();
    assert_ne!(first, second);
}

#[test]
fn mock_provider_is_never_hardware_backed() {
    let provider = MockTpm::new();
    assert!(!provider.is_hardware_backed());
}

#[test]
fn build_quote_assembles_the_response() {
    let provider = MockTpm::new();
    let quote = build_quote(&provider, "abc", "2026-01-01T00:00:00+00:00".to_string()).unwrap();
    assert_eq!(quote.node_id, "0xSIMULATED_TPM_KEY_DEV_MODE_882");
    assert_eq!(quote.timestamp, "2026-01-01T00:00:00+00:00");
    assert_eq!(
        quote.pcr_hash,
        hex::encode(sha2::Sha256::digest(b"PCR0:SECURE|NONCE:abc"))
    );
    assert!(!quote.hardware_backed);
    assert_eq!(quote.provider_tag, "RUST_MOCK_TPM");
}

#[test]
fn sha256_digest_matches_known_vector() {
    assert_eq!(
        sha256_digest(b"abc"),
        "ba7816bf8f01cfea414140de5dae2223b00361a396177a9cb410ff61f20015ad"
    );
    assert_eq!(
        sha256_digest(b""),
        "e3b0c44298fc1c149afbf4c8996fb92427ae41e4649b934ca495991b7852b855"
    );
}

#[test]
fn attestation_error_messages_are_fixed_labels() {
    assert_eq!(
        AttestationError::Unavailable.message(),
        "attestation unavailable"
    );
    assert_eq!(
        AttestationError::SigningFailed.message(),
        "attestation signing failed"
    );
}

#[test]
fn binding_reports_availability_and_fingerprint() {
    let binding = TpmBinding::new();
    assert!(binding.check_availability());
    assert_eq!(binding.get_node_fingerprint(), "MOCK_FINGERPRINT_DEV_001");
}

#[test]
fn binding_quote_wraps_the_nonce() {
    let binding = TpmBinding::new();
    assert_eq!(
        binding.generate_attestation_quote("abc"),
        "MOCK_QUOTE::abc_SIGNED"
    );
}

#[test]
fn tpm_error_messages_render_their_context() {
    assert_eq!(TpmError::HardwareNotFound.message(), "Hardware unavailable");
    assert_eq!(
        TpmError::ContextError("chip missing".to_string()).message(),
        "TPM Error: chip missing"
    );
}
