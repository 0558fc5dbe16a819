use base64::Engine;
use std::collections::HashSet;

use proxy_core::cipher::NodeHardware;
use proxy_core::errors::CipherError;
use proxy_core::keys::derive_node_key;

#[test]
fn round_trip_returns_original_plaintext() {
    let node = NodeHardware::new();
    let blob = node
        .encrypt_data("hold the payment until delivery".to_string())
        .unwrap();
    assert_eq!(
        node.decrypt_data(&blob).unwrap(),
        "hold the payment until delivery"
    );
}

#[test]
fn round_trip_empty_plaintext() {
    let node = NodeHardware::new();
    let blob = node.encrypt_data(String::new()).unwrap();
    assert_eq!(node.decrypt_data(&blob).unwrap(), "");
}

#[test]
fn round_trip_unicode_plaintext() {
    let node = NodeHardware::new();
    let blob = node.encrypt_data("zahlé £ → ¥ 秘密".to_string()).unwrap();
    assert_eq!(node.decrypt_data(&blob).unwrap(), "zahlé £ → ¥ 秘密");
}

#[test]
fn wire_format_is_nonce_ciphertext_tag() {
    let node = NodeHardware::new();
    let blob = node.encrypt_data("abc".to_string()).unwrap();
    let packet = base64::engine::general_purpose::STANDARD
        .decode(&blob)
        .unwrap();
    assert_eq!(packet.len(), 12 + 3 + 16);
}

#[test]
fn tampering_any_single_bit_fails_authentication() {
    let node = NodeHardware::new();
    let blob = node.encrypt_data("abc".to_string()).unwrap();
    let packet = base64::engine::general_purpose::STANDARD
        .decode(&blob)
        .unwrap();
    for byte in 12..packet.len() {
        for bit in 0..8 {
            let mut tampered = packet.clone();
            tampered[byte] ^= 1u8 << bit;
            let tampered_blob = base64::engine::general_purpose::STANDARD.encode(&tampered);
            assert_eq!(
                node.decrypt_data(&tampered_blob),
                Err(CipherError::AuthenticationFailed)
            );
        }
    }
}

#[test]
fn tampering_the_nonce_fails_authentication() {
    let node = NodeHardware::new();
    let blob = node.encrypt_data("abc".to_string()).unwrap();
    let mut packet = base64::engine::general_purpose::STANDARD
        .decode(&blob)
        .unwrap();
    packet[0] ^= 0x01;
    let tampered_blob = base64::engine::general_purpose::STANDARD.encode(&packet);
    assert_eq!(
        node.decrypt_data(&tampered_blob),
        Err(CipherError::AuthenticationFailed)
    );
}

#[test]
fn wrong_key_fails_authentication() {
    let node = NodeHardware::from_fingerprint("node-a".to_string());
    let other = NodeHardware::from_fingerprint("node-b".to_string());
    let blob = node.encrypt_data("for node a only".to_string()).unwrap();
    assert_eq!(
        other.decrypt_data(&blob),
        Err(CipherError::AuthenticationFailed)
    );
}

#[test]
fn malformed_base64_is_invalid_encoding() {
    let node = NodeHardware::new();
    assert_eq!(
        node.decrypt_data("this is not base64!!!"),
        Err(CipherError::InvalidEncoding)
    );
}

#[test]
fn record_shorter_than_a_nonce_is_corrupt() {
    let node = NodeHardware::new();
    let blob = base64::engine::general_purpose::STANDARD.encode([0u8; 5]);
    assert_eq!(node.decrypt_data(&blob), Err(CipherError::CorruptData));
}

#[test]
fn authentic_non_text_payload_is_invalid_utf8_as_text_but_readable_as_bytes() {
    let node = NodeHardware::new();
    let blob = node.encrypt_bytes(&[0xff, 0xfe, 0x00]).unwrap();
    assert_eq!(node.decrypt_bytes(&blob).unwrap(), vec![0xff, 0xfe, 0x00]);
    assert_eq!(node.decrypt_data(&blob), Err(CipherError::InvalidUtf8));
}

#[test]
fn empty_blob_is_corrupt_not_invalid() {
    let node = NodeHardware::new();
    assert_eq!(node.decrypt_data(""), Err(CipherError::CorruptData));
}

#[test]
fn repeated_encryption_of_the_same_plaintext_differs() {
    let node = NodeHardware::new();
    let first = node.encrypt_data("same plaintext".to_string()).unwrap();
    let second = node.encrypt_data("same plaintext".to_string()).unwrap();
    assert_ne!(first, second);
}

#[test]
fn nonces_are_unique_across_many_encryptions() {
    let node = NodeHardware::new();
    let mut nonces = HashSet::new();
    for _ in 0..2000 {
        let blob = node.encrypt_data("same plaintext".to_string()).unwrap();
        let packet = base64::engine::general_purpose::STANDARD
            .decode(&blob)
            .unwrap();
        assert!(nonces.insert(packet[..12].to_vec()));
    }
    assert_eq!(nonces.len(), 2000);
}

#[test]
fn derived_key_is_deterministic_and_domain_separated() {
    let first = derive_node_key("MOCK_FINGERPRINT_DEV_001");
    let second = derive_node_key("MOCK_FINGERPRINT_DEV_001");
    assert_eq!(first, second);
    assert_eq!(first.len(), 32);
    let mut material = b"node-key-derivation:v1".to_vec();
    material.extend_from_slice(b"MOCK_FINGERPRINT_DEV_001");
    let expected = <sha2::Sha256 as sha2::Digest>::digest(&material).to_vec();
    assert_eq!(first, expected);
    assert_ne!(first, derive_node_key("other fingerprint"));
}

#[test]
fn fingerprint_is_reported_back() {
    let node = NodeHardware::new();
    assert_eq!(node.get_fingerprint(), "MOCK_FINGERPRINT_DEV_001");
}

#[test]
fn cipher_error_messages_are_fixed_labels() {
    assert_eq!(CipherError::InvalidEncoding.message(), "invalid encoding");
    assert_eq!(CipherError::CorruptData.message(), "corrupt data");
    assert_eq!(
        CipherError::AuthenticationFailed.message(),
        "authentication failed"
    );
    assert_eq!(CipherError::InvalidUtf8.message(), "invalid utf-8");
    assert_eq!(CipherError::EncryptionFailed.message(), "encryption failed");
}
