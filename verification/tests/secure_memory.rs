use proxy_core::secure_memory::SecurePayload;

#[test]
fn read_sensitive_returns_the_stored_text() {
    let payload = SecurePayload::new("launch code 0000".to_string());
    assert_eq!(payload.read_sensitive(), "launch code 0000");
}

#[test]
fn read_sensitive_keeps_unicode_intact() {
    let payload = SecurePayload::new("clé secrète — 秘密".to_string());
    assert_eq!(payload.read_sensitive(), "clé secrète — 秘密");
}

#[test]
fn wipe_erases_the_content() {
    let mut payload = SecurePayload::new("ephemeral secret".to_string());
    payload.wipe();
    let after = payload.read_sensitive();
    assert_eq!(after, "");
    assert_ne!(after, "ephemeral secret");
}

#[test]
fn printable_representation_is_always_redacted() {
    let payload = SecurePayload::new("never print me".to_string());
    let label = payload.redacted();
    assert_eq!(label, "SecurePayload(***REDACTED***)");
    assert!(!label.contains("never print me"));
}
