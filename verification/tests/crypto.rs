use base64::Engine;
use udp_knock::crypto::{CryptoError, CryptoManager};

const BASE64: base64::engine::GeneralPurpose = base64::engine::general_purpose::STANDARD;

#[test]
fn test_encrypt_decrypt_success() {
    let crypto = CryptoManager::new("secret_key_123");
    let payload = b"Hello UDP Knock";

    let encrypted = crypto.encrypt(payload).expect("Encryption failed");
    let decrypted = crypto.decrypt(&encrypted).expect("Decryption failed");

    assert_eq!(payload.to_vec(), decrypted);
}

#[test]
fn test_tampered_ciphertext_fails() {
    let crypto = CryptoManager::new("secret_key_123");
    let payload = b"Sensitive Command";

    let encrypted = crypto.encrypt(payload).expect("Encryption failed");
    let mut raw = BASE64.decode(&encrypted).unwrap();
    let last_idx = raw.len() - 1;
    raw[last_idx] ^= 0xFF;
    let tampered = BASE64.encode(raw);

    assert_eq!(crypto.decrypt(&tampered), Err(CryptoError::HmacMismatch));
}

#[test]
fn test_wrong_key_fails() {
    let crypto1 = CryptoManager::new("secret_key_123");
    let crypto2 = CryptoManager::new("wrong_key_456");

    let encrypted = crypto1.encrypt(b"Secret").unwrap();
    assert!(crypto2.decrypt(&encrypted).is_err());
}

#[test]
fn test_timestamp_verification() {
    let now = CryptoManager::current_timestamp();
    assert!(CryptoManager::verify_timestamp(now, None).is_ok());
    assert!(CryptoManager::verify_timestamp(now - 10, None).is_ok());
    assert!(CryptoManager::verify_timestamp(now - 31, None).is_err());
    assert!(CryptoManager::verify_timestamp(now + 31, None).is_err());
}

#[test]
fn decrypt_errors_in_order() {
    let crypto = CryptoManager::new("k");
    assert_eq!(crypto.decrypt("***"), Err(CryptoError::Base64DecodeError));
    assert_eq!(crypto.decrypt(&BASE64.encode([0u8; 43])), Err(CryptoError::PacketTooShort));
    assert_eq!(crypto.decrypt(&BASE64.encode([0u8; 44])), Err(CryptoError::HmacMismatch));
}

#[test]
fn padded_packet_text_is_accepted() {
    let crypto = CryptoManager::new("k");
    let sealed = crypto.encrypt_with_nonce(b"list", &[7u8; 12]).unwrap();
    let padded = format!("  {}\n", sealed);
    assert_eq!(crypto.decrypt(&padded).unwrap(), b"list".to_vec());
    let again = crypto.encrypt_with_nonce(b"list", &[7u8; 12]).unwrap();
    assert_eq!(sealed, again);
}

#[test]
fn timestamp_window_edges() {
    assert!(CryptoManager::verify_timestamp_at(100, None, 130).is_ok());
    assert!(CryptoManager::verify_timestamp_at(130, None, 100).is_ok());
    assert_eq!(CryptoManager::verify_timestamp_at(131, None, 100), Err(CryptoError::TimestampExpired));
    assert_eq!(CryptoManager::verify_timestamp_at(100, None, 131), Err(CryptoError::TimestampExpired));
    assert!(CryptoManager::verify_timestamp_at(131, Some(31), 100).is_ok());
    assert_eq!(CryptoManager::verify_timestamp_at(0, Some(0), u64::MAX), Err(CryptoError::TimestampExpired));
}

#[test]
fn packets_hold_nonce_tag_ciphertext_and_gcm_tag() {
    let crypto = CryptoManager::new("length key");
    // 12 + 32 + 6 + 16 = 66 bytes, 88 Base64 characters.
    assert_eq!(crypto.encrypt(b"Secret").unwrap().len(), 88);
    // 60 bytes, 80 Base64 characters.
    assert_eq!(crypto.encrypt(b"").unwrap().len(), 80);
    assert_eq!(crypto.encrypt_with_nonce(b"Secret", &[7u8; 12]).unwrap().len(), 88);
}

#[test]
fn packets_open_with_white_space_around_them() {
    let sealer = CryptoManager::new("shared");
    let opener = CryptoManager::new("shared");
    let packet = sealer.encrypt(b"knock").unwrap();
    assert_eq!(opener.decrypt(&format!("  \t{}\r\n", packet)), Ok(b"knock".to_vec()));
    assert_eq!(opener.decrypt(&format!("\u{3000}{}\u{2003}", packet)), Ok(b"knock".to_vec()));
}

#[test]
fn timestamps_with_the_widest_window_always_pass() {
    assert_eq!(CryptoManager::verify_timestamp(0, Some(u64::MAX)), Ok(()));
    assert_eq!(CryptoManager::verify_timestamp(u64::MAX, Some(u64::MAX)), Ok(()));
    assert_eq!(CryptoManager::verify_timestamp(0, Some(5)), Err(CryptoError::TimestampExpired));
}
