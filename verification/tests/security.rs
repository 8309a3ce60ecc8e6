use udp_knock::crypto::security::SecurityError;
use udp_knock::crypto::Security;

#[test]
fn test_encrypt_decrypt() {
    let security = Security::new("test_key", 30, true);
    let command = b"test_command param1 param2";

    let encrypted = security.encrypt_message(command).unwrap();
    let decrypted = security.decrypt_message(&encrypted).unwrap();

    assert_eq!(command.to_vec(), decrypted);
}

#[test]
fn test_wrong_key() {
    let security1 = Security::new("key1", 30, true);
    let security2 = Security::new("key2", 30, true);
    let command = b"test";

    let encrypted = security1.encrypt_message(command).unwrap();
    let result = security2.decrypt_message(&encrypted);

    assert!(result.is_err());
}

#[test]
fn message_window() {
    let security = Security::new("k", 30, false);
    let packet = security.encrypt_message_at(b"status", &[1u8; 12], 1_000).unwrap();
    assert_eq!(security.decrypt_message_at(&packet, 1_030).unwrap(), b"status".to_vec());
    assert_eq!(security.decrypt_message_at(&packet, 970).unwrap(), b"status".to_vec());
    assert_eq!(security.decrypt_message_at(&packet, 1_031), Err(SecurityError::TimestampOutOfWindow));
    assert_eq!(security.decrypt_message_at(&packet, 969), Err(SecurityError::TimestampOutOfWindow));
    assert_eq!(security.decrypt_message_at("!!", 1_000), Err(SecurityError::Base64Decode));
}

#[test]
fn extreme_times_are_rejected_without_overflow() {
    let security = Security::new("k", 30, false);
    let packet = security.encrypt_message_at(b"x", &[2u8; 12], i64::MIN).unwrap();
    assert_eq!(security.decrypt_message_at(&packet, i64::MAX), Err(SecurityError::TimestampOutOfWindow));
}
