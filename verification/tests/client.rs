use base64::Engine;
use udp_knock::client::{command_packet, read_reply, receive_reply, reply_from_bytes};
use udp_knock::crypto::security::SecurityError;
use udp_knock::crypto::Security;

const NONCE: [u8; 12] = [3u8; 12];

#[test]
fn command_packets_carry_the_json_command() {
    let s = Security::new("client key", 30, false);
    let params = vec!["ssh".to_string(), "22".to_string()];
    let packet = command_packet(&s, "enable", &params).unwrap();
    let opened = s.decrypt_message(&packet).unwrap();
    assert_eq!(String::from_utf8(opened).unwrap(), r#"{"action":"enable","params":["ssh","22"]}"#);
    let none = command_packet(&s, "status", &[]).unwrap();
    assert_eq!(String::from_utf8(s.decrypt_message(&none).unwrap()).unwrap(), r#"{"action":"status","params":[]}"#);
}

#[test]
fn replies_are_read_by_their_fields() {
    let ok = r#"{"success":true,"message":"done"}"#;
    assert_eq!(reply_from_bytes(ok.as_bytes().to_vec()), Ok(ok.to_string()));
    assert_eq!(reply_from_bytes(br#"{"success":false,"message":"no such rule"}"#.to_vec()), Err("no such rule".to_string()));
    assert_eq!(reply_from_bytes(br#"{"success":false}"#.to_vec()), Err("操作失败（无详细信息）".to_string()));
    assert_eq!(reply_from_bytes(br#"{"success":"yes"}"#.to_vec()), Err("响应格式错误".to_string()));
    let parse_error = serde_json::from_str::<serde_json::Value>("not json").unwrap_err().to_string();
    assert_eq!(reply_from_bytes(b"not json".to_vec()), Err(format!("解析响应失败: {}", parse_error)));
    let utf8_error = String::from_utf8(vec![0xff, 0x41]).unwrap_err().to_string();
    assert_eq!(reply_from_bytes(vec![0xff, 0x41]), Err(format!("响应不是有效的UTF-8: {}", utf8_error)));
}

#[test]
fn reply_packets_are_opened_within_the_window() {
    let s = Security::new("client key", 30, false);
    let body = r#"{"success":true,"message":"ok","data":null}"#;
    let packet = s.encrypt_message_at(body.as_bytes(), &NONCE, 1_000).unwrap();
    assert_eq!(read_reply(&s, &packet, 1_030), Ok(body.to_string()));
    assert_eq!(read_reply(&s, &packet, 970), Ok(body.to_string()));
    assert_eq!(read_reply(&s, &packet, 1_031), Err("解密响应失败: 时间戳超出允许窗口".to_string()));
    let other = Security::new("other key", 30, false);
    assert_eq!(read_reply(&other, &packet, 1_000), Err("解密响应失败: HMAC验证失败".to_string()));
    let decode_error = base64::engine::general_purpose::STANDARD.decode("!!!!").unwrap_err().to_string();
    assert_eq!(read_reply(&s, "!!!!", 1_000), Err(format!("解密响应失败: {}", decode_error)));
    assert_eq!(receive_reply(&s, "!!!!"), Err(format!("解密响应失败: {}", decode_error)));
    assert_eq!(read_reply(&s, "AAAA", 1_000), Err("解密响应失败: 数据包太小".to_string()));
    let fresh = s.encrypt_message(body.as_bytes()).unwrap();
    assert_eq!(receive_reply(&s, &fresh), Ok(body.to_string()));
}

#[test]
fn opened_commands_are_judged_by_the_window() {
    let s = Security::new("k", 30, false);
    assert_eq!(s.accept_opened(1_000, vec![7], 1_030), Ok(vec![7]));
    assert_eq!(s.accept_opened(1_000, vec![7], 970), Ok(vec![7]));
    assert_eq!(s.accept_opened(1_000, vec![7], 1_031), Err(SecurityError::TimestampOutOfWindow));
    assert_eq!(s.accept_opened(1_000, vec![7], 969), Err(SecurityError::TimestampOutOfWindow));
    let packet = s.encrypt_message_at(b"cmd", &NONCE, 1_000).unwrap();
    assert_eq!(s.decrypt_message_at(&packet, 1_029), Ok(b"cmd".to_vec()));
    assert_eq!(s.decrypt_message(&packet), Err(SecurityError::TimestampOutOfWindow));
    assert_eq!(s.decrypt_message("!!!!"), Err(SecurityError::Base64Decode));
}
