use udp_knock::crypto::security::SecurityError;
use udp_knock::crypto::CryptoError;
use udp_knock::client::reply_outcome;
use udp_knock::crypto::derive_key;
use udp_knock::error::AppError;
use udp_knock::protocol::{Request, Response};

#[test]
fn app_error_texts() {
    assert_eq!(AppError::Crypto("c".to_string()).message(), "Crypto error: c");
    assert_eq!(AppError::Protocol("p".to_string()).message(), "Protocol error: p");
    assert_eq!(AppError::Firewall("f".to_string()).message(), "Firewall error: f");
    assert_eq!(AppError::Config("g".to_string()).message(), "Config error: g");
    assert_eq!(AppError::Io("i".to_string()).message(), "IO error: i");
    assert_eq!(AppError::Timeout.message(), "Timeout");
}

#[test]
fn responses() {
    let r = Response::ok("fine".to_string());
    assert!(r.success && r.message == "fine" && r.data.is_none());
    let r = Response::err("bad".to_string());
    assert!(!r.success && r.message == "bad");
    let data = serde_json::Value::Bool(true);
    let r = Response::ok_with_data("with".to_string(), data.clone());
    assert_eq!(r.data, Some(data));
    let q = Request::Enable { name: "ssh".to_string() };
    assert!(matches!(q, Request::Enable { .. }));
}

#[test]
fn reply_outcomes() {
    assert_eq!(reply_outcome("{}".to_string(), Some(true), None), Ok("{}".to_string()));
    assert_eq!(reply_outcome("{}".to_string(), Some(false), Some("denied".to_string())), Err("denied".to_string()));
    assert_eq!(reply_outcome("{}".to_string(), Some(false), None), Err("操作失败（无详细信息）".to_string()));
    assert_eq!(reply_outcome("{}".to_string(), None, None), Err("响应格式错误".to_string()));
}

#[test]
fn derived_keys_use_fresh_salts() {
    let a = derive_key("shared", 1);
    let b = derive_key("shared", 1);
    assert_eq!(a.len(), 32);
    assert_ne!(a, b);
}

#[test]
fn packet_error_texts() {
    assert_eq!(CryptoError::HmacMismatch.message(), "HMAC verification failed");
    assert_eq!(CryptoError::TimestampExpired.message(), "Timestamp window expired");
    assert_eq!(SecurityError::PacketTooSmall.message(), "数据包太小");
    assert_eq!(SecurityError::TimestampOutOfWindow.message(), "时间戳超出允许窗口");
}
