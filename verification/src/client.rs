//! The client's side of a command: the packet it sends, and what it makes of the
//! server's reply.
use vstd::prelude::*;
use vstd::utf8::{decode_utf8, encode_utf8, valid_utf8};
use crate::crypto::primitives::{
    aes_gcm_max_plaintext, base64_error_text, spec_base64_decode, spec_base64_error_text,
};
use crate::crypto::security::{
    Security, SecurityError, accepted_message, bytes_result, opened_message, security_error_message,
};
use crate::text::{concat, strings_view};

verus! {

broadcast use vstd::string::group_string_axioms;

/// The outcome of a reply whose `success` field is `success` and whose `message` field
/// is `message`: the reply's text when it succeeded; its message, or a fixed one, when
/// it failed; a format complaint when it says neither.
pub open spec fn reply_result(
    response: Seq<char>,
    success: Option<bool>,
    message: Option<Seq<char>>,
) -> Result<Seq<char>, Seq<char>> {
    match success {
        Some(true) => Ok(response),
        Some(false) => Err(
            match message {
                Some(m) => m,
                None => "操作失败（无详细信息）"@,
            },
        ),
        None => Err("响应格式错误"@),
    }
}

/// The outcome of a reply, from its text and the `success` and `message` fields read
/// from it (each absent when missing or of another kind).
pub fn reply_outcome(response: String, success: Option<bool>, message: Option<String>) -> (r: Result<
    String,
    String,
>)
    ensures
        match (r, reply_result(response@, success, match message {
            Some(m) => Some(m@),
            None => None,
        })) {
            (Ok(a), Ok(b)) => a@ == b,
            (Err(a), Err(b)) => a@ == b,
            _ => false,
        },
{
    match success {
        Some(true) => Ok(response),
        Some(false) => match message {
            Some(m) => Err(m),
            None => Err("操作失败（无详细信息）".to_string()),
        },
        None => Err("响应格式错误".to_string()),
    }
}

/// The JSON text of a command: an object whose `action` is the action and whose
/// `params` is the list of parameters (`serde_json::Value::to_string`).
pub uninterp spec fn spec_command_text(action: Seq<char>, params: Seq<Seq<char>>) -> Seq<char>;

/// The JSON text of a command.
///
/// Trusted: builds the `serde_json::Value` object `{"action": action, "params": params}`
/// and renders it with `to_string`. Its result is named by [`spec_command_text`].
#[verifier::external_body]
fn command_text(action: &str, params: &[String]) -> (r: String)
    ensures
        r@ == spec_command_text(action@, strings_view(params@)),
{
    let mut object = serde_json::Map::new();
    object.insert("action".to_string(), serde_json::Value::from(action));
    object.insert("params".to_string(), serde_json::Value::from(params.to_vec()));
    serde_json::Value::Object(object).to_string()
}

/// What reading a text as JSON gives: the `success` field when it is a boolean and the
/// `message` field when it is a string; or the parser's description of the error.
pub uninterp spec fn spec_reply_fields(text: Seq<char>) -> Result<
    (Option<bool>, Option<Seq<char>>),
    Seq<char>,
>;

/// The contents of the fields read from a reply.
pub open spec fn fields_view(r: Result<(Option<bool>, Option<String>), String>) -> Result<
    (Option<bool>, Option<Seq<char>>),
    Seq<char>,
> {
    match r {
        Ok((success, message)) => Ok(
            (
                success,
                match message {
                    Some(m) => Some(m@),
                    None => None,
                },
            ),
        ),
        Err(d) => Err(d@),
    }
}

/// The `success` and `message` fields of a JSON text.
///
/// Trusted: `serde_json::from_str::<serde_json::Value>`, then `get` with `as_bool` and
/// `as_str` on the two fields, and `to_string` of a parse error. Its result is named by
/// [`spec_reply_fields`].
#[verifier::external_body]
fn reply_fields(text: &str) -> (r: Result<(Option<bool>, Option<String>), String>)
    ensures
        fields_view(r) == spec_reply_fields(text@),
{
    match serde_json::from_str::<serde_json::Value>(text) {
        Ok(v) => Ok((
            v.get("success").and_then(serde_json::Value::as_bool),
            v.get("message").and_then(serde_json::Value::as_str).map(str::to_string),
        )),
        Err(e) => Err(e.to_string()),
    }
}

/// The text `String::from_utf8` gives as the reason why `bytes` are not UTF-8.
pub uninterp spec fn spec_utf8_error_text(bytes: Seq<u8>) -> Seq<char>;

/// The text that `bytes` encode in UTF-8.
///
/// Trusted: `String::from_utf8`, which accepts exactly the UTF-8 encodings and then
/// holds the characters they encode; the reason of a refusal (its `to_string`) is named
/// by [`spec_utf8_error_text`].
#[verifier::external_body]
pub(crate) fn utf8_text(bytes: Vec<u8>) -> (r: Result<String, String>)
    ensures
        r is Ok <==> valid_utf8(bytes@),
        r matches Ok(s) ==> s@ == decode_utf8(bytes@),
        r matches Err(t) ==> t@ == spec_utf8_error_text(bytes@),
{
    match String::from_utf8(bytes) {
        Ok(s) => Ok(s),
        Err(e) => Err(e.to_string()),
    }
}

/// The contents of a result that carries text.
pub open spec fn text_result(r: Result<String, String>) -> Result<Seq<char>, Seq<char>> {
    match r {
        Ok(a) => Ok(a@),
        Err(b) => Err(b@),
    }
}

/// What the client makes of the opened bytes of a reply: they must be UTF-8 text that
/// reads as JSON, and then its fields decide.
pub open spec fn reply_of_bytes(b: Seq<u8>) -> Result<Seq<char>, Seq<char>> {
    if !valid_utf8(b) {
        Err("响应不是有效的UTF-8: "@ + spec_utf8_error_text(b))
    } else {
        let text = decode_utf8(b);
        match spec_reply_fields(text) {
            Err(d) => Err("解析响应失败: "@ + d),
            Ok((success, message)) => reply_result(text, success, message),
        }
    }
}

/// How the client reports that the reply packet `text` could not be opened: a packet
/// that is not Base64 with the decoder's own words, any other failure with its message.
pub open spec fn decryption_failure(e: SecurityError, text: Seq<char>) -> Seq<char> {
    "解密响应失败: "@ + if e == SecurityError::Base64Decode {
        spec_base64_error_text(text)
    } else {
        security_error_message(e)
    }
}

/// What the client makes of the reply packet `text`, given what opening it gave.
pub open spec fn reply_of_packet(opened: Result<Seq<u8>, SecurityError>, text: Seq<char>) -> Result<
    Seq<char>,
    Seq<char>,
> {
    match opened {
        Err(e) => Err(decryption_failure(e, text)),
        Ok(b) => reply_of_bytes(b),
    }
}

/// How the client reports that the reply packet `reply` could not be opened.
fn decryption_failure_text(e: SecurityError, reply: &str) -> (r: String)
    requires
        e == SecurityError::Base64Decode ==> spec_base64_decode(reply@) is None,
    ensures
        r@ == decryption_failure(e, reply@),
{
    if e == SecurityError::Base64Decode {
        concat("解密响应失败: ", base64_error_text(reply).as_str())
    } else {
        concat("解密响应失败: ", e.message())
    }
}

/// What the client makes of the opened bytes of a reply.
pub fn reply_from_bytes(bytes: Vec<u8>) -> (r: Result<String, String>)
    ensures
        text_result(r) == reply_of_bytes(bytes@),
{
    let text = match utf8_text(bytes) {
        Ok(t) => t,
        Err(e) => return Err(concat("响应不是有效的UTF-8: ", e.as_str())),
    };
    let (success, message) = match reply_fields(text.as_str()) {
        Ok(f) => f,
        Err(d) => return Err(concat("解析响应失败: ", d.as_str())),
    };
    reply_outcome(text, success, message)
}

/// What the client makes of a reply packet received at `now`.
pub fn read_reply(security: &Security, reply: &str, now: i64) -> (r: Result<String, String>)
    ensures
        text_result(r) == reply_of_packet(
            accepted_message(security.key(), security.window(), reply@, now),
            reply@,
        ),
{
    match security.decrypt_message_at(reply, now) {
        Ok(bytes) => reply_from_bytes(bytes),
        Err(e) => Err(decryption_failure_text(e, reply)),
    }
}

/// What the client makes of a reply packet received now: as [`read_reply`] at the time
/// the clock reads, unless the clock is set before the Unix epoch.
pub fn receive_reply(security: &Security, reply: &str) -> (r: Result<String, String>)
    ensures
        match opened_message(security.key(), reply@) {
            Err(e) => text_result(r) == Err::<Seq<char>, Seq<char>>(decryption_failure(e, reply@)),
            Ok(_) => text_result(r) == Err::<Seq<char>, Seq<char>>(
                decryption_failure(SecurityError::Clock, reply@),
            ) || exists|now: i64|
                text_result(r) == reply_of_packet(
                    #[trigger] accepted_message(security.key(), security.window(), reply@, now),
                    reply@,
                ),
        },
{
    let d = security.decrypt_message(reply);
    let ghost opened = opened_message(security.key(), reply@);
    let ghost dv = bytes_result(d);
    let r = match d {
        Ok(bytes) => reply_from_bytes(bytes),
        Err(e) => Err(decryption_failure_text(e, reply)),
    };
    proof {
        if opened is Ok && dv != Err::<Seq<u8>, SecurityError>(SecurityError::Clock) {
            let now = choose|now: i64|
                #[trigger] accepted_message(security.key(), security.window(), reply@, now) == dv;
            assert(text_result(r) == reply_of_packet(
                accepted_message(security.key(), security.window(), reply@, now),
                reply@,
            ));
        }
    }
    r
}

/// The packet text a client sends for a command: the command's JSON text, sealed with
/// the current time. A failure to seal is reported in words.
pub fn command_packet(security: &Security, action: &str, params: &[String]) -> (r: Result<
    String,
    String,
>)
    ensures
        r matches Ok(s) ==> exists|ts: i64| #[trigger]
            opened_message(security.key(), s@) == Ok::<(i64, Seq<u8>), SecurityError>(
                (ts, encode_utf8(spec_command_text(action@, strings_view(params@)))),
            ),
        r matches Err(m) ==> m@ == "加密失败: "@ + security_error_message(SecurityError::Clock) || (m@
            == "加密失败: "@ + security_error_message(SecurityError::Encryption) && encode_utf8(
            spec_command_text(action@, strings_view(params@)),
        ).len() + 8 > aes_gcm_max_plaintext()),
{
    let text = command_text(action, params);
    match security.encrypt_message(text.as_str().as_bytes()) {
        Ok(packet) => Ok(packet),
        Err(e) => Err(concat("加密失败: ", e.message())),
    }
}

} // verus!
