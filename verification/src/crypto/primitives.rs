//! The cryptographic primitives, the clock and the random source that the packet
//! formats rest on. Each function here calls one outside function; its contract is
//! trusted and says no more than that function's source and documentation show.
use vstd::prelude::*;
use aes_gcm::aead::{Aead, KeyInit};
use base64::Engine;
use hmac::Mac;
use rand::RngCore;
use sha2::Digest;

verus! {

#[verifier::external_type_specification]
#[verifier::external_body]
pub struct ExAeadError(aes_gcm::Error);

#[verifier::external_type_specification]
#[verifier::external_body]
pub struct ExDecodeError(base64::DecodeError);

#[verifier::external_type_specification]
#[verifier::external_body]
pub struct ExSystemTime(std::time::SystemTime);

/// The SHA-256 digest of a byte string.
pub uninterp spec fn spec_sha256(data: Seq<u8>) -> Seq<u8>;

/// The HMAC-SHA256 tag of `msg` under `key`.
pub uninterp spec fn spec_hmac_sha256(key: Seq<u8>, msg: Seq<u8>) -> Seq<u8>;

/// The AES-256-GCM sealing (ciphertext followed by the 16-byte tag) of `plaintext`
/// under `key` and `nonce`, with no associated data.
pub uninterp spec fn spec_aes_gcm_seal(key: Seq<u8>, nonce: Seq<u8>, plaintext: Seq<u8>) -> Seq<u8>;

/// The AES-256-GCM opening of `sealed` under `key` and `nonce`, with no associated data:
/// the plaintext when the tag checks, nothing otherwise.
pub uninterp spec fn spec_aes_gcm_open(key: Seq<u8>, nonce: Seq<u8>, sealed: Seq<u8>) -> Option<
    Seq<u8>,
>;

/// The standard Base64 encoding (with `=` padding) of a byte string.
pub uninterp spec fn spec_base64_encode(data: Seq<u8>) -> Seq<char>;

/// The standard Base64 decoding (canonical, with `=` padding) of a text; nothing when
/// the text is not such an encoding.
pub uninterp spec fn spec_base64_decode(text: Seq<char>) -> Option<Seq<u8>>;

/// The largest plaintext, in bytes, that AES-GCM seals.
pub open spec fn aes_gcm_max_plaintext() -> nat {
    0x10_0000_0000
}

/// The characters of the standard Base64 alphabet and its padding.
pub open spec fn is_base64_char(c: char) -> bool {
    ('A' <= c && c <= 'Z') || ('a' <= c && c <= 'z') || ('0' <= c && c <= '9') || c == '+' || c
        == '/' || c == '='
}

/// SHA-256 of `data`.
///
/// Trusted: `sha2::Sha256::digest`. The digest is named by [`spec_sha256`]; the 32-byte
/// length is the type's.
#[verifier::external_body]
pub(crate) fn sha256(data: &[u8]) -> (r: [u8; 32])
    ensures
        r@ == spec_sha256(data@),
{
    sha2::Sha256::digest(data).into()
}

/// HMAC-SHA256 of `msg` under `key`.
///
/// Trusted: `hmac::Hmac::<Sha256>` keyed with `new_from_slice` (which takes keys of any
/// length), fed `msg` and finalized. The tag is named by [`spec_hmac_sha256`].
#[verifier::external_body]
pub(crate) fn hmac_sha256(key: &[u8], msg: &[u8]) -> (r: [u8; 32])
    ensures
        r@ == spec_hmac_sha256(key@, msg@),
{
    let mut mac = <hmac::Hmac<sha2::Sha256> as Mac>::new_from_slice(key).unwrap();
    mac.update(msg);
    mac.finalize().into_bytes().into()
}

/// Whether `tag` is the HMAC-SHA256 tag of `msg` under `key`.
///
/// Trusted: `Mac::verify_slice`, which refuses a tag whose length is not the 32-byte
/// output size and otherwise compares it with the computed tag in constant time.
#[verifier::external_body]
pub(crate) fn hmac_sha256_verify(key: &[u8], msg: &[u8], tag: &[u8]) -> (r: bool)
    ensures
        r == (tag@ == spec_hmac_sha256(key@, msg@)),
{
    let mut mac = <hmac::Hmac<sha2::Sha256> as Mac>::new_from_slice(key).unwrap();
    mac.update(msg);
    mac.verify_slice(tag).is_ok()
}

/// AES-256-GCM sealing of `plaintext`, with no associated data.
///
/// Trusted: `Aead::encrypt` of `aes_gcm::Aes256Gcm`, which fails exactly when the
/// plaintext is longer than 2^36 bytes, whose output is the ciphertext (as long as the
/// plaintext) followed by the 16-byte tag, and which the matching decryption opens back
/// into the plaintext (the correctness of the AEAD).
#[verifier::external_body]
pub(crate) fn aes_gcm_seal(key: &[u8; 32], nonce: &[u8; 12], plaintext: &[u8]) -> (r: Result<
    Vec<u8>,
    aes_gcm::Error,
>)
    ensures
        r is Ok <==> plaintext@.len() <= aes_gcm_max_plaintext(),
        r matches Ok(c) ==> c@.len() == plaintext@.len() + 16,
        r matches Ok(c) ==> c@ == spec_aes_gcm_seal(key@, nonce@, plaintext@) && spec_aes_gcm_open(
            key@,
            nonce@,
            c@,
        ) == Some(plaintext@),
{
    aes_gcm::Aes256Gcm::new(&(*key).into()).encrypt(aes_gcm::Nonce::from_slice(nonce), plaintext)
}

/// AES-256-GCM opening of `sealed`, with no associated data.
///
/// Trusted: `Aead::decrypt` of `aes_gcm::Aes256Gcm`. Its result is named by
/// [`spec_aes_gcm_open`].
#[verifier::external_body]
pub(crate) fn aes_gcm_open(key: &[u8; 32], nonce: &[u8], sealed: &[u8]) -> (r: Result<
    Vec<u8>,
    aes_gcm::Error,
>)
    requires
        nonce@.len() == 12,
    ensures
        match r {
            Ok(p) => spec_aes_gcm_open(key@, nonce@, sealed@) == Some(p@),
            Err(_) => spec_aes_gcm_open(key@, nonce@, sealed@) is None,
        },
{
    aes_gcm::Aes256Gcm::new(&(*key).into()).decrypt(aes_gcm::Nonce::from_slice(nonce), sealed)
}

/// Standard Base64 encoding.
///
/// Trusted: `base64::engine::general_purpose::STANDARD.encode`. The text is named by
/// [`spec_base64_encode`]; it is made of the standard alphabet and `=`, and the same
/// engine decodes it back into `data`.
#[verifier::external_body]
pub(crate) fn base64_encode(data: &[u8]) -> (r: String)
    ensures
        r@ == spec_base64_encode(data@),
        forall|i: int| 0 <= i < r@.len() ==> is_base64_char(#[trigger] r@[i]),
        spec_base64_decode(r@) == Some(data@),
{
    base64::engine::general_purpose::STANDARD.encode(data)
}

/// Standard Base64 decoding.
///
/// Trusted: `base64::engine::general_purpose::STANDARD.decode`. Its result is named by
/// [`spec_base64_decode`].
#[verifier::external_body]
pub(crate) fn base64_decode(text: &str) -> (r: Result<Vec<u8>, base64::DecodeError>)
    ensures
        match r {
            Ok(b) => spec_base64_decode(text@) == Some(b@),
            Err(_) => spec_base64_decode(text@) is None,
        },
{
    base64::engine::general_purpose::STANDARD.decode(text)
}

/// The description (`to_string`) of the error with which standard Base64 decoding
/// refuses `text`.
pub uninterp spec fn spec_base64_error_text(text: Seq<char>) -> Seq<char>;

/// Why standard Base64 decoding refuses `text`.
///
/// Trusted: `base64::engine::general_purpose::STANDARD.decode`, and `to_string` of the
/// `base64::DecodeError` it returns. Its result is named by [`spec_base64_error_text`].
#[verifier::external_body]
pub(crate) fn base64_error_text(text: &str) -> (r: String)
    requires
        spec_base64_decode(text@) is None,
    ensures
        r@ == spec_base64_error_text(text@),
{
    match base64::engine::general_purpose::STANDARD.decode(text) {
        Err(e) => e.to_string(),
        Ok(_) => String::new(),
    }
}

/// Twelve bytes from the thread-local generator.
///
/// Trusted: `RngCore::fill_bytes` of `rand::thread_rng()`. Nothing is stated of the bytes.
#[verifier::external_body]
pub(crate) fn fill_random_12() -> (r: [u8; 12]) {
    let mut bytes = [0u8; 12];
    rand::thread_rng().fill_bytes(&mut bytes);
    bytes
}

/// Twelve random bytes.
///
/// Trusted: `rand::random::<[u8; 12]>`. Nothing is stated of the bytes.
#[verifier::external_body]
pub(crate) fn random_12() -> (r: [u8; 12]) {
    rand::random::<[u8; 12]>()
}

/// The current time of the system clock.
///
/// Trusted: `std::time::SystemTime::now`. Nothing is stated of the value: it is the
/// time.
#[verifier::external_body]
fn system_now() -> (r: std::time::SystemTime) {
    std::time::SystemTime::now()
}

/// How long after the Unix epoch `t` lies, when it does not lie before it.
///
/// Trusted: `SystemTime::duration_since` with `UNIX_EPOCH`. Nothing is stated of the
/// value: it depends on `t`, which has no view here.
#[verifier::external_body]
fn since_epoch(t: &std::time::SystemTime) -> (r: Option<std::time::Duration>) {
    match t.duration_since(std::time::UNIX_EPOCH) {
        Ok(d) => Some(d),
        Err(_) => None,
    }
}

/// The whole seconds of a duration.
///
/// Trusted: `Duration::as_secs`. Nothing is stated of the value: a `Duration` has no
/// view here.
#[verifier::external_body]
fn whole_seconds(d: &std::time::Duration) -> (r: u64) {
    d.as_secs()
}

/// Whole seconds since the Unix epoch, when the clock is not set before it. Nothing is
/// stated of the value: it is the time.
pub(crate) fn unix_seconds() -> (r: Option<u64>) {
    let now = system_now();
    match since_epoch(&now) {
        Some(d) => Some(whole_seconds(&d)),
        None => None,
    }
}

/// The Argon2id (version 0x13) hash, 32 bytes long, of `secret` with `salt`, using
/// `m_cost` KiB of memory, `t_cost` passes and `p_cost` lanes.
pub uninterp spec fn spec_argon2id(
    secret: Seq<u8>,
    salt: Seq<u8>,
    m_cost: u32,
    t_cost: u32,
    p_cost: u32,
) -> Seq<u8>;

/// Argon2id of `secret` with `salt`, into 32 bytes.
///
/// Trusted: `argon2::ParamsBuilder` (with these costs and an output of 32 bytes) built,
/// then `Argon2::new(Algorithm::Argon2id, Version::V0x13, ..).hash_password_into`. The
/// `requires` holds exactly the bounds that `Params::new` and `verify_inputs` check, so
/// neither `unwrap` fails. The hash is named by [`spec_argon2id`].
#[verifier::external_body]
pub(crate) fn argon2id_hash(secret: &[u8], salt: &[u8], m_cost: u32, t_cost: u32, p_cost: u32) -> (r: [u8; 32])
    requires
        1 <= p_cost <= 0xFF_FFFF,
        m_cost >= 8 * p_cost,
        t_cost >= 1,
        secret@.len() <= 0xFFFF_FFFF,
        8 <= salt@.len() <= 0xFFFF_FFFF,
    ensures
        r@ == spec_argon2id(secret@, salt@, m_cost, t_cost, p_cost),
{
    let params = argon2::ParamsBuilder::new().p_cost(p_cost).m_cost(m_cost).t_cost(t_cost)
        .output_len(32).build().unwrap();
    let hasher = argon2::Argon2::new(argon2::Algorithm::Argon2id, argon2::Version::V0x13, params);
    let mut out = [0u8; 32];
    hasher.hash_password_into(secret, salt, &mut out).unwrap();
    out
}

/// A fresh random salt, as the bytes of its B64 text.
///
/// Trusted: `password_hash::SaltString::generate(&mut OsRng)`, read with `as_str`. The
/// source encodes 16 random bytes in unpadded B64, which gives 22 characters; nothing
/// else is stated of them.
#[verifier::external_body]
pub(crate) fn random_salt() -> (r: Vec<u8>)
    ensures
        r@.len() == 22,
{
    let salt = argon2::password_hash::SaltString::generate(&mut rand::rngs::OsRng);
    salt.as_str().as_bytes().to_vec()
}

} // verus!
