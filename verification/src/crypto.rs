//! Sealing and opening of knock packets, and the replay window.
//!
//! A packet is the Base64 text of `nonce (12 bytes) | tag (32 bytes) | ciphertext`, where
//! the ciphertext is the AES-256-GCM sealing of the plaintext and the tag is the
//! HMAC-SHA256 of `nonce | ciphertext`. The AES and HMAC keys are the SHA-256 digests of
//! the shared key followed by `:aes-key` and `:hmac-key`.
use vstd::prelude::*;
use vstd::utf8::encode_utf8;
use crate::crypto::primitives::{
    aes_gcm_max_plaintext, aes_gcm_open, aes_gcm_seal, base64_decode, base64_encode,
    fill_random_12, hmac_sha256, hmac_sha256_verify, is_base64_char, sha256, spec_aes_gcm_open,
    spec_aes_gcm_seal, spec_base64_decode, spec_base64_encode, spec_hmac_sha256, spec_sha256,
    unix_seconds,
};
use crate::text::{
    all_space, chars_of, is_space, lemma_trim_ignores_surrounding_space, lemma_trim_left_of_right_fixed,
    string_of, trim, trim_range,
};

pub mod primitives;
pub mod security;

pub use security::Security;

verus! {

broadcast use vstd::string::group_string_axioms;

/// Length of the nonce at the start of a packet.
pub const NONCE_LEN: usize = 12;

/// Length of the HMAC tag that follows the nonce.
pub const HMAC_LEN: usize = 32;

/// The replay window, in seconds, when none is given.
pub const REPLAY_WINDOW_SECS: u64 = 30;

/// Why a packet could not be sealed, opened or accepted.
#[derive(Debug, PartialEq, Eq, Structural, Clone, Copy)]
pub enum CryptoError {
    Base64DecodeError,
    PacketTooShort,
    HmacMismatch,
    DecryptionFailed,
    TimestampExpired,
    InvalidTimestamp,
}

/// The text that describes an error.
pub open spec fn crypto_error_message(e: CryptoError) -> Seq<char> {
    match e {
        CryptoError::Base64DecodeError => "Base64 decode error"@,
        CryptoError::PacketTooShort => "Packet payload too short"@,
        CryptoError::HmacMismatch => "HMAC verification failed"@,
        CryptoError::DecryptionFailed => "Decryption failed"@,
        CryptoError::TimestampExpired => "Timestamp window expired"@,
        CryptoError::InvalidTimestamp => "Invalid timestamp format"@,
    }
}

impl CryptoError {
    /// The text that describes the error.
    pub fn message(&self) -> (r: &'static str)
        ensures
            r@ == crypto_error_message(*self),
    {
        match self {
            CryptoError::Base64DecodeError => "Base64 decode error",
            CryptoError::PacketTooShort => "Packet payload too short",
            CryptoError::HmacMismatch => "HMAC verification failed",
            CryptoError::DecryptionFailed => "Decryption failed",
            CryptoError::TimestampExpired => "Timestamp window expired",
            CryptoError::InvalidTimestamp => "Invalid timestamp format",
        }
    }
}

/// A key derived from the shared key: SHA-256 of its UTF-8 bytes followed by a label.
pub open spec fn derived_key(shared_key: Seq<char>, label: Seq<char>) -> Seq<u8> {
    spec_sha256(encode_utf8(shared_key) + encode_utf8(label))
}

/// The bytes of a packet sealing `plaintext`: nonce, tag over nonce and ciphertext,
/// ciphertext.
pub open spec fn sealed_bytes(aes_key: Seq<u8>, hmac_key: Seq<u8>, nonce: Seq<u8>, plaintext: Seq<
    u8,
>) -> Seq<u8> {
    let c = spec_aes_gcm_seal(aes_key, nonce, plaintext);
    nonce + spec_hmac_sha256(hmac_key, nonce + c) + c
}

/// What opening the packet text `text` gives: the text is trimmed and Base64-decoded,
/// must hold at least a nonce and a tag, the tag must be the HMAC of nonce and
/// ciphertext, and the ciphertext must open under the AES key.
pub open spec fn opened_bytes(aes_key: Seq<u8>, hmac_key: Seq<u8>, text: Seq<char>) -> Result<
    Seq<u8>,
    CryptoError,
> {
    match spec_base64_decode(trim(text)) {
        None => Err(CryptoError::Base64DecodeError),
        Some(raw) => if raw.len() < 44 {
            Err(CryptoError::PacketTooShort)
        } else {
            let nonce = raw.subrange(0, 12);
            let tag = raw.subrange(12, 44);
            let c = raw.subrange(44, raw.len() as int);
            if tag != spec_hmac_sha256(hmac_key, nonce + c) {
                Err(CryptoError::HmacMismatch)
            } else {
                match spec_aes_gcm_open(aes_key, nonce, c) {
                    Some(p) => Ok(p),
                    None => Err(CryptoError::DecryptionFailed),
                }
            }
        },
    }
}

/// The distance between two instants in seconds, `u64::abs_diff`.
pub open spec fn seconds_apart(a: u64, b: u64) -> nat {
    if a >= b {
        (a - b) as nat
    } else {
        (b - a) as nat
    }
}

/// The window given, or [`REPLAY_WINDOW_SECS`] when none is.
pub open spec fn effective_window(w: Option<u64>) -> u64 {
    match w {
        Some(x) => x,
        None => REPLAY_WINDOW_SECS,
    }
}

/// A timestamp is accepted at `now` when it is at most `window` seconds away.
pub open spec fn within_window(ts: u64, now: u64, window: u64) -> bool {
    seconds_apart(now, ts) <= window
}

/// A new vector holding `v[lo..hi]`.
pub fn bytes_range(v: &[u8], lo: usize, hi: usize) -> (r: Vec<u8>)
    requires
        lo <= hi <= v@.len(),
    ensures
        r@ == v@.subrange(lo as int, hi as int),
{
    let mut r: Vec<u8> = Vec::new();
    let mut i = lo;
    while i < hi
        invariant
            lo <= i <= hi <= v@.len(),
            r@ == v@.subrange(lo as int, i as int),
        decreases hi - i,
    {
        r.push(v[i]);
        assert(v@.subrange(lo as int, i + 1) =~= v@.subrange(lo as int, i as int).push(v@[i as int]));
        i = i + 1;
    }
    r
}

/// Appends the bytes of `s` to `v`.
pub fn append_bytes(v: &mut Vec<u8>, s: &[u8])
    ensures
        final(v)@ == old(v)@ + s@,
{
    let mut i: usize = 0;
    while i < s.len()
        invariant
            i <= s@.len(),
            v@ == old(v)@ + s@.subrange(0, i as int),
        decreases s@.len() - i,
    {
        v.push(s[i]);
        assert(s@.subrange(0, i + 1) =~= s@.subrange(0, i as int).push(s@[i as int]));
        i = i + 1;
    }
    assert(s@.subrange(0, s@.len() as int) =~= s@);
}

/// A text made of Base64 characters is left unchanged by trimming.
pub proof fn lemma_base64_text_trimmed(s: Seq<char>)
    requires
        forall|i: int| 0 <= i < s.len() ==> is_base64_char(#[trigger] s[i]),
    ensures
        trim(s) == s,
{
    if s.len() > 0 {
        assert(is_base64_char(s[0]));
        assert(is_base64_char(s[s.len() - 1]));
        assert(!is_space(s[0]));
        assert(!is_space(s.last()));
    }
    lemma_trim_left_of_right_fixed(s);
}

/// White space around packet text does not change what opening it gives.
pub proof fn lemma_surrounding_space_is_ignored(
    aes_key: Seq<u8>,
    hmac_key: Seq<u8>,
    pre: Seq<char>,
    text: Seq<char>,
    post: Seq<char>,
)
    requires
        all_space(pre),
        all_space(post),
    ensures
        opened_bytes(aes_key, hmac_key, pre + text + post) == opened_bytes(aes_key, hmac_key, text),
{
    lemma_trim_ignores_surrounding_space(pre, text, post);
}

/// The keys that seal and open packets.
pub struct CryptoManager {
    aes_key: [u8; 32],
    hmac_key: [u8; 32],
}

impl CryptoManager {
    /// The AES-256-GCM key.
    pub closed spec fn aes_key(&self) -> Seq<u8> {
        self.aes_key@
    }

    /// The HMAC-SHA256 key.
    pub closed spec fn hmac_key(&self) -> Seq<u8> {
        self.hmac_key@
    }

    /// Derives both keys from the shared key.
    pub fn new(shared_key: &str) -> (r: Self)
        ensures
            r.aes_key() == derived_key(shared_key@, ":aes-key"@),
            r.hmac_key() == derived_key(shared_key@, ":hmac-key"@),
    {
        let mut aes_material: Vec<u8> = Vec::new();
        append_bytes(&mut aes_material, shared_key.as_bytes());
        append_bytes(&mut aes_material, ":aes-key".as_bytes());
        let aes_key = sha256(aes_material.as_slice());
        let mut hmac_material: Vec<u8> = Vec::new();
        append_bytes(&mut hmac_material, shared_key.as_bytes());
        append_bytes(&mut hmac_material, ":hmac-key".as_bytes());
        let hmac_key = sha256(hmac_material.as_slice());
        proof {
            assert(aes_material@ =~= encode_utf8(shared_key@) + encode_utf8(":aes-key"@));
            assert(hmac_material@ =~= encode_utf8(shared_key@) + encode_utf8(":hmac-key"@));
        }
        CryptoManager { aes_key, hmac_key }
    }

    /// Seals `plaintext` into packet text under a fresh random nonce.
    pub fn encrypt(&self, plaintext: &[u8]) -> (r: Result<String, CryptoError>)
        ensures
            r is Ok <==> plaintext@.len() <= aes_gcm_max_plaintext(),
            r matches Err(e) ==> e == CryptoError::DecryptionFailed,
            r matches Ok(s) ==> exists|nonce: Seq<u8>|
                nonce.len() == 12 && s@ == spec_base64_encode(
                    #[trigger] sealed_bytes(self.aes_key(), self.hmac_key(), nonce, plaintext@),
                ) && sealed_bytes(self.aes_key(), self.hmac_key(), nonce, plaintext@).len()
                    == plaintext@.len() + 60,
            r matches Ok(s) ==> opened_bytes(self.aes_key(), self.hmac_key(), s@) == Ok::<Seq<u8>, CryptoError>(plaintext@),
            r matches Ok(s) ==> forall|pre: Seq<char>, post: Seq<char>|
                all_space(pre) && all_space(post) ==> #[trigger] opened_bytes(
                    self.aes_key(),
                    self.hmac_key(),
                    pre + s@ + post,
                ) == Ok::<Seq<u8>, CryptoError>(plaintext@),
    {
        let nonce = fill_random_12();
        let r = self.encrypt_with_nonce(plaintext, &nonce);
        proof {
            if r is Ok {
                let s = r->Ok_0@;
                assert forall|pre: Seq<char>, post: Seq<char>|
                    all_space(pre) && all_space(post) implies #[trigger] opened_bytes(
                    self.aes_key(),
                    self.hmac_key(),
                    pre + s + post,
                ) == Ok::<Seq<u8>, CryptoError>(plaintext@) by {
                    lemma_surrounding_space_is_ignored(
                        self.aes_key(),
                        self.hmac_key(),
                        pre,
                        s,
                        post,
                    );
                }
            }
        }
        r
    }

    /// Seals `plaintext` into packet text under the given nonce.
    pub fn encrypt_with_nonce(&self, plaintext: &[u8], nonce: &[u8; 12]) -> (r: Result<
        String,
        CryptoError,
    >)
        ensures
            r is Ok <==> plaintext@.len() <= aes_gcm_max_plaintext(),
            r matches Err(e) ==> e == CryptoError::DecryptionFailed,
            r matches Ok(s) ==> s@ == spec_base64_encode(
                sealed_bytes(self.aes_key(), self.hmac_key(), nonce@, plaintext@),
            ),
            r matches Ok(s) ==> sealed_bytes(self.aes_key(), self.hmac_key(), nonce@, plaintext@).len()
                == plaintext@.len() + 60,
            r matches Ok(s) ==> opened_bytes(self.aes_key(), self.hmac_key(), s@) == Ok::<Seq<u8>, CryptoError>(plaintext@),
    {
        let ciphertext = match aes_gcm_seal(&self.aes_key, nonce, plaintext) {
            Ok(c) => c,
            Err(_) => return Err(CryptoError::DecryptionFailed),
        };
        let mut authenticated: Vec<u8> = Vec::new();
        append_bytes(&mut authenticated, nonce.as_slice());
        append_bytes(&mut authenticated, ciphertext.as_slice());
        let tag = hmac_sha256(self.hmac_key.as_slice(), authenticated.as_slice());
        let mut buffer: Vec<u8> = Vec::new();
        append_bytes(&mut buffer, nonce.as_slice());
        append_bytes(&mut buffer, tag.as_slice());
        append_bytes(&mut buffer, ciphertext.as_slice());
        let text = base64_encode(buffer.as_slice());
        proof {
            let b = buffer@;
            assert(b =~= sealed_bytes(self.aes_key(), self.hmac_key(), nonce@, plaintext@));
            lemma_base64_text_trimmed(text@);
            assert(b.subrange(0, 12) =~= nonce@);
            assert(b.subrange(12, 44) =~= tag@);
            assert(b.subrange(44, b.len() as int) =~= ciphertext@);
        }
        Ok(text)
    }

    /// Opens packet text into its plaintext, checking the tag before decrypting.
    pub fn decrypt(&self, base64_payload: &str) -> (r: Result<Vec<u8>, CryptoError>)
        ensures
            match r {
                Ok(p) => opened_bytes(self.aes_key(), self.hmac_key(), base64_payload@) == Ok::<
                    Seq<u8>,
                    CryptoError,
                >(p@),
                Err(e) => opened_bytes(self.aes_key(), self.hmac_key(), base64_payload@) == Err::<
                    Seq<u8>,
                    CryptoError,
                >(e),
            },
    {
        let chars = chars_of(base64_payload);
        assert(chars@.subrange(0, chars@.len() as int) =~= chars@);
        let (a, b) = trim_range(&chars, 0, chars.len());
        let trimmed = string_of(&chars, a, b);
        let raw = match base64_decode(trimmed.as_str()) {
            Ok(bytes) => bytes,
            Err(_) => return Err(CryptoError::Base64DecodeError),
        };
        if raw.len() < NONCE_LEN + HMAC_LEN {
            return Err(CryptoError::PacketTooShort);
        }
        let nonce = bytes_range(raw.as_slice(), 0, NONCE_LEN);
        let tag = bytes_range(raw.as_slice(), NONCE_LEN, NONCE_LEN + HMAC_LEN);
        let ciphertext = bytes_range(raw.as_slice(), NONCE_LEN + HMAC_LEN, raw.len());
        let mut authenticated: Vec<u8> = Vec::new();
        append_bytes(&mut authenticated, nonce.as_slice());
        append_bytes(&mut authenticated, ciphertext.as_slice());
        if !hmac_sha256_verify(self.hmac_key.as_slice(), authenticated.as_slice(), tag.as_slice()) {
            return Err(CryptoError::HmacMismatch);
        }
        match aes_gcm_open(&self.aes_key, nonce.as_slice(), ciphertext.as_slice()) {
            Ok(p) => Ok(p),
            Err(_) => Err(CryptoError::DecryptionFailed),
        }
    }

    /// The current Unix time in seconds; 0 when the clock is set before the epoch.
    pub fn current_timestamp() -> (r: u64) {
        match unix_seconds() {
            Some(s) => s,
            None => 0,
        }
    }

    /// Accepts a timestamp that is at most the window (30 seconds unless given) away
    /// from the current time.
    pub fn verify_timestamp(ts: u64, max_window_secs: Option<u64>) -> (r: Result<(), CryptoError>)
        ensures
            r matches Err(e) ==> e == CryptoError::TimestampExpired,
            exists|now: u64|
                (r is Ok <==> #[trigger] within_window(ts, now, effective_window(max_window_secs))),
            (forall|now: u64| #[trigger] within_window(ts, now, effective_window(max_window_secs)))
                ==> r is Ok,
    {
        let current = Self::current_timestamp();
        let r = Self::verify_timestamp_at(ts, max_window_secs, current);
        proof {
            assert(r is Ok <==> within_window(ts, current, effective_window(max_window_secs)));
        }
        r
    }

    /// Accepts a timestamp that is at most the window (30 seconds unless given) away
    /// from `now`.
    pub fn verify_timestamp_at(ts: u64, max_window_secs: Option<u64>, now: u64) -> (r: Result<
        (),
        CryptoError,
    >)
        ensures
            r is Ok <==> within_window(ts, now, effective_window(max_window_secs)),
            r matches Err(e) ==> e == CryptoError::TimestampExpired,
    {
        let window = match max_window_secs {
            Some(w) => w,
            None => REPLAY_WINDOW_SECS,
        };
        let diff = if now >= ts {
            now - ts
        } else {
            ts - now
        };
        if diff > window {
            Err(CryptoError::TimestampExpired)
        } else {
            Ok(())
        }
    }
}

/// A 32-byte key derived from the shared key with Argon2id (19456 KiB, one lane,
/// `iterations` passes) and a fresh random salt, which is not kept: each call gives the
/// hash under another salt.
pub fn derive_key(shared_key: &str, iterations: u32) -> (r: [u8; 32])
    requires
        iterations >= 1,
        vstd::utf8::encode_utf8(shared_key@).len() <= 0xFFFF_FFFF,
    ensures
        exists|salt: Seq<u8>|
            salt.len() == 22 && r@ == crate::crypto::primitives::spec_argon2id(
                vstd::utf8::encode_utf8(shared_key@),
                salt,
                19456,
                iterations,
                1,
            ),
{
    let salt = crate::crypto::primitives::random_salt();
    let secret = shared_key.as_bytes();
    crate::crypto::primitives::argon2id_hash(secret, salt.as_slice(), 19456, iterations, 1)
}

/// Only authentic packets open: a packet that opens decodes to a nonce, a tag and a
/// ciphertext whose tag is the HMAC of nonce and ciphertext under the HMAC key, and its
/// plaintext is what the ciphertext opens to under the AES key.
pub proof fn lemma_opened_packets_are_authentic(aes_key: Seq<u8>, hmac_key: Seq<u8>, text: Seq<char>)
    ensures
        opened_bytes(aes_key, hmac_key, text) matches Ok(p) ==> {
            &&& spec_base64_decode(trim(text)) matches Some(raw)
            &&& raw.len() >= 44
            &&& raw.subrange(12, 44) == spec_hmac_sha256(
                hmac_key,
                raw.subrange(0, 12) + raw.subrange(44, raw.len() as int),
            )
            &&& spec_aes_gcm_open(aes_key, raw.subrange(0, 12), raw.subrange(44, raw.len() as int))
                == Some(p)
        },
{
}

/// The replay window looks both ways: a timestamp `ts` is accepted at `now` exactly when
/// `now` would be accepted at `ts`.
pub proof fn lemma_window_is_symmetric(ts: u64, now: u64, window: u64)
    ensures
        within_window(ts, now, window) == within_window(now, ts, window),
{
}

} // verus!
