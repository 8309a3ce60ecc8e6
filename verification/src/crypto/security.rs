//! The timestamped packet format of [`Security`].
//!
//! A packet is the Base64 text of `nonce (12 bytes) | ciphertext | tag (32 bytes)`. The
//! ciphertext is the AES-256-GCM sealing of the 8-byte big-endian send time followed by
//! the command; the tag is the HMAC-SHA256 of `nonce | ciphertext`. One key, the SHA-256
//! digest of the shared key, serves both.
use vstd::prelude::*;
use vstd::utf8::encode_utf8;
use crate::crypto::{append_bytes, bytes_range};
use crate::crypto::primitives::{
    aes_gcm_max_plaintext, aes_gcm_open, aes_gcm_seal, base64_decode, base64_encode, hmac_sha256,
    hmac_sha256_verify, random_12, sha256, spec_aes_gcm_open, spec_aes_gcm_seal,
    spec_base64_decode, spec_base64_encode, spec_hmac_sha256, spec_sha256, unix_seconds,
};

verus! {

broadcast use vstd::string::group_string_axioms;

/// Why a command packet could not be sealed or accepted.
#[derive(Debug, PartialEq, Eq, Structural, Clone, Copy)]
pub enum SecurityError {
    /// The clock is set before the Unix epoch.
    Clock,
    /// The command is too long to seal.
    Encryption,
    /// The packet is not standard Base64.
    Base64Decode,
    /// The packet is shorter than a nonce and a tag.
    PacketTooSmall,
    /// The tag is not the HMAC of nonce and ciphertext.
    HmacMismatch,
    /// The ciphertext does not open under the key.
    Decryption,
    /// The plaintext is shorter than a timestamp.
    PlaintextMalformed,
    /// The send time is farther from now than the window allows.
    TimestampOutOfWindow,
}

/// The text that describes an error: the words of the failing step. A packet that is
/// not Base64 is described in general words here; the decoder's own words depend on the
/// text, and the client reports them (`crate::client::decryption_failure`).
pub open spec fn security_error_message(e: SecurityError) -> Seq<char> {
    match e {
        SecurityError::Clock => "second time provided was later than self"@,
        SecurityError::Encryption => "aead::Error"@,
        SecurityError::Base64Decode => "invalid Base64 packet"@,
        SecurityError::PacketTooSmall => "数据包太小"@,
        SecurityError::HmacMismatch => "HMAC验证失败"@,
        SecurityError::Decryption => "aead::Error"@,
        SecurityError::PlaintextMalformed => "明文格式错误"@,
        SecurityError::TimestampOutOfWindow => "时间戳超出允许窗口"@,
    }
}

impl SecurityError {
    /// The text that describes the error.
    pub fn message(&self) -> (r: &'static str)
        ensures
            r@ == security_error_message(*self),
    {
        match self {
            SecurityError::Clock => "second time provided was later than self",
            SecurityError::Encryption => "aead::Error",
            SecurityError::Base64Decode => "invalid Base64 packet",
            SecurityError::PacketTooSmall => "数据包太小",
            SecurityError::HmacMismatch => "HMAC验证失败",
            SecurityError::Decryption => "aead::Error",
            SecurityError::PlaintextMalformed => "明文格式错误",
            SecurityError::TimestampOutOfWindow => "时间戳超出允许窗口",
        }
    }
}

/// The eight bytes of `x`, most significant first (`i64::to_be_bytes`).
pub open spec fn be_bytes(x: i64) -> Seq<u8> {
    let u = x as u64;
    seq![
        (u >> 56u64) as u8,
        (u >> 48u64) as u8,
        (u >> 40u64) as u8,
        (u >> 32u64) as u8,
        (u >> 24u64) as u8,
        (u >> 16u64) as u8,
        (u >> 8u64) as u8,
        u as u8,
    ]
}

/// The value of eight bytes, most significant first (`i64::from_be_bytes`).
pub open spec fn from_be(b: Seq<u8>) -> i64 {
    (((b[0] as u64) << 56u64) | ((b[1] as u64) << 48u64) | ((b[2] as u64) << 40u64) | ((
    b[3] as u64) << 32u64) | ((b[4] as u64) << 24u64) | ((b[5] as u64) << 16u64) | ((
    b[6] as u64) << 8u64) | (b[7] as u64)) as i64
}

/// The bytes of a command packet sent at `ts`: nonce, ciphertext, tag.
pub open spec fn message_bytes(key: Seq<u8>, nonce: Seq<u8>, ts: i64, command: Seq<u8>) -> Seq<
    u8,
> {
    let c = spec_aes_gcm_seal(key, nonce, be_bytes(ts) + command);
    nonce + c + spec_hmac_sha256(key, nonce + c)
}

/// What opening the packet text `text` gives, before its time is checked: the send
/// time and the command.
pub open spec fn opened_message(key: Seq<u8>, text: Seq<char>) -> Result<
    (i64, Seq<u8>),
    SecurityError,
> {
    match spec_base64_decode(text) {
        None => Err(SecurityError::Base64Decode),
        Some(raw) => if raw.len() < 44 {
            Err(SecurityError::PacketTooSmall)
        } else {
            let nonce = raw.subrange(0, 12);
            let c = raw.subrange(12, raw.len() - 32);
            let tag = raw.subrange(raw.len() - 32, raw.len() as int);
            if tag != spec_hmac_sha256(key, nonce + c) {
                Err(SecurityError::HmacMismatch)
            } else {
                match spec_aes_gcm_open(key, nonce, c) {
                    None => Err(SecurityError::Decryption),
                    Some(p) => if p.len() < 8 {
                        Err(SecurityError::PlaintextMalformed)
                    } else {
                        Ok((from_be(p.subrange(0, 8)), p.subrange(8, p.len() as int)))
                    },
                }
            }
        },
    }
}

/// A send time is accepted at `now` when it is at most `window` seconds away.
pub open spec fn time_accepted(ts: i64, now: i64, window: i64) -> bool {
    let d = now - ts;
    (if d >= 0 {
        d
    } else {
        -d
    }) <= window
}

/// What [`Security::decrypt_message_at`] gives for `text` at time `now`.
pub open spec fn accepted_message(key: Seq<u8>, window: i64, text: Seq<char>, now: i64) -> Result<
    Seq<u8>,
    SecurityError,
> {
    match opened_message(key, text) {
        Err(e) => Err(e),
        Ok((ts, command)) => if time_accepted(ts, now, window) {
            Ok(command)
        } else {
            Err(SecurityError::TimestampOutOfWindow)
        },
    }
}

/// The contents of a result that carries bytes.
pub open spec fn bytes_result(r: Result<Vec<u8>, SecurityError>) -> Result<Seq<u8>, SecurityError> {
    match r {
        Ok(b) => Ok(b@),
        Err(e) => Err(e),
    }
}

proof fn lemma_be_roundtrip(x: i64)
    ensures
        from_be(be_bytes(x)) == x,
{
    let u = x as u64;
    assert((((((u >> 56u64) as u8) as u64) << 56u64) | (((((u >> 48u64) as u8) as u64)) << 48u64)
        | (((((u >> 40u64) as u8) as u64)) << 40u64) | (((((u >> 32u64) as u8) as u64)) << 32u64)
        | (((((u >> 24u64) as u8) as u64)) << 24u64) | (((((u >> 16u64) as u8) as u64)) << 16u64)
        | (((((u >> 8u64) as u8) as u64)) << 8u64) | ((u as u8) as u64)) == u) by (bit_vector);
    assert(((x as u64) as i64) == x) by (bit_vector);
}

/// `i64::to_be_bytes`.
fn to_be_bytes(x: i64) -> (r: [u8; 8])
    ensures
        r@ == be_bytes(x),
{
    let u = x as u64;
    let r = [
        (u >> 56) as u8,
        (u >> 48) as u8,
        (u >> 40) as u8,
        (u >> 32) as u8,
        (u >> 24) as u8,
        (u >> 16) as u8,
        (u >> 8) as u8,
        u as u8,
    ];
    assert(r@ =~= be_bytes(x));
    r
}

/// `i64::from_be_bytes` of the first eight bytes of `b`.
fn from_be_bytes(b: &[u8]) -> (r: i64)
    requires
        b@.len() >= 8,
    ensures
        r == from_be(b@),
{
    (((b[0] as u64) << 56) | ((b[1] as u64) << 48) | ((b[2] as u64) << 40) | ((b[3] as u64) << 32)
        | ((b[4] as u64) << 24) | ((b[5] as u64) << 16) | ((b[6] as u64) << 8) | (b[7] as u64))
        as i64
}

/// Seals and opens timestamped command packets under one key.
#[derive(Debug, Clone)]
pub struct Security {
    key: [u8; 32],
    timestamp_window: i64,
    debug: bool,
}

impl Security {
    /// The key that seals, opens and authenticates packets.
    pub closed spec fn key(&self) -> Seq<u8> {
        self.key@
    }

    /// The largest distance, in seconds, between a packet's send time and its receipt.
    pub closed spec fn window(&self) -> i64 {
        self.timestamp_window
    }

    /// Whether diagnostics are wanted.
    pub closed spec fn debug(&self) -> bool {
        self.debug
    }

    /// Derives the key from the shared key.
    pub fn new(shared_key: &str, timestamp_window: i64, debug: bool) -> (r: Self)
        ensures
            r.key() == spec_sha256(encode_utf8(shared_key@)),
            r.window() == timestamp_window,
            r.debug() == debug,
    {
        let key = sha256(shared_key.as_bytes());
        Security { key, timestamp_window, debug }
    }

    /// Seals a command with the current time under a fresh random nonce.
    pub fn encrypt_message(&self, command: &[u8]) -> (r: Result<String, SecurityError>)
        ensures
            r matches Err(e) ==> e == SecurityError::Clock || (e == SecurityError::Encryption
                && command@.len() + 8 > aes_gcm_max_plaintext()),
            r matches Ok(s) ==> exists|ts: i64| #[trigger]
                opened_message(self.key(), s@) == Ok::<(i64, Seq<u8>), SecurityError>(
                    (ts, command@),
                ),
    {
        let nonce = random_12();
        let now = match unix_seconds() {
            Some(s) => s,
            None => return Err(SecurityError::Clock),
        };
        let r = self.encrypt_message_at(command, &nonce, now as i64);
        proof {
            if r is Ok {
                assert(opened_message(self.key(), r->Ok_0@) == Ok::<(i64, Seq<u8>), SecurityError>(
                    (now as i64, command@),
                ));
            }
        }
        r
    }

    /// Seals a command sent at `timestamp` under the given nonce.
    pub fn encrypt_message_at(&self, command: &[u8], nonce: &[u8; 12], timestamp: i64) -> (r:
        Result<String, SecurityError>)
        ensures
            r is Ok <==> command@.len() + 8 <= aes_gcm_max_plaintext(),
            r matches Err(e) ==> e == SecurityError::Encryption,
            r matches Ok(s) ==> s@ == spec_base64_encode(
                message_bytes(self.key(), nonce@, timestamp, command@),
            ),
            r matches Ok(s) ==> opened_message(self.key(), s@) == Ok::<
                (i64, Seq<u8>),
                SecurityError,
            >((timestamp, command@)),
    {
        let mut plaintext: Vec<u8> = Vec::new();
        let ts = to_be_bytes(timestamp);
        append_bytes(&mut plaintext, ts.as_slice());
        append_bytes(&mut plaintext, command);
        let ciphertext = match aes_gcm_seal(&self.key, nonce, plaintext.as_slice()) {
            Ok(c) => c,
            Err(_) => return Err(SecurityError::Encryption),
        };
        let mut authenticated: Vec<u8> = Vec::new();
        append_bytes(&mut authenticated, nonce.as_slice());
        append_bytes(&mut authenticated, ciphertext.as_slice());
        let tag = hmac_sha256(self.key.as_slice(), authenticated.as_slice());
        let mut packet: Vec<u8> = Vec::new();
        append_bytes(&mut packet, nonce.as_slice());
        append_bytes(&mut packet, ciphertext.as_slice());
        append_bytes(&mut packet, tag.as_slice());
        let text = base64_encode(packet.as_slice());
        proof {
            let b = packet@;
            assert(b =~= message_bytes(self.key(), nonce@, timestamp, command@));
            assert(b.subrange(0, 12) =~= nonce@);
            assert(b.subrange(12, b.len() - 32) =~= ciphertext@);
            assert(b.subrange(b.len() - 32, b.len() as int) =~= tag@);
            let p = plaintext@;
            assert(p.subrange(0, 8) =~= be_bytes(timestamp));
            assert(p.subrange(8, p.len() as int) =~= command@);
            lemma_be_roundtrip(timestamp);
        }
        Ok(text)
    }

    /// Opens a packet and checks its send time against the current time. An opening
    /// error comes out as it is; a packet that opens is then judged by
    /// [`Security::accept_opened`] at the time the clock reads, or refused with
    /// [`SecurityError::Clock`] when the clock is set before the Unix epoch.
    pub fn decrypt_message(&self, encrypted: &str) -> (r: Result<Vec<u8>, SecurityError>)
        ensures
            match opened_message(self.key(), encrypted@) {
                Err(e) => r == Err::<Vec<u8>, SecurityError>(e),
                Ok(_) => r == Err::<Vec<u8>, SecurityError>(SecurityError::Clock) || exists|now: i64|
                    #[trigger] accepted_message(self.key(), self.window(), encrypted@, now)
                        == bytes_result(r),
            },
    {
        let (ts, command) = match self.open_message(encrypted) {
            Ok(opened) => opened,
            Err(e) => return Err(e),
        };
        let now = match unix_seconds() {
            Some(s) => s,
            None => return Err(SecurityError::Clock),
        };
        let r = self.accept_opened(ts, command, now as i64);
        proof {
            assert(accepted_message(self.key(), self.window(), encrypted@, now as i64) == bytes_result(
                r,
            ));
        }
        r
    }

    /// Opens a packet and checks its send time against `now`.
    pub fn decrypt_message_at(&self, encrypted: &str, now: i64) -> (r: Result<
        Vec<u8>,
        SecurityError,
    >)
        ensures
            bytes_result(r) == accepted_message(self.key(), self.window(), encrypted@, now),
    {
        let (ts, command) = match self.open_message(encrypted) {
            Ok(opened) => opened,
            Err(e) => return Err(e),
        };
        self.accept_opened(ts, command, now)
    }

    /// Accepts the command of a packet sent at `ts` when `ts` is within the window of
    /// `now`, and refuses it with [`SecurityError::TimestampOutOfWindow`] otherwise.
    pub fn accept_opened(&self, ts: i64, command: Vec<u8>, now: i64) -> (r: Result<
        Vec<u8>,
        SecurityError,
    >)
        ensures
            bytes_result(r) == if time_accepted(ts, now, self.window()) {
                Ok::<Seq<u8>, SecurityError>(command@)
            } else {
                Err(SecurityError::TimestampOutOfWindow)
            },
    {
        if self.time_ok(ts, now) {
            Ok(command)
        } else {
            Err(SecurityError::TimestampOutOfWindow)
        }
    }

    /// Whether a send time is within the window of `now`.
    fn time_ok(&self, ts: i64, now: i64) -> (r: bool)
        ensures
            r == time_accepted(ts, now, self.window()),
    {
        let d: i128 = now as i128 - ts as i128;
        let a: i128 = if d >= 0 {
            d
        } else {
            -d
        };
        a <= self.timestamp_window as i128
    }

    /// Opens a packet into its send time and command.
    fn open_message(&self, encrypted: &str) -> (r: Result<(i64, Vec<u8>), SecurityError>)
        ensures
            match r {
                Ok((ts, c)) => opened_message(self.key(), encrypted@) == Ok::<
                    (i64, Seq<u8>),
                    SecurityError,
                >((ts, c@)),
                Err(e) => opened_message(self.key(), encrypted@) == Err::<
                    (i64, Seq<u8>),
                    SecurityError,
                >(e),
            },
    {
        let packet = match base64_decode(encrypted) {
            Ok(bytes) => bytes,
            Err(_) => return Err(SecurityError::Base64Decode),
        };
        if packet.len() < 44 {
            return Err(SecurityError::PacketTooSmall);
        }
        let hmac_start = packet.len() - 32;
        let nonce = bytes_range(packet.as_slice(), 0, 12);
        let ciphertext = bytes_range(packet.as_slice(), 12, hmac_start);
        let received = bytes_range(packet.as_slice(), hmac_start, packet.len());
        let mut authenticated: Vec<u8> = Vec::new();
        append_bytes(&mut authenticated, nonce.as_slice());
        append_bytes(&mut authenticated, ciphertext.as_slice());
        if !hmac_sha256_verify(self.key.as_slice(), authenticated.as_slice(), received.as_slice()) {
            return Err(SecurityError::HmacMismatch);
        }
        let plaintext = match aes_gcm_open(&self.key, nonce.as_slice(), ciphertext.as_slice()) {
            Ok(p) => p,
            Err(_) => return Err(SecurityError::Decryption),
        };
        if plaintext.len() < 8 {
            return Err(SecurityError::PlaintextMalformed);
        }
        let ts = from_be_bytes(plaintext.as_slice());
        assert(plaintext@.subrange(0, 8)[0] == plaintext@[0]);
        assert(from_be(plaintext@.subrange(0, 8)) == from_be(plaintext@));
        let command = bytes_range(plaintext.as_slice(), 8, plaintext.len());
        Ok((ts, command))
    }
}

/// Only authentic messages open: a message that opens decodes to a nonce, a ciphertext
/// and a tag that is the HMAC of nonce and ciphertext under the key; the ciphertext
/// opens to the send time followed by the command.
pub proof fn lemma_opened_messages_are_authentic(key: Seq<u8>, text: Seq<char>)
    ensures
        opened_message(key, text) matches Ok((ts, command)) ==> {
            &&& spec_base64_decode(text) matches Some(raw)
            &&& raw.len() >= 44
            &&& raw.subrange(raw.len() - 32, raw.len() as int) == spec_hmac_sha256(
                key,
                raw.subrange(0, 12) + raw.subrange(12, raw.len() - 32),
            )
            &&& spec_aes_gcm_open(key, raw.subrange(0, 12), raw.subrange(12, raw.len() - 32))
                matches Some(p)
            &&& p.len() >= 8
            &&& ts == from_be(p.subrange(0, 8))
            &&& command == p.subrange(8, p.len() as int)
        },
{
}

/// The send-time check looks both ways: `ts` is accepted at `now` exactly when `now`
/// would be accepted at `ts`.
pub proof fn lemma_time_check_is_symmetric(ts: i64, now: i64, window: i64)
    ensures
        time_accepted(ts, now, window) == time_accepted(now, ts, window),
{
}

} // verus!
