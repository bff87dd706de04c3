//! AES-256-GCM with HKDF-SHA256, wire-compatible with the Swift sibling.
//!
//! Wire format:
//! - string ciphertext: `enc:` + base64(nonce || ciphertext || tag);
//! - binary ciphertext: the header `ENC\0` + nonce || ciphertext || tag;
//! - key: HKDF-SHA256 over the app secret, salted with the user's UUID in upper-case
//!   hyphenated form, info `supabase-encryption`;
//! - values without the prefix / header pass through unchanged.

use aes_gcm::aead::{Aead, KeyInit};
use aes_gcm::{Aes256Gcm, Key, Nonce};
use base64::engine::general_purpose;
use base64::Engine;
use hkdf::Hkdf;
use rand::RngCore;
use sha2::{Digest, Sha256};
use uuid::Uuid;
use vstd::prelude::*;
use vstd::utf8::{decode_utf8, encode_utf8, valid_utf8};
use crate::text::{chars_of, has_prefix, push_str, starts_with_chars, string_from_chars, utf8_bytes};

verus! {

broadcast use vstd::utf8::group_utf8_lib;

/// Errors produced by the encryption layer.
#[derive(Debug, Clone, PartialEq, Eq)]
pub enum EncryptionError {
    /// Encryption secret was empty (configuration error).
    EmptySecret,
    /// AES-GCM, HKDF, or base64 operation failed.
    OperationFailed(String),
}

impl EncryptionError {
    /// The error's message: `encryption secret is empty`, or `encryption operation failed: `
    /// followed by the detail.
    pub fn message(&self) -> (r: String)
        ensures
            r@ == match self {
                EncryptionError::EmptySecret => "encryption secret is empty"@,
                EncryptionError::OperationFailed(m) => "encryption operation failed: "@ + m@,
            },
    {
        match self {
            EncryptionError::EmptySecret => "encryption secret is empty".to_owned(),
            EncryptionError::OperationFailed(m) => {
                let mut out = "encryption operation failed: ".to_owned();
                push_str(&mut out, m.as_str());
                out
            },
        }
    }
}

/// The error type of the AEAD operations.
#[verifier::external_type_specification]
#[verifier::external_body]
pub struct ExAeadError(aes_gcm::Error);

/// A user's key UUID, as its 128-bit big-endian value.
#[derive(Debug, Clone, Copy, PartialEq, Eq, Hash, Structural)]
pub struct UserUuid {
    /// The UUID's bits, most significant first (`Uuid::as_u128`).
    pub bits: u128,
}

// ---------------------------------------------------------------------------------------
// What the outside crates compute.

/// SHA-256 of `data`.
pub uninterp spec fn sha256_digest(data: Seq<u8>) -> Seq<u8>;

/// `Sha256::digest(data)`: the 32-byte SHA-256 digest.
#[verifier::external_body]
fn sha256(data: &[u8]) -> (r: Vec<u8>)
    ensures
        r@ == sha256_digest(data@),
        r@.len() == 32,
{
    Sha256::digest(data).to_vec()
}

/// The first 32 bytes of HKDF-SHA256 output keying material for `salt`, `ikm`, `info`.
pub uninterp spec fn hkdf_sha256_okm(salt: Seq<u8>, ikm: Seq<u8>, info: Seq<u8>) -> Seq<u8>;

/// `Hkdf::<Sha256>::new(Some(salt), ikm).expand(info, &mut [0u8; 32])`. `expand` refuses only
/// lengths above 255 × 32 bytes, so a 32-byte request always succeeds.
#[verifier::external_body]
fn hkdf_sha256_32(salt: &[u8], ikm: &[u8], info: &[u8]) -> (r: Vec<u8>)
    ensures
        r@ == hkdf_sha256_okm(salt@, ikm@, info@),
        r@.len() == 32,
{
    let hk = Hkdf::<Sha256>::new(Some(salt), ikm);
    let mut okm = [0u8; 32];
    match hk.expand(info, &mut okm) {
        Ok(()) => okm.to_vec(),
        Err(_) => Vec::new(),
    }
}

/// AES-256-GCM ciphertext (with the 16-byte tag appended) of `plaintext` under `key` and `nonce`.
pub uninterp spec fn aes256gcm_seal(key: Seq<u8>, nonce: Seq<u8>, plaintext: Seq<u8>) -> Seq<u8>;

/// AES-256-GCM decryption of `ciphertext` under `key` and `nonce`; `None` when the tag does
/// not authenticate.
pub uninterp spec fn aes256gcm_open(key: Seq<u8>, nonce: Seq<u8>, ciphertext: Seq<u8>) -> Option<Seq<u8>>;

/// The largest plaintext AES-GCM accepts (`aes_gcm::P_MAX`, 2^36 bytes).
pub open spec fn aead_max_plaintext() -> nat {
    0x10_0000_0000
}

/// `Aes256Gcm::new(key).encrypt(nonce, plaintext)`. It fails exactly for a plaintext longer
/// than `P_MAX` (the length check of `encrypt_in_place_detached`); a ciphertext it produced
/// opens again under the same key and nonce (AEAD correctness).
#[verifier::external_body]
fn aead_seal(key: &[u8], nonce: &[u8], plaintext: &[u8]) -> (r: Result<Vec<u8>, aes_gcm::Error>)
    requires
        key@.len() == 32,
        nonce@.len() == 12,
    ensures
        plaintext@.len() > aead_max_plaintext() ==> r is Err,
        match r {
            Ok(c) => c@ == aes256gcm_seal(key@, nonce@, plaintext@)
                && aes256gcm_open(key@, nonce@, c@) == Some(plaintext@),
            Err(_) => plaintext@.len() > aead_max_plaintext(),
        },
{
    let cipher = Aes256Gcm::new(Key::<Aes256Gcm>::from_slice(key));
    cipher.encrypt(Nonce::from_slice(nonce), plaintext)
}

/// `Aes256Gcm::new(key).decrypt(nonce, ciphertext)`, `None` on failure.
#[verifier::external_body]
fn aead_open(key: &[u8], nonce: &[u8], ciphertext: &[u8]) -> (r: Option<Vec<u8>>)
    requires
        key@.len() == 32,
        nonce@.len() == 12,
    ensures
        match r {
            Some(p) => aes256gcm_open(key@, nonce@, ciphertext@) == Some(p@),
            None => aes256gcm_open(key@, nonce@, ciphertext@) is None,
        },
{
    let cipher = Aes256Gcm::new(Key::<Aes256Gcm>::from_slice(key));
    match cipher.decrypt(Nonce::from_slice(nonce), ciphertext) {
        Ok(p) => Some(p),
        Err(_) => None,
    }
}

/// Standard (padded) base64 encoding of `data`.
pub uninterp spec fn base64_encoding(data: Seq<u8>) -> Seq<char>;

/// Standard base64 decoding of `text`; `None` when `text` is not valid base64.
pub uninterp spec fn base64_decoding(text: Seq<char>) -> Option<Seq<u8>>;

/// `general_purpose::STANDARD.encode(data)`; decoding the result gives `data` back.
#[verifier::external_body]
fn base64_encode(data: &[u8]) -> (r: String)
    ensures
        r@ == base64_encoding(data@),
        base64_decoding(r@) == Some(data@),
{
    general_purpose::STANDARD.encode(data)
}

/// `general_purpose::STANDARD.decode(text)`; the error is the decode error's message.
#[verifier::external_body]
fn base64_decode(text: &str) -> (r: Result<Vec<u8>, String>)
    ensures
        match r {
            Ok(b) => base64_decoding(text@) == Some(b@),
            Err(_) => base64_decoding(text@) is None,
        },
{
    match general_purpose::STANDARD.decode(text) {
        Ok(b) => Ok(b),
        Err(e) => Err(e.to_string()),
    }
}

/// `String::from_utf8(bytes)`: the decoded text when `bytes` is valid UTF-8, else the error's
/// message.
#[verifier::external_body]
fn utf8_decode(bytes: Vec<u8>) -> (r: Result<String, String>)
    ensures
        match r {
            Ok(s) => valid_utf8(bytes@) && s@ == decode_utf8(bytes@),
            Err(_) => !valid_utf8(bytes@),
        },
{
    match String::from_utf8(bytes) {
        Ok(s) => Ok(s),
        Err(e) => Err(e.to_string()),
    }
}

/// Twelve bytes from the thread-local random generator (`thread_rng().fill_bytes`).
#[verifier::external_body]
fn random_nonce() -> (r: Vec<u8>)
    ensures
        r@.len() == 12,
{
    let mut nonce = [0u8; 12];
    rand::thread_rng().fill_bytes(&mut nonce);
    nonce.to_vec()
}

/// The UUID `text` parses to (`str::parse::<Uuid>`), as its 128-bit value.
pub uninterp spec fn uuid_parsed(text: Seq<char>) -> Option<u128>;

/// `text.parse::<Uuid>()` converted to the UUID's 128-bit value.
#[verifier::external_body]
fn parse_uuid(text: &str) -> (r: Option<u128>)
    ensures
        r == uuid_parsed(text@),
{
    match text.parse::<Uuid>() {
        Ok(u) => Some(u.as_u128()),
        Err(_) => None,
    }
}

/// The version-5 UUID of `name` in the URL namespace, as its 128-bit value.
pub uninterp spec fn uuid_v5_url(name: Seq<u8>) -> u128;

/// `Uuid::new_v5(&Uuid::NAMESPACE_URL, name).as_u128()`.
#[verifier::external_body]
fn new_v5_url(name: &[u8]) -> (r: u128)
    ensures
        r == uuid_v5_url(name@),
{
    Uuid::new_v5(&Uuid::NAMESPACE_URL, name).as_u128()
}

// ---------------------------------------------------------------------------------------
// Hex text.

/// The lower-case hex digit of `n` (0..15).
pub open spec fn lower_hex_digit(n: nat) -> char {
    if n < 10 { (('0' as nat) + n) as char } else { (('a' as nat) + (n - 10)) as char }
}

/// The upper-case hex digit of `n` (0..15).
pub open spec fn upper_hex_digit(n: nat) -> char {
    if n < 10 { (('0' as nat) + n) as char } else { (('A' as nat) + (n - 10)) as char }
}

/// Two lower-case hex digits per byte, most significant first.
pub open spec fn lower_hex(bytes: Seq<u8>) -> Seq<char>
    decreases bytes.len(),
{
    if bytes.len() == 0 {
        Seq::empty()
    } else {
        lower_hex(bytes.drop_last()) + seq![lower_hex_digit(bytes.last() as nat / 16), lower_hex_digit(bytes.last() as nat % 16)]
    }
}

/// The last `n` upper-case hex digits of `v`, most significant first.
pub open spec fn upper_hex_digits(v: nat, n: nat) -> Seq<char>
    decreases n,
{
    if n == 0 {
        Seq::empty()
    } else {
        upper_hex_digits(v / 16, (n - 1) as nat).push(upper_hex_digit(v % 16))
    }
}

/// A UUID in upper-case hyphenated form (`8-4-4-4-12` hex digits).
pub open spec fn uuid_upper_text(u: u128) -> Seq<char> {
    let h = upper_hex_digits(u as nat, 32);
    h.subrange(0, 8) + "-"@ + h.subrange(8, 12) + "-"@ + h.subrange(12, 16) + "-"@ + h.subrange(16, 20) + "-"@ + h.subrange(20, 32)
}

fn lower_hex_char(n: u8) -> (r: char)
    requires
        n < 16,
    ensures
        r == lower_hex_digit(n as nat),
{
    if n < 10 { (48u8 + n) as char } else { (87u8 + n) as char }
}

fn upper_hex_char(n: u8) -> (r: char)
    requires
        n < 16,
    ensures
        r == upper_hex_digit(n as nat),
{
    if n < 10 { (48u8 + n) as char } else { (55u8 + n) as char }
}

fn lower_hex_of(bytes: &[u8]) -> (r: Vec<char>)
    ensures
        r@ == lower_hex(bytes@),
{
    let mut out: Vec<char> = Vec::new();
    let mut i: usize = 0;
    while i < bytes.len()
        invariant
            i <= bytes@.len(),
            out@ == lower_hex(bytes@.take(i as int)),
        decreases bytes.len() - i,
    {
        let b = bytes[i];
        out.push(lower_hex_char(b / 16));
        out.push(lower_hex_char(b % 16));
        proof {
            assert(bytes@.take(i + 1).drop_last() =~= bytes@.take(i as int));
            assert(out@ =~= lower_hex(bytes@.take(i as int)) + seq![lower_hex_digit(b as nat / 16), lower_hex_digit(b as nat % 16)]);
        }
        i = i + 1;
    }
    proof {
        assert(bytes@.take(bytes@.len() as int) =~= bytes@);
    }
    out
}

fn upper_hex_digits_of(v: u128, n: u32) -> (r: Vec<char>)
    ensures
        r@ == upper_hex_digits(v as nat, n as nat),
        r@.len() == n,
    decreases n,
{
    if n == 0 {
        Vec::new()
    } else {
        let mut out = upper_hex_digits_of(v / 16, n - 1);
        out.push(upper_hex_char((v % 16) as u8));
        out
    }
}

fn push_range(out: &mut Vec<char>, src: &Vec<char>, from: usize, to: usize)
    requires
        from <= to <= src@.len(),
    ensures
        final(out)@ == old(out)@ + src@.subrange(from as int, to as int),
{
    let mut i: usize = from;
    while i < to
        invariant
            from <= i <= to <= src@.len(),
            out@ == old(out)@ + src@.subrange(from as int, i as int),
        decreases to - i,
    {
        out.push(src[i]);
        proof {
            assert(src@.subrange(from as int, i + 1) =~= src@.subrange(from as int, i as int).push(src@[i as int]));
        }
        i = i + 1;
    }
}

/// The salt bytes of a user's key: the UTF-8 of its upper-case hyphenated UUID.
pub open spec fn key_salt(user: UserUuid) -> Seq<u8> {
    encode_utf8(uuid_upper_text(user.bits))
}

fn key_salt_exec(user: UserUuid) -> (r: Vec<u8>)
    ensures
        r@ == key_salt(user),
{
    let h = upper_hex_digits_of(user.bits, 32);
    let mut t: Vec<char> = Vec::new();
    push_range(&mut t, &h, 0, 8);
    t.push('-');
    push_range(&mut t, &h, 8, 12);
    t.push('-');
    push_range(&mut t, &h, 12, 16);
    t.push('-');
    push_range(&mut t, &h, 16, 20);
    t.push('-');
    push_range(&mut t, &h, 20, 32);
    proof {
        reveal_strlit("-");
        assert(t@ =~= uuid_upper_text(user.bits));
    }
    let s = string_from_chars(&t);
    utf8_bytes(s.as_str())
}

// ---------------------------------------------------------------------------------------
// The framing.

/// The string-ciphertext prefix.
pub open spec fn string_prefix() -> Seq<char> {
    "enc:"@
}

/// The binary-ciphertext header `ENC\0`.
pub open spec fn binary_header() -> Seq<u8> {
    seq![0x45u8, 0x4eu8, 0x43u8, 0x00u8]
}

/// The HKDF info string, as bytes.
pub open spec fn hkdf_info() -> Seq<u8> {
    encode_utf8("supabase-encryption"@)
}

/// The AES key of a user under an app secret.
pub open spec fn derived_key(secret: Seq<u8>, user: UserUuid) -> Seq<u8> {
    hkdf_sha256_okm(key_salt(user), secret, hkdf_info())
}

/// The fingerprint of a secret: the first 12 hex characters of its SHA-256.
pub open spec fn secret_fingerprint(secret: Seq<u8>) -> Seq<char> {
    lower_hex(sha256_digest(secret)).take(12)
}

/// The UUID a user id is keyed by: the id itself when it parses as a UUID, else the v5 UUID of
/// `polybase:{id}` in the URL namespace.
pub open spec fn user_key_uuid(user_id: Seq<char>) -> UserUuid {
    match uuid_parsed(user_id) {
        Some(u) => UserUuid { bits: u },
        None => UserUuid { bits: uuid_v5_url(encode_utf8("polybase:"@ + user_id)) },
    }
}

/// The string ciphertext of `plaintext` for a given key and nonce.
pub open spec fn string_ciphertext(key: Seq<u8>, nonce: Seq<u8>, plaintext: Seq<char>) -> Seq<char> {
    string_prefix() + base64_encoding(nonce + aes256gcm_seal(key, nonce, encode_utf8(plaintext)))
}

/// The binary ciphertext of `data` for a given key and nonce.
pub open spec fn binary_ciphertext(key: Seq<u8>, nonce: Seq<u8>, data: Seq<u8>) -> Seq<u8> {
    binary_header() + nonce + aes256gcm_seal(key, nonce, data)
}

/// Why decryption failed.
pub enum DecryptFailure {
    /// The body after the prefix is not valid base64.
    Base64,
    /// The decoded body is shorter than a nonce.
    TooShort,
    /// The ciphertext does not authenticate under the key.
    Aead,
    /// The decrypted bytes are not UTF-8.
    Utf8,
}

/// What decrypting `text` gives: the text itself when it has no prefix, else the plaintext
/// of the decoded `nonce || ciphertext`, or the reason it fails.
pub open spec fn decrypted_text(secret: Seq<u8>, user: UserUuid, text: Seq<char>) -> Result<Seq<char>, DecryptFailure> {
    if !has_prefix(text, string_prefix()) {
        Ok(text)
    } else {
        match base64_decoding(text.skip(4)) {
            None => Err(DecryptFailure::Base64),
            Some(combined) => if combined.len() < 12 {
                Err(DecryptFailure::TooShort)
            } else {
                match aes256gcm_open(derived_key(secret, user), combined.take(12), combined.skip(12)) {
                    None => Err(DecryptFailure::Aead),
                    Some(p) => if valid_utf8(p) { Ok(decode_utf8(p)) } else { Err(DecryptFailure::Utf8) },
                }
            },
        }
    }
}

/// What decrypting `data` gives: the data itself without the header, else the plaintext of
/// `nonce || ciphertext`, or the reason it fails.
pub open spec fn decrypted_data(secret: Seq<u8>, user: UserUuid, data: Seq<u8>) -> Result<Seq<u8>, DecryptFailure> {
    if !(data.len() >= 4 && data.take(4) == binary_header()) {
        Ok(data)
    } else {
        let combined = data.skip(4);
        if combined.len() < 12 {
            Err(DecryptFailure::TooShort)
        } else {
            match aes256gcm_open(derived_key(secret, user), combined.take(12), combined.skip(12)) {
                None => Err(DecryptFailure::Aead),
                Some(p) => Ok(p),
            }
        }
    }
}

/// The error message matches the failure: a fixed text for the library's own checks and the
/// AEAD failure, a fixed prefix before the outside decoder's message.
pub open spec fn failure_message(f: DecryptFailure, m: Seq<char>, binary: bool) -> bool {
    match f {
        DecryptFailure::Base64 => has_prefix(m, "base64: "@),
        DecryptFailure::TooShort => m == (if binary { "encrypted data too short"@ } else { "ciphertext too short"@ }),
        DecryptFailure::Aead => m == (if binary { "decrypt_data: aead::Error"@ } else { "decrypt: aead::Error"@ }),
        DecryptFailure::Utf8 => has_prefix(m, "utf8: "@),
    }
}

/// AES-GCM encryption configured with an app-level secret.
#[derive(Debug)]
pub struct Encryption {
    app_secret: Vec<u8>,
    secret_fingerprint: String,
}

impl Encryption {
    /// The app secret's bytes.
    pub closed spec fn secret(&self) -> Seq<u8> {
        self.app_secret@
    }

    /// The stored fingerprint.
    pub closed spec fn fingerprint_text(&self) -> Seq<char> {
        self.secret_fingerprint@
    }

    /// Build an encryptor from an app-level secret string; an empty secret is refused. The
    /// secret is fingerprinted (first 12 hex characters of its SHA-256) for error logs.
    pub fn new(secret: &str) -> (r: Result<Self, EncryptionError>)
        ensures
            secret@.len() == 0 ==> r == Err::<Self, EncryptionError>(EncryptionError::EmptySecret),
            secret@.len() != 0 ==> (r matches Ok(e) && e.secret() == encode_utf8(secret@)
                && e.fingerprint_text() == secret_fingerprint(encode_utf8(secret@))
                && e.fingerprint_text().len() == 12),
    {
        let app_secret = utf8_bytes(secret);
        if app_secret.len() == 0 {
            proof {
                if secret@.len() != 0 {
                    vstd::utf8::encode_utf8_first_scalar(secret@);
                }
            }
            return Err(EncryptionError::EmptySecret);
        }
        proof {
            if secret@.len() == 0 {
                assert(encode_utf8(secret@) =~= Seq::<u8>::empty());
            }
        }
        let digest = sha256(app_secret.as_slice());
        let hex = lower_hex_of(digest.as_slice());
        proof {
            lemma_lower_hex_len(digest@);
        }
        let mut fp: Vec<char> = Vec::new();
        push_range(&mut fp, &hex, 0, 12);
        proof {
            assert(fp@ =~= lower_hex(digest@).take(12));
        }
        Ok(Encryption { app_secret, secret_fingerprint: string_from_chars(&fp) })
    }

    /// First 12 hex characters of SHA-256(secret): safe to log, useful to diagnose key drift.
    pub fn fingerprint(&self) -> (r: &str)
        ensures
            r@ == self.fingerprint_text(),
    {
        self.secret_fingerprint.as_str()
    }

    /// True when the input begins with the string-encryption prefix.
    pub fn is_encrypted(&self, text: &str) -> (r: bool)
        ensures
            r == has_prefix(text@, string_prefix()),
    {
        let t = chars_of(text);
        let p = chars_of("enc:");
        proof {
            reveal_strlit("enc:");
        }
        starts_with_chars(&t, &p)
    }

    /// True when the input begins with the binary-encryption header.
    pub fn is_data_encrypted(&self, data: &[u8]) -> (r: bool)
        ensures
            r == (data@.len() >= 4 && data@.take(4) == binary_header()),
    {
        let r = data.len() >= 4 && data[0] == 0x45u8 && data[1] == 0x4eu8 && data[2] == 0x43u8 && data[3] == 0x00u8;
        proof {
            if data@.len() >= 4 {
                if r {
                    assert(data@.take(4) =~= binary_header());
                } else {
                    assert(data@.take(4)[0] == data@[0] && data@.take(4)[1] == data@[1]
                        && data@.take(4)[2] == data@[2] && data@.take(4)[3] == data@[3]);
                }
            }
        }
        r
    }

    /// The UUID a user id is keyed by: the id itself when it is a UUID, else a stable v5 UUID
    /// derived from it.
    pub fn key_user_uuid(user_id: &str) -> (r: UserUuid)
        ensures
            r == user_key_uuid(user_id@),
    {
        match parse_uuid(user_id) {
            Some(u) => UserUuid { bits: u },
            None => {
                let mut name = "polybase:".to_owned();
                push_str(&mut name, user_id);
                let bytes = utf8_bytes(name.as_str());
                UserUuid { bits: new_v5_url(bytes.as_slice()) }
            },
        }
    }

    fn derive_key(&self, user: UserUuid) -> (r: Vec<u8>)
        ensures
            r@ == derived_key(self.secret(), user),
            r@.len() == 32,
    {
        let salt = key_salt_exec(user);
        let info = utf8_bytes("supabase-encryption");
        hkdf_sha256_32(salt.as_slice(), self.app_secret.as_slice(), info.as_slice())
    }
}

proof fn lemma_lower_hex_len(bytes: Seq<u8>)
    ensures
        lower_hex(bytes).len() == 2 * bytes.len(),
    decreases bytes.len(),
{
    if bytes.len() > 0 {
        lemma_lower_hex_len(bytes.drop_last());
    }
}

impl Encryption {
    /// Encrypt a string for a user: `enc:` + base64(nonce || ciphertext || tag) under a fresh
    /// random nonce. Empty input returns empty. It fails only for a plaintext above the AEAD
    /// limit; whatever it returns decrypts back to `plaintext`.
    pub fn encrypt(&self, plaintext: &str, user: UserUuid) -> (r: Result<String, EncryptionError>)
        ensures
            plaintext@.len() == 0 ==> (r matches Ok(s) && s@ == plaintext@),
            plaintext@.len() != 0 ==> match r {
                Ok(s) => (exists|n: Seq<u8>| n.len() == 12
                    && s@ == #[trigger] string_ciphertext(derived_key(self.secret(), user), n, plaintext@))
                    && decrypted_text(self.secret(), user, s@) == Ok::<Seq<char>, DecryptFailure>(plaintext@),
                Err(e) => encode_utf8(plaintext@).len() > aead_max_plaintext()
                    && (e matches EncryptionError::OperationFailed(m) && m@ == "encrypt: aead::Error"@),
            },
            plaintext@.len() != 0 && encode_utf8(plaintext@).len() > aead_max_plaintext() ==> r is Err,
    {
        let bytes = utf8_bytes(plaintext);
        if bytes.len() == 0 {
            proof {
                if plaintext@.len() != 0 {
                    vstd::utf8::encode_utf8_first_scalar(plaintext@);
                }
            }
            return Ok(plaintext.to_owned());
        }
        let key = self.derive_key(user);
        let nonce = random_nonce();
        match aead_seal(key.as_slice(), nonce.as_slice(), bytes.as_slice()) {
            Err(_) => Err(EncryptionError::OperationFailed("encrypt: aead::Error".to_owned())),
            Ok(ct) => {
                let mut combined = nonce.clone();
                let mut extra = ct.clone();
                combined.append(&mut extra);
                let body = base64_encode(combined.as_slice());
                let mut out = "enc:".to_owned();
                push_str(&mut out, body.as_str());
                proof {
                    reveal_strlit("enc:");
                    assert(combined@ =~= nonce@ + ct@);
                    assert(out@ == string_ciphertext(derived_key(self.secret(), user), nonce@, plaintext@));
                    assert(out@.subrange(0, 4) =~= string_prefix());
                    assert(has_prefix(out@, string_prefix()));
                    assert(out@.skip(4) =~= body@);
                    assert(combined@.take(12) =~= nonce@);
                    assert(combined@.skip(12) =~= ct@);
                }
                Ok(out)
            },
        }
    }

    /// Decrypt a string for a user. Input without the `enc:` prefix is returned unchanged.
    pub fn decrypt(&self, ciphertext: &str, user: UserUuid) -> (r: Result<String, EncryptionError>)
        ensures
            match decrypted_text(self.secret(), user, ciphertext@) {
                Ok(p) => r matches Ok(s) && s@ == p,
                Err(f) => r matches Err(EncryptionError::OperationFailed(m)) && failure_message(f, m@, false),
            },
    {
        proof {
            reveal_strlit("enc:");
        }
        if !self.is_encrypted(ciphertext) {
            return Ok(ciphertext.to_owned());
        }
        let key = self.derive_key(user);
        let len = ciphertext.unicode_len();
        let body = ciphertext.substring_char(4, len);
        proof {
            assert(body@ =~= ciphertext@.skip(4));
        }
        let combined = match base64_decode(body) {
            Ok(b) => b,
            Err(e) => {
                let mut m = "base64: ".to_owned();
                push_str(&mut m, e.as_str());
                proof {
                    reveal_strlit("base64: ");
                    assert(m@.subrange(0, 8) =~= "base64: "@);
                }
                return Err(EncryptionError::OperationFailed(m));
            },
        };
        if combined.len() < 12 {
            return Err(EncryptionError::OperationFailed("ciphertext too short".to_owned()));
        }
        let (nonce, payload) = split_nonce(&combined);
        match aead_open(key.as_slice(), nonce.as_slice(), payload.as_slice()) {
            None => Err(EncryptionError::OperationFailed("decrypt: aead::Error".to_owned())),
            Some(p) => match utf8_decode(p) {
                Ok(text) => Ok(text),
                Err(e) => {
                    let mut m = "utf8: ".to_owned();
                    push_str(&mut m, e.as_str());
                    proof {
                        reveal_strlit("utf8: ");
                        assert(m@.subrange(0, 6) =~= "utf8: "@);
                    }
                    Err(EncryptionError::OperationFailed(m))
                },
            },
        }
    }

    /// Decrypt and also report whether the input carried the `enc:` prefix, so legacy
    /// plaintext rows can be scheduled for re-push.
    pub fn decrypt_with_healing(&self, ciphertext: &str, user: UserUuid) -> (r: Result<(String, bool), EncryptionError>)
        ensures
            match decrypted_text(self.secret(), user, ciphertext@) {
                Ok(p) => r matches Ok((s, was)) && s@ == p && was == has_prefix(ciphertext@, string_prefix()),
                Err(f) => r matches Err(EncryptionError::OperationFailed(m)) && failure_message(f, m@, false),
            },
    {
        let was_encrypted = self.is_encrypted(ciphertext);
        match self.decrypt(ciphertext, user) {
            Ok(text) => Ok((text, was_encrypted)),
            Err(e) => Err(e),
        }
    }

    /// [`Self::decrypt_with_healing`] over an optional column: `None` stays `None`.
    pub fn decrypt_optional_with_healing(&self, ciphertext: Option<&str>, user: UserUuid) -> (r: Result<Option<(String, bool)>, EncryptionError>)
        ensures
            match ciphertext {
                None => r matches Ok(None),
                Some(c) => match decrypted_text(self.secret(), user, c@) {
                    Ok(p) => r matches Ok(Some((s, was))) && s@ == p && was == has_prefix(c@, string_prefix()),
                    Err(f) => r matches Err(EncryptionError::OperationFailed(m)) && failure_message(f, m@, false),
                },
            },
    {
        match ciphertext {
            Some(text) => match self.decrypt_with_healing(text, user) {
                Ok(v) => Ok(Some(v)),
                Err(e) => Err(e),
            },
            None => Ok(None),
        }
    }

    /// Encrypt a binary blob: `ENC\0` + nonce || ciphertext || tag under a fresh random nonce.
    /// Empty input returns empty; whatever it returns decrypts back to `data`.
    pub fn encrypt_data(&self, data: &[u8], user: UserUuid) -> (r: Result<Vec<u8>, EncryptionError>)
        ensures
            data@.len() == 0 ==> (r matches Ok(v) && v@ == data@),
            data@.len() != 0 ==> match r {
                Ok(v) => (exists|n: Seq<u8>| n.len() == 12
                    && v@ == #[trigger] binary_ciphertext(derived_key(self.secret(), user), n, data@))
                    && decrypted_data(self.secret(), user, v@) == Ok::<Seq<u8>, DecryptFailure>(data@),
                Err(e) => data@.len() > aead_max_plaintext()
                    && (e matches EncryptionError::OperationFailed(m) && m@ == "encrypt_data: aead::Error"@),
            },
            data@.len() > aead_max_plaintext() ==> r is Err,
    {
        if data.len() == 0 {
            return Ok(copy_bytes(data));
        }
        let key = self.derive_key(user);
        let nonce = random_nonce();
        match aead_seal(key.as_slice(), nonce.as_slice(), data) {
            Err(_) => Err(EncryptionError::OperationFailed("encrypt_data: aead::Error".to_owned())),
            Ok(ct) => {
                let mut out: Vec<u8> = vec![0x45u8, 0x4eu8, 0x43u8, 0x00u8];
                let mut n2 = nonce.clone();
                let mut c2 = ct.clone();
                out.append(&mut n2);
                out.append(&mut c2);
                proof {
                    assert(out@ =~= binary_header() + nonce@ + ct@);
                    assert(out@.take(4) =~= binary_header());
                    assert(out@.skip(4) =~= nonce@ + ct@);
                    assert(out@.skip(4).take(12) =~= nonce@);
                    assert(out@.skip(4).skip(12) =~= ct@);
                    assert(out@ == binary_ciphertext(derived_key(self.secret(), user), nonce@, data@));
                }
                Ok(out)
            },
        }
    }

    /// Decrypt a binary blob; input without the `ENC\0` header is returned unchanged.
    pub fn decrypt_data(&self, data: &[u8], user: UserUuid) -> (r: Result<Vec<u8>, EncryptionError>)
        ensures
            match decrypted_data(self.secret(), user, data@) {
                Ok(p) => r matches Ok(v) && v@ == p,
                Err(f) => r matches Err(EncryptionError::OperationFailed(m)) && failure_message(f, m@, true),
            },
    {
        if !self.is_data_encrypted(data) {
            return Ok(copy_bytes(data));
        }
        let key = self.derive_key(user);
        let combined = copy_range(data, 4, data.len());
        proof {
            assert(combined@ =~= data@.skip(4));
        }
        if combined.len() < 12 {
            return Err(EncryptionError::OperationFailed("encrypted data too short".to_owned()));
        }
        let (nonce, payload) = split_nonce(&combined);
        match aead_open(key.as_slice(), nonce.as_slice(), payload.as_slice()) {
            None => Err(EncryptionError::OperationFailed("decrypt_data: aead::Error".to_owned())),
            Some(p) => Ok(p),
        }
    }
}

fn copy_range(data: &[u8], from: usize, to: usize) -> (r: Vec<u8>)
    requires
        from <= to <= data@.len(),
    ensures
        r@ == data@.subrange(from as int, to as int),
{
    let mut out: Vec<u8> = Vec::new();
    let mut i: usize = from;
    while i < to
        invariant
            from <= i <= to <= data@.len(),
            out@ == data@.subrange(from as int, i as int),
        decreases to - i,
    {
        out.push(data[i]);
        proof {
            assert(data@.subrange(from as int, i + 1) =~= data@.subrange(from as int, i as int).push(data@[i as int]));
        }
        i = i + 1;
    }
    out
}

fn copy_bytes(data: &[u8]) -> (r: Vec<u8>)
    ensures
        r@ == data@,
{
    let r = copy_range(data, 0, data.len());
    proof {
        assert(data@.subrange(0, data@.len() as int) =~= data@);
    }
    r
}

fn split_nonce(combined: &Vec<u8>) -> (r: (Vec<u8>, Vec<u8>))
    requires
        combined@.len() >= 12,
    ensures
        r.0@ == combined@.take(12),
        r.1@ == combined@.skip(12),
        r.0@.len() == 12,
{
    let a = copy_range(combined.as_slice(), 0, 12);
    let b = copy_range(combined.as_slice(), 12, combined.len());
    proof {
        assert(a@ =~= combined@.take(12));
        assert(b@ =~= combined@.skip(12));
    }
    (a, b)
}

/// `c` is what encrypting `p` for `user` under `secret` gives: `p` itself when empty, else an
/// `enc:` ciphertext of `p` under some 12-byte nonce, which decrypts back to `p`.
pub open spec fn sealed_text(secret: Seq<u8>, user: UserUuid, p: Seq<char>, c: Seq<char>) -> bool {
    if p.len() == 0 {
        c == p
    } else {
        &&& exists|n: Seq<u8>| n.len() == 12 && c == #[trigger] string_ciphertext(derived_key(secret, user), n, p)
        &&& decrypted_text(secret, user, c) == Ok::<Seq<char>, DecryptFailure>(p)
    }
}

/// `p` is too long to encrypt: its UTF-8 form exceeds what AES-GCM accepts.
pub open spec fn too_long_to_seal(p: Seq<char>) -> bool {
    p.len() != 0 && encode_utf8(p).len() > aead_max_plaintext()
}

/// Encrypt every plaintext for `user` in order, failing the whole batch on the first error
/// (a plaintext too long for AES-GCM).
pub fn encrypt_batch(encryption: &Encryption, plaintexts: &[String], user: UserUuid) -> (r: Result<
    Vec<String>,
    EncryptionError,
>)
    ensures
        match r {
            Ok(v) => v@.len() == plaintexts@.len() && forall|i: int|
                0 <= i < v@.len() ==> sealed_text(encryption.secret(), user, plaintexts@[i]@, (#[trigger] v@[i])@),
            Err(e) => (exists|i: int| 0 <= i < plaintexts@.len() && too_long_to_seal((#[trigger] plaintexts@[i])@))
                && (e matches EncryptionError::OperationFailed(m) && m@ == "encrypt: aead::Error"@),
        },
        (forall|i: int| 0 <= i < plaintexts@.len() ==> !too_long_to_seal((#[trigger] plaintexts@[i])@)) ==> r is Ok,
{
    let mut out: Vec<String> = Vec::new();
    let mut i: usize = 0;
    while i < plaintexts.len()
        invariant
            i <= plaintexts@.len(),
            out@.len() == i,
            forall|k: int| 0 <= k < i ==> sealed_text(encryption.secret(), user, plaintexts@[k]@, (#[trigger] out@[k])@),
        decreases plaintexts.len() - i,
    {
        match encryption.encrypt(plaintexts[i].as_str(), user) {
            Ok(c) => {
                out.push(c);
            },
            Err(e) => {
                proof {
                    assert(too_long_to_seal(plaintexts@[i as int]@));
                }
                return Err(e);
            },
        }
        i = i + 1;
    }
    Ok(out)
}

/// Decrypt every ciphertext for `user` in order; one that fails to decrypt gives `None` in
/// its slot while the rest still decrypt.
pub fn decrypt_batch(encryption: &Encryption, ciphertexts: &[String], user: UserUuid) -> (r: Vec<Option<String>>)
    ensures
        r@.len() == ciphertexts@.len(),
        forall|i: int| 0 <= i < r@.len() ==> match decrypted_text(encryption.secret(), user, ciphertexts@[i]@) {
            Ok(p) => (#[trigger] r@[i]) matches Some(s) && s@ == p,
            Err(_) => r@[i] is None,
        },
{
    let mut out: Vec<Option<String>> = Vec::new();
    let mut i: usize = 0;
    while i < ciphertexts.len()
        invariant
            i <= ciphertexts@.len(),
            out@.len() == i,
            forall|k: int| 0 <= k < i ==> match decrypted_text(encryption.secret(), user, ciphertexts@[k]@) {
                Ok(p) => (#[trigger] out@[k]) matches Some(s) && s@ == p,
                Err(_) => out@[k] is None,
            },
        decreases ciphertexts.len() - i,
    {
        let slot = match encryption.decrypt(ciphertexts[i].as_str(), user) {
            Ok(p) => Some(p),
            Err(_) => None,
        };
        out.push(slot);
        i = i + 1;
    }
    out
}

} // verus!
