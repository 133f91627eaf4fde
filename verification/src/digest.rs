//! Cryptographic primitives and encodings provided by outside crates.
//!
//! Each function here makes one outside call; its contract states what the
//! crate documents of that call. Results that take pages to define (a hash, a
//! MAC, a cipher) are given a name, which the rest of the library reasons with.
use vstd::prelude::*;
use aes_gcm::aead::{Aead, KeyInit, OsRng};
use aes_gcm::{AeadCore, Aes256Gcm, Key, Nonce};
use base64::engine::general_purpose::{STANDARD, URL_SAFE_NO_PAD};
use base64::Engine;
use hmac::{Hmac, Mac};
use sha2::{Digest, Sha256};

verus! {

/// HMAC-SHA-256 of `msg` under `key`.
pub uninterp spec fn hmac_sha256_spec(key: Seq<u8>, msg: Seq<u8>) -> Seq<u8>;

/// SHA-256 digest of `msg`.
pub uninterp spec fn sha256_spec(msg: Seq<u8>) -> Seq<u8>;

/// Standard (padded) base64 text of `bytes`.
pub uninterp spec fn base64_encode_spec(bytes: Seq<u8>) -> Seq<char>;

/// Standard base64 decoding of `text`; `None` when it is not valid base64.
pub uninterp spec fn base64_decode_spec(text: Seq<char>) -> Option<Seq<u8>>;

/// URL-safe base64 text of `bytes` without padding.
pub uninterp spec fn base64url_nopad_spec(bytes: Seq<u8>) -> Seq<char>;

/// AES-256-GCM sealing of `plaintext` under `key` and `nonce` (ciphertext followed by tag).
pub uninterp spec fn aes256gcm_seal_spec(key: Seq<u8>, nonce: Seq<u8>, plaintext: Seq<u8>) -> Option<Seq<u8>>;

/// AES-256-GCM opening of `sealed` under `key` and `nonce`; `None` when authentication fails.
pub uninterp spec fn aes256gcm_open_spec(key: Seq<u8>, nonce: Seq<u8>, sealed: Seq<u8>) -> Option<Seq<u8>>;

/// Whether `password` matches the bcrypt `hash`.
pub uninterp spec fn bcrypt_verify_spec(password: Seq<char>, hash: Seq<char>) -> bool;

/// The UTF-8 decoding of `bytes` in which every invalid sequence became U+FFFD.
pub uninterp spec fn utf8_lossy_spec(bytes: Seq<u8>) -> Seq<char>;

pub open spec fn hex_digit_lower(n: int) -> char {
    if n < 10 {
        (n + 48) as char
    } else {
        (n + 87) as char
    }
}

/// Lowercase hexadecimal spelling of `bytes`, two characters per byte.
pub open spec fn hex_lower(bytes: Seq<u8>) -> Seq<char> {
    Seq::new(
        2 * bytes.len(),
        |i: int|
            if i % 2 == 0 {
                hex_digit_lower(bytes[i / 2] as int / 16)
            } else {
                hex_digit_lower(bytes[i / 2] as int % 16)
            },
    )
}

pub open spec fn is_base64url_char(c: char) -> bool {
    ('A' <= c <= 'Z') || ('a' <= c <= 'z') || ('0' <= c <= '9') || c == '-' || c == '_'
}

/// The standard base64 alphabet, with the `=` padding.
pub open spec fn is_base64_char(c: char) -> bool {
    ('A' <= c <= 'Z') || ('a' <= c <= 'z') || ('0' <= c <= '9') || c == '+' || c == '/' || c == '='
}

pub open spec fn is_lower_hex_char(c: char) -> bool {
    ('0' <= c <= '9') || ('a' <= c <= 'f')
}

/// `Hmac::<Sha256>` over `msg` (`new_from_slice`, `update`, `finalize`): a 32-byte tag
/// named `hmac_sha256_spec`. HMAC takes keys of any length, so creation never fails.
#[verifier::external_body]
pub(crate) fn hmac_sha256(key: &[u8], msg: &[u8]) -> (tag: Vec<u8>)
    ensures
        tag@ == hmac_sha256_spec(key@, msg@),
        tag@.len() == 32,
{
    let mut mac = <Hmac<Sha256> as Mac>::new_from_slice(key).expect("HMAC accepts any key length");
    mac.update(msg);
    mac.finalize().into_bytes().to_vec()
}

/// `Sha256::digest`: the 32-byte digest named `sha256_spec`.
#[verifier::external_body]
pub(crate) fn sha256(msg: &[u8]) -> (digest: Vec<u8>)
    ensures
        digest@ == sha256_spec(msg@),
        digest@.len() == 32,
{
    Sha256::digest(msg).to_vec()
}

/// `hex::encode`: two lowercase hexadecimal digits per byte, most significant first.
#[verifier::external_body]
pub(crate) fn hex_encode(bytes: &[u8]) -> (text: String)
    ensures
        text@ == hex_lower(bytes@),
{
    hex::encode(bytes)
}

/// `STANDARD.encode`: padded base64 over `A-Z a-z 0-9 + /`, four characters for each
/// started group of three bytes, which `STANDARD.decode` reads back unchanged.
#[verifier::external_body]
pub(crate) fn base64_encode(bytes: &[u8]) -> (text: String)
    ensures
        text@ == base64_encode_spec(bytes@),
        base64_decode_spec(text@) == Some(bytes@),
        text@.len() == 4 * ((bytes@.len() + 2) / 3),
        forall|i: int| 0 <= i < text@.len() ==> is_base64_char(#[trigger] text@[i]),
{
    STANDARD.encode(bytes)
}

/// `STANDARD.decode`: `None` exactly when the text is not valid padded base64.
#[verifier::external_body]
pub(crate) fn base64_decode(text: &str) -> (bytes: Option<Vec<u8>>)
    ensures
        match bytes {
            Some(b) => base64_decode_spec(text@) == Some(b@),
            None => base64_decode_spec(text@) is None,
        },
{
    STANDARD.decode(text).ok()
}

/// `URL_SAFE_NO_PAD.encode`: unpadded base64 over the URL-safe alphabet, so
/// `ceil(4n / 3)` characters from `A-Z a-z 0-9 - _`.
#[verifier::external_body]
pub(crate) fn base64url_nopad_encode(bytes: &[u8]) -> (text: String)
    ensures
        text@ == base64url_nopad_spec(bytes@),
        text@.len() == (4 * bytes@.len() + 2) / 3,
        forall|i: int| 0 <= i < text@.len() ==> is_base64url_char(#[trigger] text@[i]),
{
    URL_SAFE_NO_PAD.encode(bytes)
}

/// `Aes256Gcm::generate_nonce(&mut OsRng)`: a fresh random 96-bit nonce.
#[verifier::external_body]
pub(crate) fn random_nonce() -> (nonce: Vec<u8>)
    ensures
        nonce@.len() == 12,
{
    Aes256Gcm::generate_nonce(&mut OsRng).to_vec()
}

/// `Aes256Gcm::encrypt` under a 32-byte key and 12-byte nonce. Sealing fails exactly for
/// plaintexts longer than GCM's limit of 2^36 bytes (`P_MAX`); otherwise the output is the
/// ciphertext followed by the 16-byte tag, and `decrypt` under the same key and nonce opens
/// it.
#[verifier::external_body]
pub(crate) fn aes256gcm_seal(key: &[u8], nonce: &[u8], plaintext: &[u8]) -> (sealed: Option<Vec<u8>>)
    requires
        key@.len() == 32,
        nonce@.len() == 12,
    ensures
        match sealed {
            Some(c) => {
                &&& aes256gcm_seal_spec(key@, nonce@, plaintext@) == Some(c@)
                &&& aes256gcm_open_spec(key@, nonce@, c@) == Some(plaintext@)
            },
            None => aes256gcm_seal_spec(key@, nonce@, plaintext@) is None,
        },
        sealed is Some <==> plaintext@.len() <= 0x10_0000_0000,
        sealed matches Some(c) ==> c@.len() == plaintext@.len() + 16,
{
    let cipher = Aes256Gcm::new(Key::<Aes256Gcm>::from_slice(key));
    cipher.encrypt(Nonce::from_slice(nonce), plaintext).ok()
}

/// `Aes256Gcm::decrypt` under a 32-byte key and 12-byte nonce.
#[verifier::external_body]
pub(crate) fn aes256gcm_open(key: &[u8], nonce: &[u8], sealed: &[u8]) -> (plain: Option<Vec<u8>>)
    requires
        key@.len() == 32,
        nonce@.len() == 12,
    ensures
        match plain {
            Some(p) => aes256gcm_open_spec(key@, nonce@, sealed@) == Some(p@),
            None => aes256gcm_open_spec(key@, nonce@, sealed@) is None,
        },
{
    let cipher = Aes256Gcm::new(Key::<Aes256Gcm>::from_slice(key));
    cipher.decrypt(Nonce::from_slice(nonce), sealed).ok()
}

/// `bcrypt::verify`: true exactly when it returns `Ok(true)`.
#[verifier::external_body]
pub(crate) fn bcrypt_verify(password: &str, hash: &str) -> (ok: bool)
    ensures
        ok == bcrypt_verify_spec(password@, hash@),
{
    matches!(bcrypt::verify(password, hash), Ok(true))
}

/// `bcrypt::hash(password, DEFAULT_COST)`: a hash under a fresh random salt, which
/// `bcrypt::verify` accepts for the same password (both read the password's first 72 bytes).
/// It fails only when no random salt can be had; the salt itself is not stated.
#[verifier::external_body]
pub(crate) fn bcrypt_hash(password: &str) -> (hash: Option<String>)
    ensures
        hash matches Some(h) ==> bcrypt_verify_spec(password@, h@),
{
    bcrypt::hash(password, bcrypt::DEFAULT_COST).ok()
}

/// `uuid::Uuid::new_v4().simple()`: 32 random lowercase hexadecimal digits.
#[verifier::external_body]
pub(crate) fn uuid_simple() -> (text: String)
    ensures
        text@.len() == 32,
        forall|i: int| 0 <= i < text@.len() ==> is_lower_hex_char(#[trigger] text@[i]),
{
    uuid::Uuid::new_v4().simple().to_string()
}

/// `uuid::Uuid::new_v4().into_bytes()`: sixteen random bytes.
#[verifier::external_body]
pub(crate) fn uuid_bytes() -> (bytes: [u8; 16]) {
    uuid::Uuid::new_v4().into_bytes()
}

/// `String::from_utf8`: the decoded text exactly when the bytes are valid UTF-8.
#[verifier::external_body]
pub(crate) fn string_from_utf8(bytes: Vec<u8>) -> (text: Option<String>)
    ensures
        match text {
            Some(s) => vstd::utf8::valid_utf8(bytes@) && s@ == vstd::utf8::decode_utf8(bytes@),
            None => !vstd::utf8::valid_utf8(bytes@),
        },
{
    String::from_utf8(bytes).ok()
}

/// `String::from_utf8_lossy`: valid UTF-8 decodes as itself.
#[verifier::external_body]
pub(crate) fn utf8_lossy(bytes: &[u8]) -> (text: String)
    ensures
        text@ == utf8_lossy_spec(bytes@),
        vstd::utf8::valid_utf8(bytes@) ==> text@ == vstd::utf8::decode_utf8(bytes@),
{
    String::from_utf8_lossy(bytes).into_owned()
}

} // verus!
