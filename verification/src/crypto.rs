//! Encryption for third-party credentials held at rest.
//!
//! Tokens the server must replay to an outside service cannot be hashed, so
//! they are sealed with AES-256-GCM under a key derived from the session
//! secret. The stored form is `base64(nonce || ciphertext)`.
use vstd::prelude::*;
use vstd::utf8::{decode_utf8, encode_utf8, valid_utf8};
use crate::digest::{
    aes256gcm_open, aes256gcm_open_spec, aes256gcm_seal, aes256gcm_seal_spec, base64_decode,
    base64_decode_spec, base64_encode, base64_encode_spec, is_base64_char, random_nonce, sha256, sha256_spec,
    string_from_utf8,
};

verus! {

broadcast use vstd::string::group_string_axioms;

/// The label mixed into the key derivation, so that this use of the session
/// secret stays apart from every other.
pub open spec fn at_rest_label() -> Seq<char> {
    "hookbot:secret-at-rest:v1"@
}

/// The AES key: SHA-256 of the label followed by the secret.
pub open spec fn at_rest_key(secret: Seq<u8>) -> Seq<u8> {
    sha256_spec(encode_utf8(at_rest_label()) + secret)
}

/// What `decrypt` returns for a stored blob.
pub open spec fn decrypt_spec(secret: Seq<u8>, blob: Seq<char>) -> Result<Seq<char>, Seq<char>> {
    match base64_decode_spec(blob) {
        None => Err("not valid base64"@),
        Some(raw) => if raw.len() < 12 {
            Err("ciphertext too short"@)
        } else {
            match aes256gcm_open_spec(at_rest_key(secret), raw.take(12), raw.skip(12)) {
                None => Err("decryption failed — wrong key or tampered data"@),
                Some(plain) => if valid_utf8(plain) {
                    Ok(decode_utf8(plain))
                } else {
                    Err("decrypted value is not UTF-8"@)
                },
            }
        },
    }
}

pub open spec fn result_view(r: Result<String, String>) -> Result<Seq<char>, Seq<char>> {
    match r {
        Ok(s) => Ok(s@),
        Err(e) => Err(e@),
    }
}

/// Appends `b` to `out`.
pub fn append_bytes(out: &mut Vec<u8>, b: &[u8])
    ensures
        final(out)@ == old(out)@ + b@,
{
    let mut i: usize = 0;
    while i < b.len()
        invariant
            i <= b@.len(),
            out@ == old(out)@ + b@.take(i as int),
        decreases b@.len() - i,
    {
        out.push(b[i]);
        assert(b@.take(i + 1) =~= b@.take(i as int).push(b@[i as int]));
        i = i + 1;
    }
    assert(b@.take(b@.len() as int) =~= b@);
}

/// Derives the AES key for secrets at rest.
fn cipher_key(secret: &[u8; 32]) -> (key: Vec<u8>)
    ensures
        key@ == at_rest_key(secret@),
        key@.len() == 32,
{
    let label = "hookbot:secret-at-rest:v1";
    let mut msg: Vec<u8> = Vec::new();
    append_bytes(&mut msg, label.as_bytes());
    append_bytes(&mut msg, secret.as_slice());
    assert(msg@ =~= encode_utf8(at_rest_label()) + secret@);
    sha256(msg.as_slice())
}

/// Seals `plaintext` under a fresh random nonce and returns `base64(nonce || ciphertext)`;
/// it fails only for a plaintext beyond GCM's 2^36-byte limit.
pub fn encrypt(secret: &[u8; 32], plaintext: &str) -> (res: Result<String, String>)
    ensures
        match res {
            Ok(blob) => {
                &&& decrypt_spec(secret@, blob@) == Ok::<Seq<char>, Seq<char>>(plaintext@)
                &&& exists|n: Seq<u8>, c: Seq<u8>|
                    n.len() == 12 && aes256gcm_seal_spec(at_rest_key(secret@), n, encode_utf8(plaintext@))
                        == Some(c) && c.len() == encode_utf8(plaintext@).len() + 16 && blob@
                        == base64_encode_spec(n + c)
                &&& blob@.len() == 4 * ((encode_utf8(plaintext@).len() + 28 + 2) / 3)
                &&& forall|i: int| 0 <= i < blob@.len() ==> is_base64_char(#[trigger] blob@[i])
            },
            Err(e) => {
                &&& encode_utf8(plaintext@).len() > 0x10_0000_0000
                &&& e@ == "encryption failed"@
                &&& exists|n: Seq<u8>|
                    n.len() == 12 && aes256gcm_seal_spec(at_rest_key(secret@), n, encode_utf8(plaintext@)) is None
            },
        },
{
    let nonce = random_nonce();
    let key = cipher_key(secret);
    let sealed = aes256gcm_seal(key.as_slice(), nonce.as_slice(), plaintext.as_bytes());
    match sealed {
        None => Err("encryption failed".to_string()),
        Some(ct) => {
            let mut blob: Vec<u8> = Vec::new();
            append_bytes(&mut blob, nonce.as_slice());
            append_bytes(&mut blob, ct.as_slice());
            let text = base64_encode(blob.as_slice());
            proof {
                assert(blob@ =~= nonce@ + ct@);
                assert(blob@.take(12) =~= nonce@);
                assert(blob@.skip(12) =~= ct@);
                vstd::utf8::encode_utf8_valid_utf8(plaintext@);
                vstd::utf8::encode_utf8_decode_utf8(plaintext@);
            }
            Ok(text)
        },
    }
}

/// Opens a blob produced by `encrypt`.
pub fn decrypt(secret: &[u8; 32], blob: &str) -> (res: Result<String, String>)
    ensures
        result_view(res) == decrypt_spec(secret@, blob@),
{
    let raw = match base64_decode(blob) {
        Some(r) => r,
        None => return Err("not valid base64".to_string()),
    };
    if raw.len() < 12 {
        return Err("ciphertext too short".to_string());
    }
    let (nonce, ct) = raw.as_slice().split_at(12);
    assert(nonce@ =~= raw@.take(12));
    assert(ct@ =~= raw@.skip(12));
    let key = cipher_key(secret);
    let plain = match aes256gcm_open(key.as_slice(), nonce, ct) {
        Some(p) => p,
        None => return Err("decryption failed — wrong key or tampered data".to_string()),
    };
    match string_from_utf8(plain) {
        Some(s) => Ok(s),
        None => Err("decrypted value is not UTF-8".to_string()),
    }
}

} // verus!
