use base64::engine::general_purpose::STANDARD;
use base64::Engine;
use hookbot::crypto::{decrypt, encrypt};

const SECRET: [u8; 32] = [3u8; 32];

#[test]
fn round_trips() {
    let blob = encrypt(&SECRET, "hue-token-abc").unwrap();
    assert_eq!(decrypt(&SECRET, &blob).unwrap(), "hue-token-abc");
}

#[test]
fn ciphertext_does_not_contain_the_plaintext() {
    let blob = encrypt(&SECRET, "hue-token-abc").unwrap();
    assert!(!blob.contains("hue-token-abc"));
}

#[test]
fn a_different_key_cannot_decrypt() {
    let blob = encrypt(&SECRET, "hue-token-abc").unwrap();
    assert!(decrypt(&[9u8; 32], &blob).is_err());
}

#[test]
fn tampering_is_detected() {
    let blob = encrypt(&SECRET, "hue-token-abc").unwrap();
    let mut raw = STANDARD.decode(&blob).unwrap();
    let last = raw.len() - 1;
    raw[last] ^= 0xff;
    assert!(decrypt(&SECRET, &STANDARD.encode(raw)).is_err());
}

#[test]
fn same_plaintext_encrypts_differently_each_time() {
    let a = encrypt(&SECRET, "same").unwrap();
    let b = encrypt(&SECRET, "same").unwrap();
    assert_ne!(a, b);
}

#[test]
fn decrypt_names_each_failure() {
    assert_eq!(decrypt(&SECRET, "%%%").unwrap_err(), "not valid base64");
    assert_eq!(decrypt(&SECRET, &STANDARD.encode([1u8; 5])).unwrap_err(), "ciphertext too short");
    let blob = encrypt(&SECRET, "x").unwrap();
    assert_eq!(decrypt(&[0u8; 32], &blob).unwrap_err(), "decryption failed \u{2014} wrong key or tampered data");
}

#[test]
fn blob_is_nonce_and_tagged_ciphertext_in_standard_base64() {
    let blob = encrypt(&SECRET, "hue-token-abc").unwrap();
    let raw = STANDARD.decode(&blob).unwrap();
    assert_eq!(raw.len(), 12 + "hue-token-abc".len() + 16);
    assert_eq!(blob.len(), 4 * ((raw.len() + 2) / 3));
}
