//! The encryption of webhook tokens at rest.

use base64::Engine;
use control_plane::a2a::push_crypto::{
    decrypt, encrypt, encrypt_with_draw, encrypt_with_nonce, Key,
};

fn key_a() -> Key {
    Key::from_bytes(&[7u8; 32]).unwrap()
}

fn key_b() -> Key {
    Key::from_bytes(&[9u8; 32]).unwrap()
}

#[test]
fn round_trips_plaintext() {
    let key = key_a();
    for plaintext in [
        "",
        "s3cr3t",
        "a longer webhook bearer token with symbols !@#$%^&*()",
    ] {
        let ct = encrypt(plaintext.as_bytes(), &key).unwrap();
        assert_eq!(decrypt(&ct, &key).as_deref(), Some(plaintext));
    }
}

#[test]
fn two_encryptions_of_same_plaintext_differ() {
    // A fresh random nonce per call ⇒ the ciphertexts (and the prepended nonces) differ, so the
    // stored bytes never reveal that two configs carry the same token.
    let key = key_a();
    let a = encrypt(b"same-token", &key).unwrap();
    let b = encrypt(b"same-token", &key).unwrap();
    assert_ne!(a, b, "random nonce must make repeated encryptions differ");
    // …yet both still decrypt to the original.
    assert_eq!(decrypt(&a, &key).as_deref(), Some("same-token"));
    assert_eq!(decrypt(&b, &key).as_deref(), Some("same-token"));
}

#[test]
fn wrong_key_fails_to_decrypt() {
    let ct = encrypt(b"s3cr3t", &key_a()).unwrap();
    assert!(
        decrypt(&ct, &key_b()).is_none(),
        "a different key must not decrypt (tag verify fails), and must not panic"
    );
}

#[test]
fn truncated_ciphertext_returns_none() {
    let key = key_a();
    let ct = encrypt(b"s3cr3t", &key).unwrap();
    // Every truncation — including below the nonce+tag floor — is None, never a panic.
    for cut in 0..ct.len() {
        assert!(
            decrypt(&ct[..cut], &key).is_none(),
            "truncation to {cut} bytes must be rejected"
        );
    }
}

#[test]
fn tampered_ciphertext_returns_none() {
    let key = key_a();
    let mut ct = encrypt(b"s3cr3t", &key).unwrap();
    // Flip a bit inside the ciphertext body (past the 12-byte nonce) — the tag verify must fail.
    let last = ct.len() - 1;
    ct[last] ^= 0x01;
    assert!(decrypt(&ct, &key).is_none(), "a flipped tag byte must fail");

    // Flip a bit inside the nonce — decrypts against the wrong nonce, tag verify fails.
    let mut ct2 = encrypt(b"s3cr3t", &key).unwrap();
    ct2[0] ^= 0x01;
    assert!(
        decrypt(&ct2, &key).is_none(),
        "a corrupted nonce must fail, not panic"
    );
}

#[test]
fn key_from_bytes_rejects_wrong_length() {
    assert!(
        Key::from_bytes(&[0u8; 31]).is_none(),
        "31 bytes is too short"
    );
    assert!(
        Key::from_bytes(&[0u8; 33]).is_none(),
        "33 bytes is too long"
    );
    assert!(Key::from_bytes(&[0u8; 32]).is_some(), "32 bytes is exact");
}

#[test]
fn key_from_base64_round_trips_and_rejects_garbage() {
    let raw = [3u8; 32];
    let encoded = base64::engine::general_purpose::STANDARD.encode(raw);
    let key = Key::from_base64(&encoded).expect("valid 32-byte base64 key");
    // The decoded key actually works end-to-end.
    let ct = encrypt(b"hello", &key).unwrap();
    assert_eq!(decrypt(&ct, &key).as_deref(), Some("hello"));

    // Surrounding whitespace (a trailing newline from an env/secret file) is tolerated.
    assert!(Key::from_base64(&format!("  {encoded}\n")).is_some());

    // Not base64, and valid base64 of the wrong length, both fail closed.
    assert!(Key::from_base64("not base64!!!").is_none());
    let short = base64::engine::general_purpose::STANDARD.encode([1u8; 16]);
    assert!(
        Key::from_base64(&short).is_none(),
        "16-byte key material must be rejected"
    );
}

#[test]
fn a_sealed_token_starts_with_its_nonce() {
    let key = key_a();
    let sealed = encrypt_with_nonce(b"s3cr3t", &key, [5u8; 12]);
    assert_eq!(&sealed[..12], &[5u8; 12]);
    // Nonce, ciphertext and tag.
    assert_eq!(sealed.len(), 12 + 6 + 16);
    assert_ne!(&sealed[12..18], b"s3cr3t");
    assert_eq!(decrypt(&sealed, &key).as_deref(), Some("s3cr3t"));
    assert_eq!(sealed, encrypt_with_nonce(b"s3cr3t", &key, [5u8; 12]));
}

#[test]
fn plaintext_that_is_no_text_does_not_open() {
    let key = key_a();
    let sealed = encrypt_with_nonce(&[0xff, 0xfe], &key, [1u8; 12]);
    assert!(decrypt(&sealed, &key).is_none());
}

#[test]
fn nothing_is_encrypted_without_a_nonce() {
    let key = key_a();
    assert_eq!(encrypt_with_draw(b"s3cr3t", &key, None), None);
    let stored = encrypt_with_draw(b"s3cr3t", &key, Some([5u8; 12])).unwrap();
    assert_eq!(stored[..12], [5u8; 12]);
    assert_eq!(stored, encrypt_with_nonce(b"s3cr3t", &key, [5u8; 12]));
    assert_eq!(decrypt(&stored, &key).as_deref(), Some("s3cr3t"));
}
