use base64::engine::general_purpose::STANDARD as B64;
use base64::Engine;
use envelope_keys::aes::{decode_key_32_from_b64, decrypt_aes256_gcm, encrypt_aes256_gcm, AesError};

fn fixture_key() -> Vec<u8> {
    vec![42u8; 32]
}

#[test]
fn seal_then_open_returns_the_plaintext() {
    let key = fixture_key();
    let plaintext = b"attack at dawn".to_vec();
    let (iv, ct, tag) = match encrypt_aes256_gcm(&key, &plaintext) {
        Ok(t) => t,
        Err(_) => panic!("encryption of a small payload must succeed"),
    };
    match decrypt_aes256_gcm(&key, &iv, &ct, &tag) {
        Ok(back) => assert_eq!(back, plaintext),
        Err(_) => panic!("decryption of a fresh seal must succeed"),
    }
}

#[test]
fn ciphertext_is_not_the_plaintext() {
    let key = fixture_key();
    let plaintext = b"0123456789abcdef".to_vec();
    let (_iv, ct, _tag) = match encrypt_aes256_gcm(&key, &plaintext) {
        Ok(t) => t,
        Err(_) => panic!("encryption must succeed"),
    };
    let raw_ct = match B64.decode(&ct) {
        Ok(r) => r,
        Err(_) => panic!("ciphertext must be valid base64"),
    };
    assert_eq!(raw_ct.len(), plaintext.len());
    assert_ne!(raw_ct, plaintext);
}

#[test]
fn flipping_any_tag_bit_breaks_open() {
    let key = fixture_key();
    let plaintext = b"integrity matters".to_vec();
    let (iv, ct, tag) = match encrypt_aes256_gcm(&key, &plaintext) {
        Ok(t) => t,
        Err(_) => panic!("encryption must succeed"),
    };
    let raw_tag = match B64.decode(&tag) {
        Ok(r) => r,
        Err(_) => panic!("tag must be valid base64"),
    };
    assert_eq!(raw_tag.len(), 16);
    for byte in 0..raw_tag.len() {
        for bit in 0..8 {
            let mut tampered = raw_tag.clone();
            tampered[byte] ^= 1u8 << bit;
            let tampered_b64 = B64.encode(&tampered);
            assert!(matches!(
                decrypt_aes256_gcm(&key, &iv, &ct, &tampered_b64),
                Err(AesError::Crypto)
            ));
        }
    }
}

#[test]
fn open_rejects_malformed_pieces() {
    let key = fixture_key();
    let plaintext = b"x".to_vec();
    let (iv, ct, tag) = match encrypt_aes256_gcm(&key, &plaintext) {
        Ok(t) => t,
        Err(_) => panic!("encryption must succeed"),
    };
    assert!(matches!(decrypt_aes256_gcm(&key, "@@", &ct, &tag), Err(AesError::B64(_))));
    assert!(matches!(decrypt_aes256_gcm(&key, &iv, "@@", &tag), Err(AesError::B64(_))));
    assert!(matches!(decrypt_aes256_gcm(&key, &iv, &ct, "@@"), Err(AesError::B64(_))));
    let short_iv = B64.encode([0u8; 5]);
    assert!(matches!(decrypt_aes256_gcm(&key, &short_iv, &ct, &tag), Err(AesError::Crypto)));
    let short_tag = B64.encode([0u8; 8]);
    assert!(matches!(decrypt_aes256_gcm(&key, &iv, &ct, &short_tag), Err(AesError::Crypto)));
}

#[test]
fn key_text_must_decode_to_exactly_32_bytes() {
    let good = B64.encode([3u8; 32]);
    match decode_key_32_from_b64(&good) {
        Ok(k) => assert_eq!(k, vec![3u8; 32]),
        Err(_) => panic!("a 32-byte key text must decode"),
    }
    let short = B64.encode([3u8; 31]);
    assert!(matches!(decode_key_32_from_b64(&short), Err(AesError::BadKey)));
    assert!(matches!(decode_key_32_from_b64("!!"), Err(AesError::B64(_))));
}
