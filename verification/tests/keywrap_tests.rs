use base64::engine::general_purpose::STANDARD as B64;
use base64::Engine;
use envelope_keys::errors::{kw_error_to_api, ApiError};
use envelope_keys::keywrap::{decode_master_key_b64, unwrap_key_v1, wrap_key_v1, KwError};

fn fixture_master_key() -> envelope_keys::keywrap::MasterKey {
    let secret = B64.encode([7u8; 32]);
    match decode_master_key_b64(&secret) {
        Ok(mk) => mk,
        Err(_) => panic!("fixture secret must decode"),
    }
}

#[test]
fn wrap_then_unwrap_returns_the_key() {
    let mk = fixture_master_key();
    let dk: Vec<u8> = (0u8..32).collect();
    let blob = wrap_key_v1(&mk, &dk);
    match unwrap_key_v1(&mk, &blob) {
        Ok(back) => assert_eq!(back, dk),
        Err(_) => panic!("unwrap of a fresh wrap must succeed"),
    }
}

#[test]
fn wrapped_blob_decodes_to_sixty_bytes() {
    let mk = fixture_master_key();
    let dk = vec![9u8; 32];
    let blob = wrap_key_v1(&mk, &dk);
    let raw = match B64.decode(&blob) {
        Ok(r) => r,
        Err(_) => panic!("wrapped blob must be valid base64"),
    };
    assert_eq!(raw.len(), 12 + 32 + 16);
}

#[test]
fn two_wraps_of_one_key_differ() {
    let mk = fixture_master_key();
    let dk = vec![1u8; 32];
    let a = wrap_key_v1(&mk, &dk);
    let b = wrap_key_v1(&mk, &dk);
    assert_ne!(a, b);
}

#[test]
fn flipping_any_ciphertext_or_tag_bit_breaks_unwrap() {
    let mk = fixture_master_key();
    let dk: Vec<u8> = (100u8..132).collect();
    let blob = wrap_key_v1(&mk, &dk);
    let raw = match B64.decode(&blob) {
        Ok(r) => r,
        Err(_) => panic!("wrapped blob must be valid base64"),
    };
    for byte in 12..raw.len() {
        for bit in 0..8 {
            let mut tampered = raw.clone();
            tampered[byte] ^= 1u8 << bit;
            let tampered_b64 = B64.encode(&tampered);
            match unwrap_key_v1(&mk, &tampered_b64) {
                Ok(_) => panic!("tampered blob must not unwrap"),
                Err(KwError::Crypto) => {}
                Err(_) => panic!("tampering must surface as the crypto error"),
            }
        }
    }
}

#[test]
fn unwrap_rejects_bad_base64_and_short_blobs() {
    let mk = fixture_master_key();
    assert!(matches!(unwrap_key_v1(&mk, "not base64!!"), Err(KwError::B64(_))));
    let short = B64.encode([0u8; 20]);
    assert!(matches!(unwrap_key_v1(&mk, &short), Err(KwError::Crypto)));
}

#[test]
fn master_key_must_be_exactly_256_bits() {
    let short = B64.encode([1u8; 16]);
    assert!(matches!(decode_master_key_b64(&short), Err(KwError::MasterKeyLen)));
    let long = B64.encode([1u8; 48]);
    assert!(matches!(decode_master_key_b64(&long), Err(KwError::MasterKeyLen)));
    assert!(matches!(decode_master_key_b64("***"), Err(KwError::B64(_))));
    assert!(decode_master_key_b64(&B64.encode([1u8; 32])).is_ok());
}

#[test]
fn kw_errors_map_into_the_public_taxonomy() {
    assert!(matches!(kw_error_to_api(KwError::MasterKeyLen), ApiError::MasterKeyUnavailable));
    assert!(matches!(kw_error_to_api(KwError::Crypto), ApiError::WrapIntegrityFailure));
    assert!(matches!(
        kw_error_to_api(KwError::B64(String::new())),
        ApiError::WrapIntegrityFailure
    ));
}
