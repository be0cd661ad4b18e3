use base64::engine::general_purpose::STANDARD as B64;
use base64::Engine;
use envelope_keys::api::{decrypt, encrypt, rotate_key};
use envelope_keys::claims::Claims;
use envelope_keys::dto::{DecIn, TextIn};
use envelope_keys::errors::ApiError;
use envelope_keys::keys::{ensure_active_key, KeyTable};
use envelope_keys::keywrap::{decode_master_key_b64, MasterKey};

fn fixture_master_key() -> MasterKey {
    let secret = B64.encode([7u8; 32]);
    match decode_master_key_b64(&secret) {
        Ok(mk) => mk,
        Err(_) => panic!("fixture secret must decode"),
    }
}

fn text(s: &str) -> TextIn {
    TextIn { text: s.to_owned() }
}

#[test]
fn encrypt_then_decrypt_round_trips() {
    let mk = fixture_master_key();
    let mut t = KeyTable::new();
    let alice = Claims { sub: 1 };
    let out = match encrypt(&mut t, &mk, &alice, &text("hello")) {
        Ok(o) => o,
        Err(_) => panic!("encrypt of a small payload must succeed"),
    };
    assert_eq!(out.scheme, "AES-256-GCM");
    assert_eq!(out.version, 1);
    let input = DecIn {
        iv: out.iv.clone(),
        ct: out.ct.clone(),
        tag: out.tag.clone(),
        version: Some(1),
        key_id: None,
    };
    match decrypt(&mut t, &mk, &alice, &input) {
        Ok(pt) => assert_eq!(pt, b"hello".to_vec()),
        Err(_) => panic!("decrypt under the same identity must succeed"),
    }
}

#[test]
fn decrypt_under_another_tenants_key_fails_opaquely() {
    let mk = fixture_master_key();
    let mut t = KeyTable::new();
    let alice = Claims { sub: 1 };
    let bob = Claims { sub: 2 };
    let out = match encrypt(&mut t, &mk, &alice, &text("for alice only")) {
        Ok(o) => o,
        Err(_) => panic!("encrypt must succeed"),
    };
    match ensure_active_key(&mut t, &mk, &bob, "DATA") {
        Ok(_) => {}
        Err(_) => panic!("bob must get his own key"),
    }
    let input = DecIn {
        iv: out.iv.clone(),
        ct: out.ct.clone(),
        tag: out.tag.clone(),
        version: Some(1),
        key_id: None,
    };
    assert!(matches!(decrypt(&mut t, &mk, &bob, &input), Err(ApiError::DecryptionFailed)));
}

#[test]
fn decrypt_with_a_foreign_key_id_is_not_found() {
    let mk = fixture_master_key();
    let mut t = KeyTable::new();
    let alice = Claims { sub: 1 };
    let bob = Claims { sub: 2 };
    let out = match encrypt(&mut t, &mk, &alice, &text("secret")) {
        Ok(o) => o,
        Err(_) => panic!("encrypt must succeed"),
    };
    let input = DecIn {
        iv: out.iv,
        ct: out.ct,
        tag: out.tag,
        version: Some(1),
        key_id: Some(out.key_id),
    };
    assert!(matches!(decrypt(&mut t, &mk, &bob, &input), Err(ApiError::NotFound)));
}

#[test]
fn decrypt_requires_all_three_pieces() {
    let mk = fixture_master_key();
    let mut t = KeyTable::new();
    let alice = Claims { sub: 1 };
    let input = DecIn {
        iv: String::new(),
        ct: "QUJD".to_owned(),
        tag: "QUJD".to_owned(),
        version: None,
        key_id: None,
    };
    assert!(matches!(decrypt(&mut t, &mk, &alice, &input), Err(ApiError::ValidationError)));
}

#[test]
fn encrypt_enforces_the_size_window() {
    let mk = fixture_master_key();
    let mut t = KeyTable::new();
    let alice = Claims { sub: 1 };
    assert!(matches!(
        encrypt(&mut t, &mk, &alice, &text("")),
        Err(ApiError::ValidationError)
    ));
    let too_large = "a".repeat(1_000_001);
    assert!(matches!(
        encrypt(&mut t, &mk, &alice, &text(&too_large)),
        Err(ApiError::PayloadTooLarge)
    ));
    let at_limit = "a".repeat(1_000_000);
    assert!(encrypt(&mut t, &mk, &alice, &text(&at_limit)).is_ok());
}

#[test]
fn rotation_retires_the_old_key_and_mints_a_new_one() {
    let mk = fixture_master_key();
    let mut t = KeyTable::new();
    let alice = Claims { sub: 1 };
    let (old_id, _) = match ensure_active_key(&mut t, &mk, &alice, "DATA") {
        Ok(p) => p,
        Err(_) => panic!("ensure must mint"),
    };
    let rotated = match rotate_key(&mut t, &mk, &alice) {
        Ok(r) => r,
        Err(_) => panic!("rotation must succeed"),
    };
    assert_ne!(rotated.new_key_id, old_id);
    for row in t.rows.iter() {
        if row.id == old_id {
            assert!(row.retired_at.is_some());
        }
    }
    let (ensured_id, _) = match ensure_active_key(&mut t, &mk, &alice, "DATA") {
        Ok(p) => p,
        Err(_) => panic!("ensure after rotation must find the new key"),
    };
    assert_eq!(ensured_id, rotated.new_key_id);
}

#[test]
fn old_payloads_decrypt_by_explicit_key_id_after_rotation() {
    let mk = fixture_master_key();
    let mut t = KeyTable::new();
    let alice = Claims { sub: 1 };
    let out = match encrypt(&mut t, &mk, &alice, &text("old payload")) {
        Ok(o) => o,
        Err(_) => panic!("encrypt must succeed"),
    };
    match rotate_key(&mut t, &mk, &alice) {
        Ok(_) => {}
        Err(_) => panic!("rotation must succeed"),
    }
    let input = DecIn {
        iv: out.iv,
        ct: out.ct,
        tag: out.tag,
        version: Some(1),
        key_id: Some(out.key_id),
    };
    match decrypt(&mut t, &mk, &alice, &input) {
        Ok(pt) => assert_eq!(pt, b"old payload".to_vec()),
        Err(_) => panic!("the retired key must still decrypt by id"),
    }
}
