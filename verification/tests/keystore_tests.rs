use base64::engine::general_purpose::STANDARD as B64;
use base64::Engine;
use envelope_keys::claims::Claims;
use envelope_keys::errors::ApiError;
use envelope_keys::keys::{
    create_shared_key, create_user_key, ensure_active_key, get_active_key, get_key_by_id,
    retire_active, KeyTable,
};
use envelope_keys::keywrap::{decode_master_key_b64, MasterKey};

fn fixture_master_key() -> MasterKey {
    let secret = B64.encode([7u8; 32]);
    match decode_master_key_b64(&secret) {
        Ok(mk) => mk,
        Err(_) => panic!("fixture secret must decode"),
    }
}

#[test]
fn ensure_active_twice_returns_the_same_key() {
    let mk = fixture_master_key();
    let mut t = KeyTable::new();
    let alice = Claims { sub: 1 };
    let (id1, dk1) = match ensure_active_key(&mut t, &mk, &alice, "DATA") {
        Ok(p) => p,
        Err(_) => panic!("first ensure must mint"),
    };
    let (id2, dk2) = match ensure_active_key(&mut t, &mk, &alice, "DATA") {
        Ok(p) => p,
        Err(_) => panic!("second ensure must find"),
    };
    assert_eq!(id1, id2);
    assert_eq!(dk1, dk2);
    assert_eq!(t.rows.len(), 1);
}

#[test]
fn minting_is_conditional_and_convergent() {
    let mk = fixture_master_key();
    let mut t = KeyTable::new();
    let alice = Claims { sub: 1 };
    for _ in 0..5 {
        match ensure_active_key(&mut t, &mk, &alice, "DATA") {
            Ok(_) => {}
            Err(_) => panic!("ensure must succeed"),
        }
    }
    let active: Vec<&envelope_keys::keys::KeyRow> = t
        .rows
        .iter()
        .filter(|r| r.user_id == Some(1) && r.purpose == "DATA" && r.retired_at.is_none())
        .collect();
    assert_eq!(active.len(), 1);
    assert!(matches!(
        create_user_key(&mut t, &mk, &alice, "DATA"),
        Err(ApiError::AlreadyActive)
    ));
}

#[test]
fn tenant_owned_key_is_preferred_over_shared() {
    let mk = fixture_master_key();
    let mut t = KeyTable::new();
    let alice = Claims { sub: 1 };
    let shared_id = match create_shared_key(&mut t, &mk, "DATA") {
        Ok(id) => id,
        Err(_) => panic!("seeding a shared key must succeed"),
    };
    let (found_id, _) = match ensure_active_key(&mut t, &mk, &alice, "DATA") {
        Ok(p) => p,
        Err(_) => panic!("ensure must find the shared key"),
    };
    assert_eq!(found_id, shared_id);
    let owned_id = match create_user_key(&mut t, &mk, &alice, "DATA") {
        Ok(id) => id,
        Err(_) => panic!("minting an owned key must succeed"),
    };
    let selected = match get_active_key(&t, &alice, "DATA") {
        Some(rec) => rec,
        None => panic!("an active key must be visible"),
    };
    assert_eq!(selected.id, owned_id);
    assert_ne!(owned_id, shared_id);
}

#[test]
fn shared_key_is_visible_to_every_tenant_by_id() {
    let mk = fixture_master_key();
    let mut t = KeyTable::new();
    let shared_id = match create_shared_key(&mut t, &mk, "DATA") {
        Ok(id) => id,
        Err(_) => panic!("seeding a shared key must succeed"),
    };
    let alice = Claims { sub: 1 };
    let bob = Claims { sub: 2 };
    assert!(get_key_by_id(&t, &mk, &alice, shared_id).is_ok());
    assert!(get_key_by_id(&t, &mk, &bob, shared_id).is_ok());
}

#[test]
fn purposes_keep_separate_keys() {
    let mk = fixture_master_key();
    let mut t = KeyTable::new();
    let alice = Claims { sub: 1 };
    let (data_id, data_key) = match ensure_active_key(&mut t, &mk, &alice, "DATA") {
        Ok(p) => p,
        Err(_) => panic!("ensure must mint"),
    };
    let (other_id, other_key) = match ensure_active_key(&mut t, &mk, &alice, "BACKUP") {
        Ok(p) => p,
        Err(_) => panic!("ensure must mint for the other purpose"),
    };
    assert_ne!(data_id, other_id);
    assert_ne!(data_key, other_key);
    assert!(get_active_key(&t, &alice, "MISSING").is_none());
}

#[test]
fn foreign_key_id_is_not_found() {
    let mk = fixture_master_key();
    let mut t = KeyTable::new();
    let alice = Claims { sub: 1 };
    let bob = Claims { sub: 2 };
    let (alice_id, _) = match ensure_active_key(&mut t, &mk, &alice, "DATA") {
        Ok(p) => p,
        Err(_) => panic!("ensure must mint"),
    };
    assert!(get_key_by_id(&t, &mk, &alice, alice_id).is_ok());
    assert!(matches!(get_key_by_id(&t, &mk, &bob, alice_id), Err(ApiError::NotFound)));
    assert!(matches!(get_key_by_id(&t, &mk, &alice, 999), Err(ApiError::NotFound)));
}

#[test]
fn retire_stamps_only_the_callers_active_rows() {
    let mk = fixture_master_key();
    let mut t = KeyTable::new();
    let alice = Claims { sub: 1 };
    let bob = Claims { sub: 2 };
    let (alice_id, _) = match ensure_active_key(&mut t, &mk, &alice, "DATA") {
        Ok(p) => p,
        Err(_) => panic!("ensure must mint"),
    };
    let (bob_id, _) = match ensure_active_key(&mut t, &mk, &bob, "DATA") {
        Ok(p) => p,
        Err(_) => panic!("ensure must mint"),
    };
    retire_active(&mut t, &alice, "DATA");
    for row in t.rows.iter() {
        if row.id == alice_id {
            assert!(row.retired_at.is_some());
        }
        if row.id == bob_id {
            assert!(row.retired_at.is_none());
        }
    }
    let retired_key = match get_key_by_id(&t, &mk, &alice, alice_id) {
        Ok(k) => k,
        Err(_) => panic!("a retired key stays fetchable by id"),
    };
    assert_eq!(retired_key.len(), 32);
}
