use envelope_keys::claims::Claims;
use envelope_keys::errors::ApiError;
use envelope_keys::history::{delete_history, list_history, save_history, ListQuery};
use envelope_keys::dto::SaveHistoryIn;
use envelope_keys::ops::{insert_operation, list_operations, ListParams, OpsTable};

fn entry(kind: &str, algo: &str) -> SaveHistoryIn {
    SaveHistoryIn {
        kind: kind.to_owned(),
        algo: algo.to_owned(),
        meta_json: "{}".to_owned(),
        took_ms: None,
    }
}

#[test]
fn listing_is_owner_scoped_newest_first() {
    let mut t = OpsTable::new();
    let alice = Claims { sub: 1 };
    let bob = Claims { sub: 2 };
    let first = save_history(&mut t, &alice, &entry("ENCRYPT", "AES-256-GCM"));
    let foreign = save_history(&mut t, &bob, &entry("ENCRYPT", "AES-256-GCM"));
    let second = save_history(&mut t, &alice, &entry("DECRYPT", "AES-256-GCM"));
    let items = list_history(&mut t, &alice, &ListQuery { kind: None, algo: None, limit: None });
    let ids: Vec<u64> = items.iter().map(|i| i.id).collect();
    assert_eq!(ids, vec![second, first]);
    assert!(!ids.contains(&foreign));
}

#[test]
fn listing_honours_filters_and_limit() {
    let mut t = OpsTable::new();
    let alice = Claims { sub: 1 };
    for _ in 0..5 {
        insert_operation(&mut t, &alice, "ENCRYPT", "AES-256-GCM", "{}", Some(3));
        insert_operation(&mut t, &alice, "SHA256", "SHA-256", "{}", None);
    }
    let only_sha = list_operations(
        &t,
        &alice,
        &ListParams { kind: Some("SHA256".to_owned()), algo: None, limit: 50 },
    );
    assert_eq!(only_sha.len(), 5);
    assert!(only_sha.iter().all(|i| i.kind == "SHA256"));
    let capped = list_operations(&t, &alice, &ListParams { kind: None, algo: None, limit: 3 });
    assert_eq!(capped.len(), 3);
    let none = list_operations(
        &t,
        &alice,
        &ListParams { kind: None, algo: Some("NONE".to_owned()), limit: 50 },
    );
    assert!(none.is_empty());
}

#[test]
fn list_history_clamps_the_limit() {
    let mut t = OpsTable::new();
    let alice = Claims { sub: 1 };
    for _ in 0..4 {
        save_history(&mut t, &alice, &entry("ENCRYPT", "AES-256-GCM"));
    }
    let clamped_low =
        list_history(&t, &alice, &ListQuery { kind: None, algo: None, limit: Some(0) });
    assert_eq!(clamped_low.len(), 1);
    let clamped_neg =
        list_history(&t, &alice, &ListQuery { kind: None, algo: None, limit: Some(-7) });
    assert_eq!(clamped_neg.len(), 1);
    let wide =
        list_history(&t, &alice, &ListQuery { kind: None, algo: None, limit: Some(1000) });
    assert_eq!(wide.len(), 4);
}

#[test]
fn deleting_is_owner_scoped() {
    let mut t = OpsTable::new();
    let alice = Claims { sub: 1 };
    let bob = Claims { sub: 2 };
    let alice_entry = save_history(&mut t, &alice, &entry("ENCRYPT", "AES-256-GCM"));
    assert!(matches!(
        delete_history(&mut t, &bob, alice_entry),
        Err(ApiError::NotFound)
    ));
    assert_eq!(t.rows.len(), 1);
    assert!(delete_history(&mut t, &alice, alice_entry).is_ok());
    assert!(t.rows.is_empty());
    assert!(matches!(
        delete_history(&mut t, &alice, alice_entry),
        Err(ApiError::NotFound)
    ));
}
