//! The request-facing payload cipher operations: encrypt under the
//! identity's active data key, decrypt under the active or an explicitly
//! named key, and rotation of the active key.

use vstd::prelude::*;
use vstd::utf8::encode_utf8;

use crate::aes::{dec_spec, decrypt_aes256_gcm, encrypt_aes256_gcm};
use crate::claims::Claims;
use crate::dto::{DecIn, EncOut, TextIn};
use crate::errors::ApiError;
use crate::keys::{
    ensure_active_key, get_key_by_id, has_active_for_owner, lemma_best_of_push_new, minted_row,
    retire_active, retired_copy, should_retire, spec_get_active, visible_row_with_id, KeyTable,
};
use crate::keywrap::{unwrap_spec, MasterKey};

verus! {

/// The fixed ceiling on a plaintext, in bytes.
pub const MAX_PLAINTEXT_LEN: usize = 1000000;

/// The freshly rotated key's id.
pub struct RotateOut {
    pub new_key_id: u64,
}

/// Encrypts a text payload under the identity's active data key for the
/// `DATA` purpose, minting that key first if the identity has none.
/// Rejects an empty text and one beyond the size ceiling. On success the
/// returned triple decrypts, under the key the returned `key_id` names,
/// back to the text's bytes.
pub fn encrypt(t: &mut KeyTable, mk: &MasterKey, claims: &Claims, input: &TextIn) -> (r: Result<
    EncOut,
    ApiError,
>)
    requires
        old(t).wf(),
        mk.wf(),
        old(t).next_id < u64::MAX,
        old(t).clock < u64::MAX,
    ensures
        final(t).wf(),
        old(t).unique_active() ==> final(t).unique_active(),
        final(t).next_id <= old(t).next_id + 1,
        final(t).clock <= old(t).clock + 1,
        encode_utf8(input.text@).len() == 0 ==> (r matches Err(e) && e is ValidationError),
        (encode_utf8(input.text@).len() > MAX_PLAINTEXT_LEN) ==> (r matches Err(e) && e
            is PayloadTooLarge),
        r is Err ==> *final(t) == *old(t),
        r matches Ok(out) ==> {
            &&& 0 < encode_utf8(input.text@).len() <= MAX_PLAINTEXT_LEN
            &&& out.version == 1
            &&& out.scheme@ == "AES-256-GCM"@
            &&& out.iv@.len() != 0 && out.ct@.len() != 0 && out.tag@.len() != 0
            &&& spec_get_active(*final(t), claims.sub, "DATA"@) matches Some(rec)
            &&& spec_get_active(*final(t), claims.sub, "DATA"@)->Some_0.id == out.key_id
            &&& unwrap_spec(
                mk.bytes(),
                spec_get_active(*final(t), claims.sub, "DATA"@)->Some_0.wrapped_key@,
            ) matches Some(k) && dec_spec(k, out.iv@, out.ct@, out.tag@) == Some(
                encode_utf8(input.text@),
            )
        },
        (encode_utf8(input.text@).len() != 0 && encode_utf8(input.text@).len()
            <= MAX_PLAINTEXT_LEN && (match spec_get_active(*old(t), claims.sub, "DATA"@) {
            Some(rec) => unwrap_spec(mk.bytes(), rec.wrapped_key@) is Some,
            None => true,
        })) ==> r is Ok,
        spec_get_active(*old(t), claims.sub, "DATA"@) is Some ==> *final(t) == *old(t),
{
    let pt = input.text.as_str().as_bytes();
    if pt.len() == 0 {
        return Err(ApiError::ValidationError);
    }
    if pt.len() > MAX_PLAINTEXT_LEN {
        return Err(ApiError::PayloadTooLarge);
    }
    let (key_id, dk) = match ensure_active_key(t, mk, claims, "DATA") {
        Ok(p) => p,
        Err(e) => {
            return Err(e);
        },
    };
    let triple = match encrypt_aes256_gcm(&dk, pt) {
        Ok(v) => v,
        Err(_) => {
            proof {
                assert(false);
            }
            return Err(ApiError::DecryptionFailed);
        },
    };
    let (iv, ct, tag) = triple;
    Ok(
        EncOut {
            scheme: "AES-256-GCM".to_owned(),
            iv,
            ct,
            tag,
            version: 1,
            key_id,
        },
    )
}

/// Decrypts a payload. With an explicit `key_id` the key is fetched under
/// tenant isolation, so an id owned by another tenant fails with the same
/// `NotFound` as an absent id; without one the identity's active `DATA`
/// key is used. Any cipher-level failure is the one opaque
/// `DecryptionFailed`.
pub fn decrypt(t: &mut KeyTable, mk: &MasterKey, claims: &Claims, input: &DecIn) -> (r: Result<
    Vec<u8>,
    ApiError,
>)
    requires
        old(t).wf(),
        mk.wf(),
        old(t).next_id < u64::MAX,
        old(t).clock < u64::MAX,
    ensures
        final(t).wf(),
        old(t).unique_active() ==> final(t).unique_active(),
        final(t).next_id <= old(t).next_id + 1,
        final(t).clock <= old(t).clock + 1,
        (input.iv@.len() == 0 || input.ct@.len() == 0 || input.tag@.len() == 0) ==> (r matches Err(
            e,
        ) && e is ValidationError) && *final(t) == *old(t),
        input.key_id is Some ==> *final(t) == *old(t),
        input.key_id matches Some(kid) ==> (input.iv@.len() != 0 && input.ct@.len() != 0
            && input.tag@.len() != 0) ==> match visible_row_with_id(
            old(t).rows@,
            claims.sub,
            kid,
        ) {
            None => r matches Err(e) && e is NotFound,
            Some(rec) => match unwrap_spec(mk.bytes(), rec.wrapped_key@) {
                None => r matches Err(e) && e is WrapIntegrityFailure,
                Some(k) => match dec_spec(k, input.iv@, input.ct@, input.tag@) {
                    Some(pt) => r matches Ok(o) && o@ == pt,
                    None => r matches Err(e) && e is DecryptionFailed,
                },
            },
        },
        (input.key_id is None && input.iv@.len() != 0 && input.ct@.len() != 0 && input.tag@.len()
            != 0) ==> {
            &&& r matches Ok(o) ==> spec_get_active(*final(t), claims.sub, "DATA"@) matches Some(
                rec,
            ) && unwrap_spec(mk.bytes(), rec.wrapped_key@) matches Some(k) && dec_spec(
                k,
                input.iv@,
                input.ct@,
                input.tag@,
            ) == Some(o@)
            &&& match spec_get_active(*old(t), claims.sub, "DATA"@) {
                Some(rec) => *final(t) == *old(t) && (match unwrap_spec(
                    mk.bytes(),
                    rec.wrapped_key@,
                ) {
                    None => r matches Err(e) && e is WrapIntegrityFailure,
                    Some(k) => match dec_spec(k, input.iv@, input.ct@, input.tag@) {
                        Some(pt) => r matches Ok(o) && o@ == pt,
                        None => r matches Err(e) && e is DecryptionFailed,
                    },
                }),
                None => final(t).rows@.len() == old(t).rows@.len() + 1 && (r matches Err(e) ==> e
                    is DecryptionFailed),
            }
        },
{
    if input.iv.as_str().is_empty() || input.ct.as_str().is_empty()
        || input.tag.as_str().is_empty() {
        return Err(ApiError::ValidationError);
    }
    let dk = match input.key_id {
        Some(kid) => {
            match get_key_by_id(t, mk, claims, kid) {
                Ok(dk) => dk,
                Err(e) => {
                    return Err(e);
                },
            }
        },
        None => {
            match ensure_active_key(t, mk, claims, "DATA") {
                Ok(p) => p.1,
                Err(e) => {
                    return Err(e);
                },
            }
        },
    };
    match decrypt_aes256_gcm(&dk, input.iv.as_str(), input.ct.as_str(), input.tag.as_str()) {
        Ok(pt) => Ok(pt),
        Err(_) => Err(ApiError::DecryptionFailed),
    }
}

/// Rotates the identity's `DATA` key: retires the currently active
/// tenant-owned records in one atomic step, then mints a fresh key. The
/// new id never collides with an earlier one, and a subsequent get-active
/// query selects the new record.
pub fn rotate_key(t: &mut KeyTable, mk: &MasterKey, claims: &Claims) -> (r: Result<
    RotateOut,
    ApiError,
>)
    requires
        old(t).wf(),
        mk.wf(),
        old(t).next_id < u64::MAX,
        old(t).clock < u64::MAX - 1,
    ensures
        final(t).wf(),
        old(t).unique_active() ==> final(t).unique_active(),
        r is Ok,
        final(t).next_id == old(t).next_id + 1,
        final(t).clock == old(t).clock + 2,
        r matches Ok(out) ==> {
            &&& out.new_key_id == old(t).next_id
            &&& forall|i: int|
                0 <= i < old(t).rows@.len() ==> (#[trigger] old(t).rows@[i]).id != out.new_key_id
            &&& forall|i: int|
                0 <= i < old(t).rows@.len() && should_retire(
                    #[trigger] old(t).rows@[i],
                    claims.sub,
                    "DATA"@,
                ) ==> final(t).rows@[i] == retired_copy(old(t).rows@[i], old(t).clock)
            &&& forall|i: int|
                0 <= i < old(t).rows@.len() && !should_retire(
                    #[trigger] old(t).rows@[i],
                    claims.sub,
                    "DATA"@,
                ) ==> final(t).rows@[i] == old(t).rows@[i]
            &&& final(t).rows@.len() == old(t).rows@.len() + 1
            &&& final(t).rows@.last().id == out.new_key_id
            &&& final(t).rows@.last().user_id == Some(claims.sub)
            &&& final(t).rows@.last().purpose@ == "DATA"@
            &&& final(t).rows@.last().retired_at is None
            &&& unwrap_spec(mk.bytes(), final(t).rows@.last().wrapped_key@) is Some
            &&& spec_get_active(*final(t), claims.sub, "DATA"@) == Some(final(t).rows@.last())
        },
{
    retire_active(t, claims, "DATA");
    let ghost mid = *t;
    proof {
        if has_active_for_owner(t.rows@, Some(claims.sub), "DATA"@) {
            let i = choose|i: int|
                0 <= i < t.rows@.len() && (#[trigger] t.rows@[i]).user_id == Some(claims.sub)
                    && t.rows@[i].retired_at is None && t.rows@[i].purpose@ == "DATA"@;
            assert(should_retire(old(t).rows@[i], claims.sub, "DATA"@));
            assert(false);
        }
    }
    let new_key_id = match crate::keys::create_user_key(t, mk, claims, "DATA") {
        Ok(id) => id,
        Err(_) => {
            proof {
                assert(false);
            }
            return Err(ApiError::AlreadyActive);
        },
    };
    proof {
        lemma_best_of_push_new(mid.rows@, claims.sub, "DATA"@, t.rows@.last());
        assert(minted_row(t.rows@.last(), mid, Some(claims.sub), "DATA"@));
    }
    Ok(RotateOut { new_key_id })
}

/// Decryption inverts encryption end to end: a payload that encrypt
/// produced under the table's active key decrypts, against the same table
/// state and identity, to the very bytes that were encrypted — whatever
/// both operations returned, the plaintexts agree.
pub proof fn lemma_encrypt_then_decrypt(
    t: KeyTable,
    mk: Seq<u8>,
    sub: u128,
    iv: Seq<char>,
    ct: Seq<char>,
    tag: Seq<char>,
    pt: Seq<u8>,
    pt2: Seq<u8>,
)
    requires
        spec_get_active(t, sub, "DATA"@) matches Some(rec) && unwrap_spec(
            mk,
            rec.wrapped_key@,
        ) matches Some(k) && dec_spec(k, iv, ct, tag) == Some(pt),
        spec_get_active(t, sub, "DATA"@) matches Some(rec2) && unwrap_spec(
            mk,
            rec2.wrapped_key@,
        ) matches Some(k2) && dec_spec(k2, iv, ct, tag) == Some(pt2),
    ensures
        pt2 == pt,
{
}

} // verus!
