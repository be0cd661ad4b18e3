//! The key store: a table of wrapped key records with get-active, mint,
//! retire and fetch-by-id semantics. Every query filters rows by the
//! caller's identity, which models row-level security as an explicit
//! owner predicate applied to each operation.

use vstd::prelude::*;

use crate::claims::Claims;
use crate::errors::ApiError;
use crate::keywrap::{unwrap_key_v1, unwrap_spec, wrap_key_v1, MasterKey};
use crate::rng::random_bytes;
use crate::str_eq;
use crate::KEY_LEN;

verus! {

/// One persistent key record. A key is never stored in the clear: the
/// `wrapped_key` blob is its ciphertext under the master key. A record
/// with `user_id` `None` is shared across tenants; one with `Some(sub)`
/// belongs to that tenant alone. Retiring is the only mutation a record
/// ever sees, and it is terminal.
pub struct KeyRow {
    pub id: u64,
    pub user_id: Option<u128>,
    pub purpose: String,
    pub wrapped_key: String,
    pub algo: String,
    pub created_at: u64,
    pub retired_at: Option<u64>,
}

/// The table of key records, with a fresh-id counter and a logical clock
/// that orders creations and retirements.
pub struct KeyTable {
    pub rows: Vec<KeyRow>,
    pub next_id: u64,
    pub clock: u64,
}

/// A row is visible to a subject when the subject owns it or it is shared.
pub open spec fn visible_to(r: KeyRow, sub: u128) -> bool {
    r.user_id == Some(sub) || r.user_id is None
}

/// A row owned by this subject (a shared row is visible but not owned).
pub open spec fn owned_by(r: KeyRow, sub: u128) -> bool {
    r.user_id == Some(sub)
}

/// A row that has not been retired.
pub open spec fn is_active(r: KeyRow) -> bool {
    r.retired_at is None
}

/// A row that a get-active query for this subject and purpose returns:
/// visible, active, and tagged with the purpose.
pub open spec fn candidate(r: KeyRow, sub: u128, purpose: Seq<char>) -> bool {
    visible_to(r, sub) && is_active(r) && r.purpose@ == purpose
}

/// The query's preference order: a tenant-owned row beats a shared one,
/// and within the same ownership the newer row wins.
pub open spec fn preferred(a: KeyRow, b: KeyRow, sub: u128) -> bool {
    if owned_by(a, sub) != owned_by(b, sub) {
        owned_by(a, sub)
    } else {
        a.created_at > b.created_at
    }
}

/// The candidate row the get-active query selects from a row sequence:
/// the most preferred candidate, or `None` when no row qualifies.
pub open spec fn best_of(rows: Seq<KeyRow>, sub: u128, purpose: Seq<char>) -> Option<KeyRow>
    decreases rows.len(),
{
    if rows.len() == 0 {
        Option::<KeyRow>::None
    } else {
        let prev = best_of(rows.drop_last(), sub, purpose);
        if candidate(rows.last(), sub, purpose) && (prev is None || preferred(
            rows.last(),
            prev->Some_0,
            sub,
        )) {
            Option::Some(rows.last())
        } else {
            prev
        }
    }
}

/// The record a get-active query on this table selects.
pub open spec fn spec_get_active(t: KeyTable, sub: u128, purpose: Seq<char>) -> Option<KeyRow> {
    best_of(t.rows@, sub, purpose)
}

/// Whether some row with exactly this owner (tenant or shared) is active
/// for the purpose.
pub open spec fn has_active_for_owner(
    rows: Seq<KeyRow>,
    owner: Option<u128>,
    purpose: Seq<char>,
) -> bool {
    exists|i: int|
        0 <= i < rows.len() && (#[trigger] rows[i]).user_id == owner && is_active(rows[i])
            && rows[i].purpose@ == purpose
}

/// The visible row carrying this id, if any; retired rows stay
/// fetchable by id.
pub open spec fn visible_row_with_id(rows: Seq<KeyRow>, sub: u128, id: u64) -> Option<KeyRow>
    decreases rows.len(),
{
    if rows.len() == 0 {
        Option::<KeyRow>::None
    } else if visible_to(rows.last(), sub) && rows.last().id == id {
        Option::Some(rows.last())
    } else {
        visible_row_with_id(rows.drop_last(), sub, id)
    }
}

/// What a freshly minted record looks like relative to the table it was
/// inserted into.
pub open spec fn minted_row(r: KeyRow, t: KeyTable, owner: Option<u128>, purpose: Seq<char>) -> bool {
    &&& r.id == t.next_id
    &&& r.user_id == owner
    &&& r.purpose@ == purpose
    &&& r.algo@ == "AES-256-GCM"@
    &&& r.created_at == t.clock
    &&& r.retired_at is None
}

/// A retired copy of a row: identical except for the retirement stamp.
pub open spec fn retired_copy(r: KeyRow, now: u64) -> KeyRow {
    KeyRow { retired_at: Some(now), ..r }
}

/// Rows that a retire operation for this subject and purpose stamps.
pub open spec fn should_retire(r: KeyRow, sub: u128, purpose: Seq<char>) -> bool {
    owned_by(r, sub) && is_active(r) && r.purpose@ == purpose
}

impl KeyTable {
    /// Structural well-formedness: ids are unique and below the fresh-id
    /// counter, and creation stamps strictly increase along the table and
    /// stay below the clock.
    pub open spec fn wf(&self) -> bool {
        &&& forall|i: int|
            0 <= i < self.rows@.len() ==> (#[trigger] self.rows@[i]).id < self.next_id
                && self.rows@[i].created_at < self.clock
        &&& forall|i: int, j: int|
            0 <= i < j < self.rows@.len() ==> (#[trigger] self.rows@[i]).id != (
            #[trigger] self.rows@[j]).id && self.rows@[i].created_at < self.rows@[j].created_at
    }

    /// The intended uniqueness invariant: at most one active record per
    /// (owner, purpose) pair. The conditional mint keeps it: a mint either
    /// succeeds or reports an already-active conflict, atomically.
    pub open spec fn unique_active(&self) -> bool {
        forall|i: int, j: int|
            0 <= i < self.rows@.len() && 0 <= j < self.rows@.len() && i != j && is_active(
                #[trigger] self.rows@[i],
            ) && is_active(#[trigger] self.rows@[j]) && self.rows@[i].user_id
                == self.rows@[j].user_id ==> self.rows@[i].purpose@ != self.rows@[j].purpose@
    }

    /// An empty table.
    pub fn new() -> (t: KeyTable)
        ensures
            t.wf(),
            t.unique_active(),
            t.rows@.len() == 0,
            t.next_id == 1,
            t.clock == 1,
    {
        KeyTable { rows: Vec::new(), next_id: 1, clock: 1 }
    }
}

/// The selected row is a candidate drawn from the sequence; when nothing
/// is selected, no row qualifies at all.
pub proof fn lemma_best_of_props(rows: Seq<KeyRow>, sub: u128, purpose: Seq<char>)
    ensures
        best_of(rows, sub, purpose) matches Some(r) ==> (exists|i: int|
            0 <= i < rows.len() && rows[i] == r) && candidate(r, sub, purpose),
        best_of(rows, sub, purpose) is None ==> forall|i: int|
            0 <= i < rows.len() ==> !candidate(#[trigger] rows[i], sub, purpose),
    decreases rows.len(),
{
    if rows.len() > 0 {
        let sub_rows = rows.drop_last();
        lemma_best_of_props(sub_rows, sub, purpose);
        assert(forall|i: int| 0 <= i < rows.len() - 1 ==> sub_rows[i] == #[trigger] rows[i]);
        let cur = best_of(rows, sub, purpose);
        let prev = best_of(sub_rows, sub, purpose);
        if candidate(rows.last(), sub, purpose) && (prev is None || preferred(
            rows.last(),
            prev->Some_0,
            sub,
        )) {
            assert(cur == Some(rows.last()));
            assert(rows[rows.len() - 1] == rows.last());
        } else {
            if prev is Some {
                let p = prev->Some_0;
                let i = choose|i: int| 0 <= i < sub_rows.len() && sub_rows[i] == p;
                assert(rows[i] == p);
            }
        }
    }
}

/// Appending a tenant-owned candidate newer than every existing row makes
/// it the selected record.
pub proof fn lemma_best_of_push_new(rows: Seq<KeyRow>, sub: u128, purpose: Seq<char>, new: KeyRow)
    requires
        candidate(new, sub, purpose),
        owned_by(new, sub),
        forall|i: int| 0 <= i < rows.len() ==> (#[trigger] rows[i]).created_at < new.created_at,
    ensures
        best_of(rows.push(new), sub, purpose) == Some(new),
{
    lemma_best_of_props(rows, sub, purpose);
    assert(rows.push(new).drop_last() =~= rows);
    assert(rows.push(new).last() == new);
    if best_of(rows, sub, purpose) is Some {
        let p = best_of(rows, sub, purpose)->Some_0;
        assert(exists|i: int| 0 <= i < rows.len() && rows[i] == p);
        let i = choose|i: int| 0 <= i < rows.len() && rows[i] == p;
        assert(p.created_at < new.created_at);
        assert(preferred(new, p, sub));
    }
}

/// An unrotated key is stable: two results that both satisfy the
/// ensure-active contract against the same table state carry the same key
/// id and the same key bytes. Since ensure-active leaves the table's
/// selection pointing at the record it returned, calling it twice with no
/// rotation in between yields the same id and bytes both times.
pub proof fn lemma_ensure_active_repeatable(
    t: KeyTable,
    mk: Seq<u8>,
    sub: u128,
    purpose: Seq<char>,
    id1: u64,
    dk1: Seq<u8>,
    id2: u64,
    dk2: Seq<u8>,
)
    requires
        spec_get_active(t, sub, purpose) matches Some(rec) && rec.id == id1 && unwrap_spec(
            mk,
            rec.wrapped_key@,
        ) == Some(dk1),
        spec_get_active(t, sub, purpose) matches Some(rec) && rec.id == id2 && unwrap_spec(
            mk,
            rec.wrapped_key@,
        ) == Some(dk2),
    ensures
        id1 == id2,
        dk1 == dk2,
{
}

/// A key id whose every carrier row belongs to some other tenant is not
/// visible: fetching it fails exactly as an absent id does.
pub proof fn lemma_foreign_id_invisible(rows: Seq<KeyRow>, sub: u128, kid: u64)
    requires
        forall|i: int|
            0 <= i < rows.len() && (#[trigger] rows[i]).id == kid ==> !visible_to(rows[i], sub),
    ensures
        visible_row_with_id(rows, sub, kid) is None,
    decreases rows.len(),
{
    if rows.len() > 0 {
        assert(rows[rows.len() - 1] == rows.last());
        assert(forall|i: int|
            0 <= i < rows.len() - 1 ==> rows.drop_last()[i] == #[trigger] rows[i]);
        lemma_foreign_id_invisible(rows.drop_last(), sub, kid);
    }
}

/// Under the uniqueness invariant there is at most one active record per
/// owner and purpose: any two active rows with the same owner and purpose
/// are one and the same row.
pub proof fn lemma_at_most_one_active(
    t: KeyTable,
    owner: Option<u128>,
    purpose: Seq<char>,
    i: int,
    j: int,
)
    requires
        t.unique_active(),
        0 <= i < t.rows@.len(),
        0 <= j < t.rows@.len(),
        is_active(t.rows@[i]),
        is_active(t.rows@[j]),
        t.rows@[i].user_id == owner,
        t.rows@[j].user_id == owner,
        t.rows@[i].purpose@ == purpose,
        t.rows@[j].purpose@ == purpose,
    ensures
        i == j,
{
}

/// First use converges to a single active record: when no candidate was
/// visible and one record was minted, every active tenant-owned record
/// for the purpose is that one minted record. Together with the
/// conditional mint this closes the check-then-create race: the lookup
/// and the mint are one atomic operation on the table, so repeated first
/// calls cannot each mint a key.
pub proof fn lemma_first_ensure_creates_one_active(
    old_t: KeyTable,
    new_t: KeyTable,
    sub: u128,
    purpose: Seq<char>,
)
    requires
        spec_get_active(old_t, sub, purpose) is None,
        new_t.rows@ == old_t.rows@.push(new_t.rows@.last()),
        minted_row(new_t.rows@.last(), old_t, Some(sub), purpose),
    ensures
        forall|i: int|
            0 <= i < new_t.rows@.len() && owned_by(#[trigger] new_t.rows@[i], sub) && is_active(
                new_t.rows@[i],
            ) && new_t.rows@[i].purpose@ == purpose ==> i == new_t.rows@.len() - 1,
{
    lemma_best_of_props(old_t.rows@, sub, purpose);
    assert forall|i: int|
        0 <= i < new_t.rows@.len() && owned_by(#[trigger] new_t.rows@[i], sub) && is_active(
            new_t.rows@[i],
        ) && new_t.rows@[i].purpose@ == purpose implies i == new_t.rows@.len() - 1 by {
        if i < new_t.rows@.len() - 1 {
            assert(new_t.rows@[i] == old_t.rows@[i]);
            assert(candidate(old_t.rows@[i], sub, purpose));
        }
    }
}

/// A verified copy of a record (field for field).
fn copy_row(r: &KeyRow) -> (c: KeyRow)
    ensures
        c == *r,
{
    KeyRow {
        id: r.id,
        user_id: r.user_id,
        purpose: r.purpose.clone(),
        wrapped_key: r.wrapped_key.clone(),
        algo: r.algo.clone(),
        created_at: r.created_at,
        retired_at: r.retired_at,
    }
}

/// Whether this row is an active candidate for the subject and purpose.
fn row_is_candidate(r: &KeyRow, claims: &Claims, purpose: &str) -> (b: bool)
    ensures
        b == candidate(*r, claims.sub, purpose@),
{
    let visible = match r.user_id {
        Some(u) => u == claims.sub,
        None => true,
    };
    visible && r.retired_at.is_none() && str_eq(r.purpose.as_str(), purpose)
}

/// Selects the most recent active record visible to this identity for the
/// purpose, preferring a tenant-owned key over a shared one. Read-only.
pub fn get_active_key(t: &KeyTable, claims: &Claims, purpose: &str) -> (r: Option<KeyRow>)
    ensures
        r == spec_get_active(*t, claims.sub, purpose@),
{
    let n = t.rows.len();
    let mut best: Option<usize> = None;
    let mut i: usize = 0;
    while i < n
        invariant
            n == t.rows@.len(),
            i <= n,
            match best {
                Some(b) => b < i && best_of(t.rows@.take(i as int), claims.sub, purpose@)
                    == Some(t.rows@[b as int]),
                None => best_of(t.rows@.take(i as int), claims.sub, purpose@) is None,
            },
        decreases n - i,
    {
        let row = &t.rows[i];
        let is_cand = row_is_candidate(row, claims, purpose);
        proof {
            assert(t.rows@.take(i as int + 1).drop_last() =~= t.rows@.take(i as int));
            assert(t.rows@.take(i as int + 1).last() == t.rows@[i as int]);
        }
        if is_cand {
            best = match best {
                None => Some(i),
                Some(b) => {
                    let cur = &t.rows[b];
                    let row_owned = match row.user_id {
                        Some(u) => u == claims.sub,
                        None => false,
                    };
                    let cur_owned = match cur.user_id {
                        Some(u) => u == claims.sub,
                        None => false,
                    };
                    let takes_over = if row_owned != cur_owned {
                        row_owned
                    } else {
                        row.created_at > cur.created_at
                    };
                    if takes_over {
                        Some(i)
                    } else {
                        Some(b)
                    }
                },
            };
        }
        i += 1;
    }
    proof {
        assert(t.rows@.take(n as int) =~= t.rows@);
    }
    match best {
        None => None,
        Some(b) => Some(copy_row(&t.rows[b])),
    }
}

/// Fetches the record with this id only if it is visible to the identity,
/// then unwraps its key. Fails with `NotFound` when no visible row
/// matches: the caller cannot tell a wrong id from another tenant's id.
pub fn get_key_by_id(t: &KeyTable, mk: &MasterKey, claims: &Claims, key_id: u64) -> (r: Result<
    Vec<u8>,
    ApiError,
>)
    requires
        mk.wf(),
    ensures
        match visible_row_with_id(t.rows@, claims.sub, key_id) {
            Some(rec) => match unwrap_spec(mk.bytes(), rec.wrapped_key@) {
                Some(k) => r matches Ok(dk) && dk@ == k && k.len() == KEY_LEN,
                None => r matches Err(e) && e is WrapIntegrityFailure,
            },
            None => r matches Err(e) && e is NotFound,
        },
{
    let n = t.rows.len();
    proof {
        assert(t.rows@.take(n as int) =~= t.rows@);
    }
    let mut i: usize = n;
    while i > 0
        invariant
            n == t.rows@.len(),
            i <= n,
            mk.wf(),
            visible_row_with_id(t.rows@, claims.sub, key_id) == visible_row_with_id(
                t.rows@.take(i as int),
                claims.sub,
                key_id,
            ),
        decreases i,
    {
        proof {
            assert(t.rows@.take(i as int).drop_last() =~= t.rows@.take(i as int - 1));
            assert(t.rows@.take(i as int).last() == t.rows@[i - 1 as int]);
        }
        let row = &t.rows[i - 1];
        let visible = match row.user_id {
            Some(u) => u == claims.sub,
            None => true,
        };
        if visible && row.id == key_id {
            return match unwrap_key_v1(mk, row.wrapped_key.as_str()) {
                Ok(dk) => Ok(dk),
                Err(_) => Err(ApiError::WrapIntegrityFailure),
            };
        }
        i -= 1;
    }
    Err(ApiError::NotFound)
}

/// Whether an active record with exactly this owner exists for the
/// purpose.
fn scan_active_for_owner(t: &KeyTable, owner: Option<u128>, purpose: &str) -> (b: bool)
    ensures
        b == has_active_for_owner(t.rows@, owner, purpose@),
{
    let n = t.rows.len();
    let mut i: usize = 0;
    while i < n
        invariant
            n == t.rows@.len(),
            i <= n,
            forall|j: int|
                0 <= j < i ==> !((#[trigger] t.rows@[j]).user_id == owner && is_active(t.rows@[j])
                    && t.rows@[j].purpose@ == purpose@),
        decreases n - i,
    {
        let row = &t.rows[i];
        let owner_match = match (row.user_id, owner) {
            (Some(u), Some(o)) => u == o,
            (None, None) => true,
            _ => false,
        };
        if owner_match && row.retired_at.is_none() && str_eq(row.purpose.as_str(), purpose) {
            assert(has_active_for_owner(t.rows@, owner, purpose@));
            return true;
        }
        i += 1;
    }
    false
}

/// Mints a key record for an owner: draws 256 fresh random bits, wraps
/// them under the master key, and appends the record — unless that owner
/// already has an active record for the purpose, in which case nothing
/// changes and the conflict is reported. The check and the insert form one
/// atomic operation on the table.
fn mint_key(t: &mut KeyTable, mk: &MasterKey, owner: Option<u128>, purpose: &str) -> (r: Result<
    u64,
    ApiError,
>)
    requires
        old(t).wf(),
        mk.wf(),
        old(t).next_id < u64::MAX,
        old(t).clock < u64::MAX,
    ensures
        final(t).wf(),
        old(t).unique_active() ==> final(t).unique_active(),
        r matches Err(e) ==> e is AlreadyActive && *final(t) == *old(t),
        (r is Err) <==> has_active_for_owner(old(t).rows@, owner, purpose@),
        r matches Ok(id) ==> {
            &&& id == old(t).next_id
            &&& final(t).next_id == old(t).next_id + 1
            &&& final(t).clock == old(t).clock + 1
            &&& final(t).rows@ == old(t).rows@.push(final(t).rows@.last())
            &&& minted_row(final(t).rows@.last(), *old(t), owner, purpose@)
            &&& unwrap_spec(mk.bytes(), final(t).rows@.last().wrapped_key@) matches Some(k)
                && k.len() == KEY_LEN
        },
{
    if scan_active_for_owner(t, owner, purpose) {
        return Err(ApiError::AlreadyActive);
    }
    let dk = random_bytes(KEY_LEN);
    let wrapped = wrap_key_v1(mk, &dk);
    let id = t.next_id;
    let row = KeyRow {
        id,
        user_id: owner,
        purpose: purpose.to_owned(),
        wrapped_key: wrapped,
        algo: "AES-256-GCM".to_owned(),
        created_at: t.clock,
        retired_at: None,
    };
    t.rows.push(row);
    t.next_id = t.next_id + 1;
    t.clock = t.clock + 1;
    proof {
        let ghost old_t = *old(t);
        let ghost rows = t.rows@;
        assert(rows.last() == rows[rows.len() - 1]);
        assert(forall|i: int| 0 <= i < rows.len() - 1 ==> rows[i] == old_t.rows@[i]);
        assert forall|i: int| 0 <= i < rows.len() implies (#[trigger] rows[i]).id < t.next_id
            && rows[i].created_at < t.clock by {
            if i < rows.len() - 1 {
                assert(rows[i] == old_t.rows@[i]);
            }
        }
        assert forall|i: int, j: int| 0 <= i < j < rows.len() implies (#[trigger] rows[i]).id != (
        #[trigger] rows[j]).id && rows[i].created_at < rows[j].created_at by {
            assert(rows[i] == old_t.rows@[i]);
            if j < rows.len() - 1 {
                assert(rows[j] == old_t.rows@[j]);
            }
        }
        assert(t.wf());
        if old_t.unique_active() {
            assert forall|i: int, j: int|
                0 <= i < rows.len() && 0 <= j < rows.len() && i != j && is_active(rows[i])
                    && is_active(rows[j]) && rows[i].user_id == rows[j].user_id implies rows[i].purpose@
                != rows[j].purpose@ by {
                if i < rows.len() - 1 && j < rows.len() - 1 {
                } else if j == rows.len() - 1 {
                    assert(!has_active_for_owner(old_t.rows@, owner, purpose@));
                    if rows[i].purpose@ == purpose@ {
                        assert(0 <= i < old_t.rows@.len() && old_t.rows@[i].user_id == owner
                            && is_active(old_t.rows@[i]) && old_t.rows@[i].purpose@ == purpose@);
                    }
                } else {
                    assert(!has_active_for_owner(old_t.rows@, owner, purpose@));
                    if rows[j].purpose@ == purpose@ {
                        assert(0 <= j < old_t.rows@.len() && old_t.rows@[j].user_id == owner
                            && is_active(old_t.rows@[j]) && old_t.rows@[j].purpose@ == purpose@);
                    }
                }
            }
        }
    }
    Ok(id)
}

/// Mints a tenant-owned key record for this identity, unless the tenant
/// already has an active record for the purpose.
pub fn create_user_key(t: &mut KeyTable, mk: &MasterKey, claims: &Claims, purpose: &str) -> (r:
    Result<u64, ApiError>)
    requires
        old(t).wf(),
        mk.wf(),
        old(t).next_id < u64::MAX,
        old(t).clock < u64::MAX,
    ensures
        final(t).wf(),
        old(t).unique_active() ==> final(t).unique_active(),
        r matches Err(e) ==> e is AlreadyActive && *final(t) == *old(t),
        (r is Err) <==> has_active_for_owner(old(t).rows@, Some(claims.sub), purpose@),
        r matches Ok(id) ==> {
            &&& id == old(t).next_id
            &&& final(t).next_id == old(t).next_id + 1
            &&& final(t).clock == old(t).clock + 1
            &&& final(t).rows@ == old(t).rows@.push(final(t).rows@.last())
            &&& minted_row(final(t).rows@.last(), *old(t), Some(claims.sub), purpose@)
            &&& unwrap_spec(mk.bytes(), final(t).rows@.last().wrapped_key@) matches Some(k)
                && k.len() == KEY_LEN
        },
{
    mint_key(t, mk, Some(claims.sub), purpose)
}

/// Mints a shared key record, visible to every tenant, unless an active
/// shared record for the purpose already exists. Shared rows are seeded by
/// an operator, outside any one tenant's request path.
pub fn create_shared_key(t: &mut KeyTable, mk: &MasterKey, purpose: &str) -> (r: Result<
    u64,
    ApiError,
>)
    requires
        old(t).wf(),
        mk.wf(),
        old(t).next_id < u64::MAX,
        old(t).clock < u64::MAX,
    ensures
        final(t).wf(),
        old(t).unique_active() ==> final(t).unique_active(),
        r matches Err(e) ==> e is AlreadyActive && *final(t) == *old(t),
        (r is Err) <==> has_active_for_owner(old(t).rows@, None, purpose@),
        r matches Ok(id) ==> {
            &&& id == old(t).next_id
            &&& final(t).next_id == old(t).next_id + 1
            &&& final(t).clock == old(t).clock + 1
            &&& final(t).rows@ == old(t).rows@.push(final(t).rows@.last())
            &&& minted_row(final(t).rows@.last(), *old(t), None, purpose@)
            &&& unwrap_spec(mk.bytes(), final(t).rows@.last().wrapped_key@) matches Some(k)
                && k.len() == KEY_LEN
        },
{
    mint_key(t, mk, None, purpose)
}

/// Retires, in one atomic step, every active record this identity owns for
/// the purpose. A retired record never becomes active again.
pub fn retire_active(t: &mut KeyTable, claims: &Claims, purpose: &str)
    requires
        old(t).wf(),
        old(t).clock < u64::MAX,
    ensures
        final(t).wf(),
        old(t).unique_active() ==> final(t).unique_active(),
        final(t).next_id == old(t).next_id,
        final(t).clock == old(t).clock + 1,
        final(t).rows@.len() == old(t).rows@.len(),
        forall|i: int|
            0 <= i < old(t).rows@.len() ==> final(t).rows@[i] == (if should_retire(
                #[trigger] old(t).rows@[i],
                claims.sub,
                purpose@,
            ) {
                retired_copy(old(t).rows@[i], old(t).clock)
            } else {
                old(t).rows@[i]
            }),
{
    let n = t.rows.len();
    let now = t.clock;
    let mut out: Vec<KeyRow> = Vec::new();
    let mut i: usize = 0;
    while i < n
        invariant
            n == t.rows@.len(),
            now == t.clock,
            i <= n,
            out@.len() == i,
            forall|j: int|
                0 <= j < i ==> out@[j] == (if should_retire(
                    #[trigger] t.rows@[j],
                    claims.sub,
                    purpose@,
                ) {
                    retired_copy(t.rows@[j], now)
                } else {
                    t.rows@[j]
                }),
        decreases n - i,
    {
        let row = &t.rows[i];
        let owned = match row.user_id {
            Some(u) => u == claims.sub,
            None => false,
        };
        if owned && row.retired_at.is_none() && str_eq(row.purpose.as_str(), purpose) {
            out.push(
                KeyRow {
                    id: row.id,
                    user_id: row.user_id,
                    purpose: row.purpose.clone(),
                    wrapped_key: row.wrapped_key.clone(),
                    algo: row.algo.clone(),
                    created_at: row.created_at,
                    retired_at: Some(now),
                },
            );
        } else {
            out.push(copy_row(row));
        }
        i += 1;
    }
    t.rows = out;
    t.clock = t.clock + 1;
    proof {
        assert forall|i: int| 0 <= i < t.rows@.len() implies (#[trigger] t.rows@[i]).id == old(
            t,
        ).rows@[i].id && t.rows@[i].created_at == old(t).rows@[i].created_at by {
            assert(retired_copy(old(t).rows@[i], now).id == old(t).rows@[i].id);
        }
        assert forall|i: int| 0 <= i < t.rows@.len() implies (#[trigger] t.rows@[i]).id
            < t.next_id && t.rows@[i].created_at < t.clock by {
            assert(old(t).rows@[i].id < old(t).next_id);
        }
        assert forall|i: int, j: int| 0 <= i < j < t.rows@.len() implies (#[trigger] t.rows@[i]).id
            != (#[trigger] t.rows@[j]).id && t.rows@[i].created_at < t.rows@[j].created_at by {
            assert(old(t).rows@[i].id != old(t).rows@[j].id);
            assert(old(t).rows@[i].created_at < old(t).rows@[j].created_at);
        }
        assert(t.wf());
        if old(t).unique_active() {
            let ghost rows = t.rows@;
            assert forall|i: int, j: int|
                0 <= i < rows.len() && 0 <= j < rows.len() && i != j && is_active(rows[i])
                    && is_active(rows[j]) && rows[i].user_id == rows[j].user_id implies rows[i].purpose@
                != rows[j].purpose@ by {
                assert(rows[i] == old(t).rows@[i]);
                assert(rows[j] == old(t).rows@[j]);
            }
        }
    }
}

/// Returns the id and unwrapped bytes of the active key for this identity
/// and purpose, minting one first when none is visible. The lookup and the
/// conditional mint form one atomic operation on the table, so two callers
/// can never both mint for the same owner and purpose.
pub fn ensure_active_key(t: &mut KeyTable, mk: &MasterKey, claims: &Claims, purpose: &str) -> (r:
    Result<(u64, Vec<u8>), ApiError>)
    requires
        old(t).wf(),
        mk.wf(),
        old(t).next_id < u64::MAX,
        old(t).clock < u64::MAX,
    ensures
        final(t).wf(),
        old(t).unique_active() ==> final(t).unique_active(),
        r is Err ==> *final(t) == *old(t) && (r matches Err(e) && e is WrapIntegrityFailure),
        match spec_get_active(*old(t), claims.sub, purpose@) {
            Some(rec) => *final(t) == *old(t) && (match unwrap_spec(
                mk.bytes(),
                rec.wrapped_key@,
            ) {
                Some(k) => r matches Ok(p) && p.0 == rec.id && p.1@ == k,
                None => r is Err,
            }),
            None => {
                &&& r matches Ok(p) && p.0 == old(t).next_id
                &&& final(t).rows@ == old(t).rows@.push(final(t).rows@.last())
                &&& minted_row(final(t).rows@.last(), *old(t), Some(claims.sub), purpose@)
                &&& final(t).next_id == old(t).next_id + 1
                &&& final(t).clock == old(t).clock + 1
            },
        },
        r matches Ok(p) ==> spec_get_active(*final(t), claims.sub, purpose@) matches Some(rec)
            && rec.id == p.0 && unwrap_spec(mk.bytes(), rec.wrapped_key@) == Some(p.1@)
            && p.1@.len() == KEY_LEN,
{
    let found = get_active_key(t, claims, purpose);
    match found {
        Some(row) => {
            match unwrap_key_v1(mk, row.wrapped_key.as_str()) {
                Ok(dk) => Ok((row.id, dk)),
                Err(_) => Err(ApiError::WrapIntegrityFailure),
            }
        },
        None => {
            proof {
                lemma_best_of_props(t.rows@, claims.sub, purpose@);
                if has_active_for_owner(t.rows@, Some(claims.sub), purpose@) {
                    let i = choose|i: int|
                        0 <= i < t.rows@.len() && (#[trigger] t.rows@[i]).user_id == Some(
                            claims.sub,
                        ) && is_active(t.rows@[i]) && t.rows@[i].purpose@ == purpose@;
                    assert(candidate(t.rows@[i], claims.sub, purpose@));
                }
            }
            let id = match mint_key(t, mk, Some(claims.sub), purpose) {
                Ok(id) => id,
                Err(_) => {
                    proof {
                        assert(false);
                    }
                    return Err(ApiError::WrapIntegrityFailure);
                },
            };
            let last = t.rows.len() - 1;
            let row = &t.rows[last];
            proof {
                lemma_best_of_push_new(
                    old(t).rows@,
                    claims.sub,
                    purpose@,
                    t.rows@.last(),
                );
            }
            match unwrap_key_v1(mk, row.wrapped_key.as_str()) {
                Ok(dk) => Ok((id, dk)),
                Err(_) => {
                    proof {
                        assert(false);
                    }
                    Err(ApiError::WrapIntegrityFailure)
                },
            }
        },
    }
}

} // verus!
