//! The operation-audit store: ordinary tenant-scoped rows recording what
//! each identity did. Every query filters by the caller's subject, so one
//! tenant never sees or deletes another tenant's entries.

use vstd::prelude::*;

use crate::claims::Claims;
use crate::dto::HistoryItem;
use crate::str_eq;

verus! {

/// One audit row, always owned by exactly one tenant.
pub struct OpRow {
    pub id: u64,
    pub user_id: u128,
    pub kind: String,
    pub algo: String,
    pub meta_json: String,
    pub took_ms: Option<i32>,
    pub created_at: u64,
}

/// The audit table, with a fresh-id counter and a logical clock ordering
/// insertions.
pub struct OpsTable {
    pub rows: Vec<OpRow>,
    pub next_id: u64,
    pub clock: u64,
}

/// Filters for listing audit rows.
pub struct ListParams {
    pub kind: Option<String>,
    pub algo: Option<String>,
    pub limit: i64,
}

/// The character view of an optional filter text.
pub open spec fn opt_text_view(o: Option<String>) -> Option<Seq<char>> {
    match o {
        Option::Some(s) => Option::Some(s@),
        Option::None => Option::None,
    }
}

/// Whether a row belongs to the subject and passes both filters.
pub open spec fn row_matches(
    r: OpRow,
    sub: u128,
    kind: Option<Seq<char>>,
    algo: Option<Seq<char>>,
) -> bool {
    &&& r.user_id == sub
    &&& (kind matches Some(k) ==> r.kind@ == k)
    &&& (algo matches Some(a) ==> r.algo@ == a)
}

/// The rows a list query returns: the matching rows, newest first, at
/// most `limit` of them.
pub open spec fn list_spec(
    rows: Seq<OpRow>,
    sub: u128,
    kind: Option<Seq<char>>,
    algo: Option<Seq<char>>,
    limit: int,
) -> Seq<OpRow>
    decreases rows.len(),
{
    if rows.len() == 0 || limit <= 0 {
        Seq::empty()
    } else if row_matches(rows.last(), sub, kind, algo) {
        seq![rows.last()] + list_spec(rows.drop_last(), sub, kind, algo, limit - 1)
    } else {
        list_spec(rows.drop_last(), sub, kind, algo, limit)
    }
}

/// The listed form of an audit row.
pub open spec fn to_item(r: OpRow) -> HistoryItem {
    HistoryItem {
        id: r.id,
        kind: r.kind,
        algo: r.algo,
        meta_json: r.meta_json,
        created_at: r.created_at,
    }
}

/// Whether the subject owns a row with this id.
pub open spec fn has_own_op(rows: Seq<OpRow>, sub: u128, id: u64) -> bool {
    exists|i: int|
        0 <= i < rows.len() && (#[trigger] rows[i]).id == id && rows[i].user_id == sub
}

impl OpsTable {
    /// Ids are unique and below the counter; creation stamps strictly
    /// increase along the table and stay below the clock.
    pub open spec fn wf(&self) -> bool {
        &&& forall|i: int|
            0 <= i < self.rows@.len() ==> (#[trigger] self.rows@[i]).id < self.next_id
                && self.rows@[i].created_at < self.clock
        &&& forall|i: int, j: int|
            0 <= i < j < self.rows@.len() ==> (#[trigger] self.rows@[i]).id != (
            #[trigger] self.rows@[j]).id && self.rows@[i].created_at < self.rows@[j].created_at
    }

    /// An empty table.
    pub fn new() -> (t: OpsTable)
        ensures
            t.wf(),
            t.rows@.len() == 0,
            t.next_id == 1,
            t.clock == 1,
    {
        OpsTable { rows: Vec::new(), next_id: 1, clock: 1 }
    }
}

/// Records one operation for this identity and returns the new row's id.
pub fn insert_operation(
    t: &mut OpsTable,
    claims: &Claims,
    kind: &str,
    algo: &str,
    meta_json: &str,
    took_ms: Option<i32>,
) -> (id: u64)
    requires
        old(t).wf(),
        old(t).next_id < u64::MAX,
        old(t).clock < u64::MAX,
    ensures
        final(t).wf(),
        id == old(t).next_id,
        final(t).next_id == old(t).next_id + 1,
        final(t).clock == old(t).clock + 1,
        final(t).rows@ == old(t).rows@.push(final(t).rows@.last()),
        final(t).rows@.last().id == id,
        final(t).rows@.last().user_id == claims.sub,
        final(t).rows@.last().kind@ == kind@,
        final(t).rows@.last().algo@ == algo@,
        final(t).rows@.last().meta_json@ == meta_json@,
        final(t).rows@.last().took_ms == took_ms,
        final(t).rows@.last().created_at == old(t).clock,
{
    let id = t.next_id;
    let row = OpRow {
        id,
        user_id: claims.sub,
        kind: kind.to_owned(),
        algo: algo.to_owned(),
        meta_json: meta_json.to_owned(),
        took_ms,
        created_at: t.clock,
    };
    t.rows.push(row);
    t.next_id = t.next_id + 1;
    t.clock = t.clock + 1;
    proof {
        assert forall|i: int| 0 <= i < t.rows@.len() implies (#[trigger] t.rows@[i]).id
            < t.next_id && t.rows@[i].created_at < t.clock by {
            if i < t.rows@.len() - 1 {
                assert(t.rows@[i] == old(t).rows@[i]);
            }
        }
        assert forall|i: int, j: int| 0 <= i < j < t.rows@.len() implies (#[trigger] t.rows@[i]).id
            != (#[trigger] t.rows@[j]).id && t.rows@[i].created_at < t.rows@[j].created_at by {
            assert(t.rows@[i] == old(t).rows@[i]);
            if j < t.rows@.len() - 1 {
                assert(t.rows@[j] == old(t).rows@[j]);
            }
        }
    }
    id
}

/// Whether this row passes the subject and filter tests.
fn row_passes(r: &OpRow, claims: &Claims, params: &ListParams) -> (b: bool)
    ensures
        b == row_matches(*r, claims.sub, opt_text_view(params.kind), opt_text_view(params.algo)),
{
    if r.user_id != claims.sub {
        return false;
    }
    let kind_ok = match &params.kind {
        Some(k) => str_eq(r.kind.as_str(), k.as_str()),
        None => true,
    };
    let algo_ok = match &params.algo {
        Some(a) => str_eq(r.algo.as_str(), a.as_str()),
        None => true,
    };
    kind_ok && algo_ok
}

/// Lists this identity's audit rows, newest first, honouring the kind and
/// algo filters and the row limit.
pub fn list_operations(t: &OpsTable, claims: &Claims, params: &ListParams) -> (r: Vec<HistoryItem>)
    ensures
        r@ == list_spec(
            t.rows@,
            claims.sub,
            opt_text_view(params.kind),
            opt_text_view(params.algo),
            params.limit as int,
        ).map_values(|o: OpRow| to_item(o)),
{
    let ghost kindv = opt_text_view(params.kind);
    let ghost algov = opt_text_view(params.algo);
    let ghost limit = params.limit as int;
    let n = t.rows.len();
    let lim: usize = if params.limit <= 0 {
        0
    } else if (params.limit as u64) >= (n as u64) {
        n
    } else {
        params.limit as usize
    };
    let mut out: Vec<HistoryItem> = Vec::new();
    let ghost mut picked = Seq::<OpRow>::empty();
    let mut i: usize = n;
    proof {
        assert(t.rows@.take(n as int) =~= t.rows@);
        assert(out@ =~= picked.map_values(|o: OpRow| to_item(o)));
    }
    while i > 0 && out.len() < lim
        invariant
            n == t.rows@.len(),
            i <= n,
            kindv == opt_text_view(params.kind),
            algov == opt_text_view(params.algo),
            limit == params.limit as int,
            lim == (if limit <= 0 { 0int } else if limit >= n { n as int } else { limit }),
            picked.len() <= n - i,
            out@ == picked.map_values(|o: OpRow| to_item(o)),
            out@.len() == picked.len(),
            list_spec(t.rows@, claims.sub, kindv, algov, limit) == picked + list_spec(
                t.rows@.take(i as int),
                claims.sub,
                kindv,
                algov,
                limit - picked.len(),
            ),
        decreases i,
    {
        proof {
            assert(t.rows@.take(i as int).drop_last() =~= t.rows@.take(i as int - 1));
            assert(t.rows@.take(i as int).last() == t.rows@[i - 1]);
        }
        let row = &t.rows[i - 1];
        if row_passes(row, claims, params) {
            proof {
                assert(row_matches(t.rows@[i - 1], claims.sub, kindv, algov));
            }
            out.push(
                HistoryItem {
                    id: row.id,
                    kind: row.kind.clone(),
                    algo: row.algo.clone(),
                    meta_json: row.meta_json.clone(),
                    created_at: row.created_at,
                },
            );
            proof {
                let prev = picked;
                picked = prev.push(t.rows@[i - 1]);
                assert(out@.last() == to_item(t.rows@[i - 1]));
                assert(out@ =~= picked.map_values(|o: OpRow| to_item(o)));
                assert(limit - prev.len() > 0);
                assert(list_spec(t.rows@.take(i as int), claims.sub, kindv, algov,
                    limit - prev.len()) == seq![t.rows@[i - 1]] + list_spec(
                    t.rows@.take(i as int - 1),
                    claims.sub,
                    kindv,
                    algov,
                    limit - prev.len() - 1,
                ));
                assert(prev + (seq![t.rows@[i - 1]] + list_spec(
                    t.rows@.take(i as int - 1),
                    claims.sub,
                    kindv,
                    algov,
                    limit - picked.len(),
                )) =~= picked + list_spec(
                    t.rows@.take(i as int - 1),
                    claims.sub,
                    kindv,
                    algov,
                    limit - picked.len(),
                ));
            }
        }
        i -= 1;
    }
    proof {
        if i == 0 {
            assert(t.rows@.take(0) =~= Seq::<OpRow>::empty());
        }
        assert(list_spec(t.rows@, claims.sub, kindv, algov, limit) =~= picked);
        assert(out@ =~= list_spec(t.rows@, claims.sub, kindv, algov, limit).map_values(
            |o: OpRow| to_item(o),
        ));
    }
    out
}

/// Deletes the identity's own audit row with this id, if there is one,
/// and reports how many rows went away. Another tenant's row is untouched
/// and indistinguishable from an absent one.
pub fn delete_operation(t: &mut OpsTable, claims: &Claims, id: u64) -> (n: u64)
    requires
        old(t).wf(),
    ensures
        final(t).wf(),
        final(t).next_id == old(t).next_id,
        final(t).clock == old(t).clock,
        n == 1 <==> has_own_op(old(t).rows@, claims.sub, id),
        n == 0 || n == 1,
        n == 0 ==> *final(t) == *old(t),
        n == 1 ==> exists|i: int|
            0 <= i < old(t).rows@.len() && (#[trigger] old(t).rows@[i]).id == id && old(
                t,
            ).rows@[i].user_id == claims.sub && final(t).rows@ == old(t).rows@.remove(i),
{
    let len = t.rows.len();
    let mut i: usize = 0;
    while i < len
        invariant
            len == t.rows@.len(),
            i <= len,
            *t == *old(t),
            old(t).wf(),
            forall|j: int|
                0 <= j < i ==> !((#[trigger] t.rows@[j]).id == id && t.rows@[j].user_id
                    == claims.sub),
        decreases len - i,
    {
        let row = &t.rows[i];
        if row.id == id && row.user_id == claims.sub {
            t.rows.remove(i);
            proof {
                old(t).rows@.remove_ensures(i as int);
                assert(t.rows@ == old(t).rows@.remove(i as int));
                assert forall|a: int| 0 <= a < t.rows@.len() implies (#[trigger] t.rows@[a]).id
                    < t.next_id && t.rows@[a].created_at < t.clock by {
                    if a < i {
                        assert(old(t).rows@.remove(i as int)[a] == old(t).rows@[a]);
                        assert(t.rows@[a] == old(t).rows@[a]);
                    } else {
                        assert(old(t).rows@.remove(i as int)[a] == old(t).rows@[a + 1]);
                        assert(t.rows@[a] == old(t).rows@[a + 1]);
                    }
                }
                assert forall|a: int, b: int| 0 <= a < b < t.rows@.len() implies (
                #[trigger] t.rows@[a]).id != (#[trigger] t.rows@[b]).id && t.rows@[a].created_at
                    < t.rows@[b].created_at by {
                    if a < i {
                        assert(old(t).rows@.remove(i as int)[a] == old(t).rows@[a]);
                    } else {
                        assert(old(t).rows@.remove(i as int)[a] == old(t).rows@[a + 1]);
                    }
                    if b < i {
                        assert(old(t).rows@.remove(i as int)[b] == old(t).rows@[b]);
                    } else {
                        assert(old(t).rows@.remove(i as int)[b] == old(t).rows@[b + 1]);
                    }
                }
            }
            return 1;
        }
        i += 1;
    }
    proof {
        if has_own_op(t.rows@, claims.sub, id) {
            let j = choose|j: int|
                0 <= j < t.rows@.len() && (#[trigger] t.rows@[j]).id == id && t.rows@[j].user_id
                    == claims.sub;
            assert(false);
        }
    }
    0
}

} // verus!
