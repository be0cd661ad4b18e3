//! The request-facing audit-history operations, thin rules over the
//! operation store: a defaulted and clamped row limit for listing, and a
//! not-found error for deleting a row the caller does not own.

use vstd::prelude::*;

use crate::claims::Claims;
use crate::dto::{HistoryItem, SaveHistoryIn};
use crate::errors::ApiError;
use crate::ops::{
    delete_operation, has_own_op, insert_operation, list_operations, list_spec, opt_text_view,
    to_item, ListParams, OpRow, OpsTable,
};

verus! {

/// Filters and row limit for a history listing.
pub struct ListQuery {
    pub kind: Option<String>,
    pub algo: Option<String>,
    pub limit: Option<i64>,
}

/// The effective row limit of a listing: 50 when none was asked for,
/// and always between 1 and 200.
pub open spec fn clamped_limit(l: Option<i64>) -> int {
    let x = match l {
        Option::Some(v) => v as int,
        Option::None => 50int,
    };
    if x < 1 {
        1int
    } else if x > 200 {
        200int
    } else {
        x
    }
}

/// Records one audit entry for this identity and returns its id.
pub fn save_history(t: &mut OpsTable, claims: &Claims, input: &SaveHistoryIn) -> (id: u64)
    requires
        old(t).wf(),
        old(t).next_id < u64::MAX,
        old(t).clock < u64::MAX,
    ensures
        final(t).wf(),
        id == old(t).next_id,
        final(t).next_id == old(t).next_id + 1,
        final(t).rows@ == old(t).rows@.push(final(t).rows@.last()),
        final(t).rows@.last().id == id,
        final(t).rows@.last().user_id == claims.sub,
        final(t).rows@.last().kind@ == input.kind@,
        final(t).rows@.last().algo@ == input.algo@,
        final(t).rows@.last().meta_json@ == input.meta_json@,
        final(t).rows@.last().took_ms == input.took_ms,
{
    insert_operation(
        t,
        claims,
        input.kind.as_str(),
        input.algo.as_str(),
        input.meta_json.as_str(),
        input.took_ms,
    )
}

/// Lists this identity's audit entries, newest first, with the query's
/// filters and its defaulted, clamped row limit.
pub fn list_history(t: &OpsTable, claims: &Claims, q: &ListQuery) -> (r: Vec<HistoryItem>)
    ensures
        r@ == list_spec(
            t.rows@,
            claims.sub,
            opt_text_view(q.kind),
            opt_text_view(q.algo),
            clamped_limit(q.limit),
        ).map_values(|o: OpRow| to_item(o)),
{
    let raw: i64 = match q.limit {
        Some(v) => v,
        None => 50,
    };
    let limit: i64 = if raw < 1 {
        1
    } else if raw > 200 {
        200
    } else {
        raw
    };
    let params = ListParams {
        kind: match &q.kind {
            Some(s) => Some(s.clone()),
            None => None,
        },
        algo: match &q.algo {
            Some(s) => Some(s.clone()),
            None => None,
        },
        limit,
    };
    proof {
        assert(opt_text_view(params.kind) == opt_text_view(q.kind));
        assert(opt_text_view(params.algo) == opt_text_view(q.algo));
        assert(params.limit as int == clamped_limit(q.limit));
    }
    list_operations(t, claims, &params)
}

/// Deletes this identity's audit entry with the given id, failing with
/// `NotFound` when no owned row matches — whether the id is absent or the
/// row belongs to another tenant.
pub fn delete_history(t: &mut OpsTable, claims: &Claims, id: u64) -> (r: Result<(), ApiError>)
    requires
        old(t).wf(),
    ensures
        final(t).wf(),
        r is Ok <==> has_own_op(old(t).rows@, claims.sub, id),
        r matches Err(e) ==> e is NotFound && *final(t) == *old(t),
        r is Ok ==> exists|i: int|
            0 <= i < old(t).rows@.len() && (#[trigger] old(t).rows@[i]).id == id && old(
                t,
            ).rows@[i].user_id == claims.sub && final(t).rows@ == old(t).rows@.remove(i),
{
    let n = delete_operation(t, claims, id);
    if n == 0 {
        Err(ApiError::NotFound)
    } else {
        Ok(())
    }
}

} // verus!
