//! Laws of the cache, stated over the contents that the store's operations
//! are specified by.
use vstd::prelude::*;

use crate::key::{bucket_of, KeyView};
use crate::payload::PreparedTemp;
use crate::store::{
    approx_answer, approx_match, first_nearest, has_approx_match, lookup, refresh_due, stale,
};

verus! {

/// Storing `v` under `k` and then looking `k` up gives back exactly `v`.
pub proof fn lemma_set_then_get(m: Map<KeyView, PreparedTemp>, k: KeyView, v: PreparedTemp)
    ensures
        lookup(m.insert(k, v), k) == Some(v),
{
}

/// After `k` is deleted, looking `k` up finds nothing.
pub proof fn lemma_del_then_get(m: Map<KeyView, PreparedTemp>, k: KeyView)
    ensures
        lookup(m.remove(k), k) is None,
{
}

/// An approximate lookup in an empty store finds nothing, whatever the query.
pub proof fn lemma_approx_on_empty(
    order: Seq<KeyView>,
    query: KeyView,
    width: u64,
    r: Option<PreparedTemp>,
)
    requires
        approx_answer(Map::<KeyView, PreparedTemp>::empty(), order, query, width, r),
    ensures
        r is None,
{
    assert(!has_approx_match(Map::<KeyView, PreparedTemp>::empty(), query, width));
}

/// An entry whose key was built from the time `ts` is not due for a refresh
/// at `ts` itself, and is due at any time `now` at least two bucket widths
/// after its bucket.
pub proof fn lemma_fresh_after_set(
    m: Map<KeyView, PreparedTemp>,
    k: KeyView,
    v: PreparedTemp,
    ts: u64,
    now: u64,
    width: u64,
)
    requires
        width > 0,
        k.bucket_ts == bucket_of(ts, width),
    ensures
        !refresh_due(m.insert(k, v), k, ts, width),
        now >= k.bucket_ts + 2 * width ==> refresh_due(m.insert(k, v), k, now, width),
{
    assert(0 <= (ts as int) - (ts as int / width as int) * (width as int) < width) by (
    nonlinear_arith)
        requires
            width > 0,
    ;
}

/// Two writes under different keys do not disturb each other: in either
/// order they leave the same contents, each key holds what was written
/// under it, and every other key keeps what it held.
pub proof fn lemma_writes_commute(
    m: Map<KeyView, PreparedTemp>,
    k1: KeyView,
    v1: PreparedTemp,
    k2: KeyView,
    v2: PreparedTemp,
)
    requires
        k1 != k2,
    ensures
        m.insert(k1, v1).insert(k2, v2) == m.insert(k2, v2).insert(k1, v1),
        lookup(m.insert(k1, v1).insert(k2, v2), k1) == Some(v1),
        lookup(m.insert(k1, v1).insert(k2, v2), k2) == Some(v2),
        forall|k3: KeyView|
            k3 != k1 && k3 != k2 ==> lookup(m.insert(k1, v1).insert(k2, v2), k3) == lookup(m, k3),
{
    assert(m.insert(k1, v1).insert(k2, v2) =~= m.insert(k2, v2).insert(k1, v1));
}

/// Whatever an approximate lookup returns is the snapshot of a stored entry
/// for the query's city that is not stale at the query's bucket and lies
/// less than two bucket widths after it.
pub proof fn lemma_approx_is_fresh(
    m: Map<KeyView, PreparedTemp>,
    order: Seq<KeyView>,
    query: KeyView,
    width: u64,
    v: PreparedTemp,
)
    requires
        width > 0,
        approx_answer(m, order, query, width, Some(v)),
    ensures
        exists|k: KeyView|
            #[trigger] m.contains_key(k) && m[k] == v && k.city == query.city && k.bucket_ts
                < query.bucket_ts + 2 * width && !stale(k.bucket_ts, query.bucket_ts, width),
{
    if m.contains_key(query) {
        assert(m[query] == v && !stale(query.bucket_ts, query.bucket_ts, width));
    } else {
        let i = choose|i: int|
            #[trigger] first_nearest(m, order, i, query, width) && Some(v) == Some(m[order[i]]);
        assert(approx_match(order[i], query, width));
        assert(m.contains_key(order[i]));
    }
}

} // verus!
