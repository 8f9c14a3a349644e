//! The cache store: at most one snapshot per key, with exact and
//! approximate lookup and an advisory refresh policy.
use vstd::prelude::*;

use crate::key::{CacheKey, KeyView};
use crate::payload::PreparedTemp;

verus! {

/// Default bucket width in seconds (one hour): entries stay fresh for two
/// bucket widths.
pub const HOUR: u64 = 3600;

/// An entry made for `bucket_ts` is stale at time `now` once `now` lies at
/// least two bucket widths after it. A `now` before `bucket_ts` is never stale.
pub open spec fn stale(bucket_ts: u64, now: u64, width: u64) -> bool {
    now >= bucket_ts && now - bucket_ts >= 2 * width
}

/// A stored entry may answer a query for the same city when its bucket lies
/// less than two bucket widths from the query's, on either side: newer than
/// the query by less than the window, or older by less than the window (not
/// stale at the query's bucket).
pub open spec fn approx_match(stored: KeyView, query: KeyView, width: u64) -> bool {
    &&& stored.city == query.city
    &&& stored.bucket_ts < query.bucket_ts + 2 * width
    &&& !stale(stored.bucket_ts, query.bucket_ts, width)
}

/// Distance in seconds between two timestamps.
pub open spec fn distance(a: u64, b: u64) -> nat {
    if a >= b {
        (a - b) as nat
    } else {
        (b - a) as nat
    }
}

/// Exact lookup in a store's contents.
pub open spec fn lookup(m: Map<KeyView, PreparedTemp>, k: KeyView) -> Option<PreparedTemp> {
    if m.contains_key(k) {
        Some(m[k])
    } else {
        None
    }
}

/// Whether some stored entry may answer `query`.
pub open spec fn has_approx_match(m: Map<KeyView, PreparedTemp>, query: KeyView, width: u64) -> bool {
    exists|k: KeyView| #[trigger] m.contains_key(k) && approx_match(k, query, width)
}

/// `k` is a stored entry that may answer `query`, and no such entry lies
/// nearer to the query's bucket.
pub open spec fn nearest_match(
    m: Map<KeyView, PreparedTemp>,
    k: KeyView,
    query: KeyView,
    width: u64,
) -> bool {
    &&& m.contains_key(k)
    &&& approx_match(k, query, width)
    &&& forall|k2: KeyView|
        #[trigger] m.contains_key(k2) && approx_match(k2, query, width) ==> distance(
            k.bucket_ts,
            query.bucket_ts,
        ) <= distance(k2.bucket_ts, query.bucket_ts)
}

/// `order[i]` is a nearest matching entry for `query`, and no key before it
/// in `order` is one.
pub open spec fn first_nearest(
    m: Map<KeyView, PreparedTemp>,
    order: Seq<KeyView>,
    i: int,
    query: KeyView,
    width: u64,
) -> bool {
    &&& 0 <= i < order.len()
    &&& nearest_match(m, order[i], query, width)
    &&& forall|j: int| 0 <= j < i ==> !nearest_match(m, #[trigger] order[j], query, width)
}

/// What an approximate lookup of `query` answers, given the contents `m` and
/// the keys in the order they were first stored: the exact entry if there is
/// one; else the snapshot of the nearest matching entry, the earliest stored
/// among equally near ones; else nothing.
pub open spec fn approx_answer(
    m: Map<KeyView, PreparedTemp>,
    order: Seq<KeyView>,
    query: KeyView,
    width: u64,
    r: Option<PreparedTemp>,
) -> bool {
    if m.contains_key(query) {
        r == Some(m[query])
    } else if has_approx_match(m, query, width) {
        exists|i: int| #[trigger] first_nearest(m, order, i, query, width) && r == Some(m[order[i]])
    } else {
        r is None
    }
}

/// Whether the entry stored under `k` is due for a refresh at time `now`.
pub open spec fn refresh_due(m: Map<KeyView, PreparedTemp>, k: KeyView, now: u64, width: u64) -> bool {
    m.contains_key(k) && stale(k.bucket_ts, now, width)
}

/// A store of weather snapshots keyed by [`CacheKey`].
///
/// Entries live in a `Vec` in the order their keys were first stored, one per
/// key; nothing is evicted. The order is part of the model: it settles which
/// of several equally near entries an approximate lookup returns. A hashed
/// map is not used: it would make that choice depend on the hasher, and its
/// specification cannot be relied on for a key that holds a `String`.
#[derive(Clone)]
pub struct RuntimeCache {
    responses: Vec<(CacheKey, PreparedTemp)>,
    bucket_width: u64,
    contents: Ghost<Map<KeyView, PreparedTemp>>,
}

impl View for RuntimeCache {
    type V = Map<KeyView, PreparedTemp>;

    closed spec fn view(&self) -> Map<KeyView, PreparedTemp> {
        self.contents@
    }
}

impl RuntimeCache {
    /// The bucket width (seconds) that the freshness window is made of.
    pub closed spec fn width(&self) -> u64 {
        self.bucket_width
    }

    /// The stored keys, in the order they were first stored.
    pub closed spec fn keys(&self) -> Seq<KeyView> {
        Seq::new(self.responses.len() as nat, |i: int| self.responses@[i].0@)
    }

    /// The store's invariant: the contents are finite and listed once each,
    /// in storing order, by `keys`; the bucket width is positive and the
    /// freshness window fits in a `u64`.
    pub open spec fn wf(&self) -> bool {
        &&& self.inv()
        &&& self@.dom().finite()
        &&& 0 < self.width() <= u64::MAX / 2
        &&& self.keys().len() == self@.len()
        &&& self.keys().no_duplicates()
        &&& forall|i: int| 0 <= i < self.keys().len() ==> #[trigger] self@.contains_key(self.keys()[i])
        &&& forall|k: KeyView| #[trigger] self@.contains_key(k) ==> self.keys().contains(k)
    }

    /// The representation's invariant: the entries hold exactly the contents.
    pub closed spec fn inv(&self) -> bool {
        &&& 0 < self.bucket_width <= u64::MAX / 2
        &&& self.contents@.dom().finite()
        &&& self.contents@.len() == self.responses.len()
        &&& forall|i: int|
            0 <= i < self.responses.len() ==> #[trigger] self.contents@.contains_key(
                self.responses@[i].0@,
            ) && self.contents@[self.responses@[i].0@] == self.responses@[i].1
        &&& forall|k: KeyView| #[trigger]
            self.contents@.contains_key(k) ==> exists|i: int|
                0 <= i < self.responses.len() && #[trigger] self.responses@[i].0@ == k
        &&& forall|i: int, j: int|
            0 <= i < j < self.responses.len() ==> #[trigger] self.responses@[i].0@
                != #[trigger] self.responses@[j].0@
    }

    /// The representation's invariant gives the public one.
    proof fn lemma_inv_wf(&self)
        requires
            self.inv(),
        ensures
            self.wf(),
    {
        assert forall|k: KeyView| #[trigger] self@.contains_key(k) implies self.keys().contains(k) by {
            let i = choose|i: int| 0 <= i < self.responses.len() && #[trigger] self.responses@[i].0@ == k;
            assert(self.keys()[i] == k);
        }
        assert forall|i: int, j: int| 0 <= i < self.keys().len() && 0 <= j < self.keys().len() && i != j
            implies self.keys()[i] != self.keys()[j] by {
            if i < j {
                assert(self.responses@[i].0@ != self.responses@[j].0@);
            } else {
                assert(self.responses@[j].0@ != self.responses@[i].0@);
            }
        }
        assert forall|i: int| 0 <= i < self.keys().len() implies #[trigger] self@.contains_key(self.keys()[i]) by {
            assert(self.contents@.contains_key(self.responses@[i].0@));
        }
    }

    /// An empty store whose buckets are one hour wide.
    pub fn new() -> (r: RuntimeCache)
        ensures
            r.wf(),
            r@ == Map::<KeyView, PreparedTemp>::empty(),
            r.keys() == Seq::<KeyView>::empty(),
            r.width() == HOUR,
    {
        RuntimeCache::with_bucket_width(HOUR)
    }

    /// An empty store whose buckets are `width` seconds wide.
    pub fn with_bucket_width(width: u64) -> (r: RuntimeCache)
        requires
            0 < width <= u64::MAX / 2,
        ensures
            r.wf(),
            r@ == Map::<KeyView, PreparedTemp>::empty(),
            r.keys() == Seq::<KeyView>::empty(),
            r.width() == width,
    {
        let r = RuntimeCache {
            responses: Vec::new(),
            bucket_width: width,
            contents: Ghost(Map::empty()),
        };
        proof {
            r.lemma_inv_wf();
            assert(r.keys() =~= Seq::<KeyView>::empty());
        }
        r
    }

    /// The bucket width in seconds.
    pub fn bucket_width(&self) -> (r: u64)
        ensures
            r == self.width(),
    {
        self.bucket_width
    }

    /// The position of the entry stored under `key`, if any.
    fn find(&self, key: &CacheKey) -> (r: Option<usize>)
        requires
            self.wf(),
        ensures
            match r {
                Some(i) => i < self.responses.len() && self.responses@[i as int].0@ == key@,
                None => !self@.contains_key(key@),
            },
    {
        let mut i: usize = 0;
        while i < self.responses.len()
            invariant
                self.wf(),
                i <= self.responses.len(),
                forall|j: int| 0 <= j < i ==> self.responses@[j].0@ != key@,
            decreases self.responses.len() - i,
        {
            if self.responses[i].0 == *key {
                return Some(i);
            }
            i = i + 1;
        }
        None
    }

    /// Whether the entry stored under exactly `key` is stale at time `ts`:
    /// true only when there is such an entry and `ts` lies at least two
    /// bucket widths after the key's bucket.
    pub fn should_refresh(&self, key: &CacheKey, ts: u64) -> (r: bool)
        requires
            self.wf(),
        ensures
            r == refresh_due(self@, key@, ts, self.width()),
    {
        match self.find(key) {
            Some(_) => ts >= key.bucket_ts && ts - key.bucket_ts >= 2 * self.bucket_width,
            None => false,
        }
    }

    /// Stores `value` under `key`, replacing what was stored there.
    pub fn set(&mut self, key: CacheKey, value: PreparedTemp)
        requires
            old(self).wf(),
        ensures
            final(self).wf(),
            final(self)@ == old(self)@.insert(key@, value),
            final(self).keys() == if old(self)@.contains_key(key@) {
                old(self).keys()
            } else {
                old(self).keys().push(key@)
            },
            final(self).width() == old(self).width(),
    {
        let ghost k = key@;
        let ghost ks0 = self.keys();
        let ghost rs0 = self.responses@;
        let ghost m0 = self.contents@;
        match self.find(&key) {
            Some(i) => {
                self.responses[i] = (key, value);
                self.contents = Ghost(m0.insert(k, value));
                proof {
                    assert(m0.insert(k, value).dom() =~= m0.dom());
                    assert(self.keys() =~= ks0);
                    assert(self.responses@ == rs0.update(i as int, (self.responses@[i as int].0, value)));
                    assert forall|j: int| 0 <= j < self.responses.len() implies
                        #[trigger] self.contents@.contains_key(self.responses@[j].0@)
                        && self.contents@[self.responses@[j].0@] == self.responses@[j].1 by {
                        if j != i as int {
                            assert(rs0[j].0@ != rs0[i as int].0@);
                        }
                    }
                    assert forall|k2: KeyView| #[trigger] self.contents@.contains_key(k2)
                        implies exists|j: int| 0 <= j < self.responses.len()
                            && #[trigger] self.responses@[j].0@ == k2 by {
                        assert(m0.contains_key(k2));
                        let j = choose|j: int| 0 <= j < rs0.len() && #[trigger] rs0[j].0@ == k2;
                        assert(self.responses@[j].0@ == k2);
                    }
                }
            },
            None => {
                self.responses.push((key, value));
                self.contents = Ghost(m0.insert(k, value));
                proof {
                    let n = rs0.len() as int;
                    assert(self.responses@[n].0@ == k);
                    assert(self.keys() =~= ks0.push(k));
                    assert forall|j: int| 0 <= j < self.responses.len() implies
                        #[trigger] self.contents@.contains_key(self.responses@[j].0@)
                        && self.contents@[self.responses@[j].0@] == self.responses@[j].1 by {
                        if j < n {
                            assert(self.responses@[j] == rs0[j]);
                            assert(m0.contains_key(rs0[j].0@));
                        }
                    }
                    assert forall|k2: KeyView| #[trigger] self.contents@.contains_key(k2)
                        implies exists|j: int| 0 <= j < self.responses.len()
                            && #[trigger] self.responses@[j].0@ == k2 by {
                        if k2 != k {
                            assert(m0.contains_key(k2));
                            let j = choose|j: int| 0 <= j < rs0.len() && #[trigger] rs0[j].0@ == k2;
                            assert(self.responses@[j].0@ == k2);
                        }
                    }
                    assert forall|a: int, b: int| 0 <= a < b < self.responses.len() implies
                        #[trigger] self.responses@[a].0@ != #[trigger] self.responses@[b].0@ by {
                        assert(self.responses@[a] == rs0[a]);
                        if b < n {
                            assert(self.responses@[b] == rs0[b]);
                        } else {
                            assert(m0.contains_key(rs0[a].0@));
                        }
                    }
                }
            },
        }
        proof {
            self.lemma_inv_wf();
        }
    }

    /// The snapshot stored under exactly `key`.
    pub fn get(&self, key: &CacheKey) -> (r: Option<PreparedTemp>)
        requires
            self.wf(),
        ensures
            r == lookup(self@, key@),
    {
        match self.find(key) {
            Some(i) => Some(self.responses[i].1),
            None => None,
        }
    }

    /// Approximate lookup: the snapshot stored under exactly `key_aprx` if
    /// there is one; else that of the stored entry for the same city whose
    /// bucket lies less than two bucket widths from the query's, on either
    /// side, and nearest to it (the earliest stored among equally near ones,
    /// as `keys` orders them); else nothing.
    pub fn get_aprx(&self, key_aprx: &CacheKey) -> (r: Option<PreparedTemp>)
        requires
            self.wf(),
        ensures
            approx_answer(self@, self.keys(), key_aprx@, self.width(), r),
            r is Some <==> has_approx_match(self@, key_aprx@, self.width()),
    {
        let ghost w = self.bucket_width;
        let ghost qv = key_aprx@;
        if let Some(value) = self.get(key_aprx) {
            proof {
                assert(approx_match(qv, qv, w));
            }
            return Some(value);
        }
        let window = 2 * self.bucket_width;
        let q = key_aprx.bucket_ts;
        let mut best: Option<usize> = None;
        let mut best_dist: u64 = 0;
        let mut i: usize = 0;
        while i < self.responses.len()
            invariant
                self.wf(),
                w == self.bucket_width,
                window == 2 * w,
                q == qv.bucket_ts,
                qv == key_aprx@,
                i <= self.responses.len(),
                match best {
                    Some(b) => {
                        &&& b < i
                        &&& approx_match(self.responses@[b as int].0@, qv, w)
                        &&& best_dist == distance(self.responses@[b as int].0.bucket_ts, q)
                        &&& forall|j: int|
                            0 <= j < b && approx_match(#[trigger] self.responses@[j].0@, qv, w)
                                ==> best_dist < distance(self.responses@[j].0.bucket_ts, q)
                        &&& forall|j: int|
                            0 <= j < i && approx_match(#[trigger] self.responses@[j].0@, qv, w)
                                ==> best_dist <= distance(self.responses@[j].0.bucket_ts, q)
                    },
                    None => forall|j: int|
                        0 <= j < i ==> !approx_match(#[trigger] self.responses@[j].0@, qv, w),
                },
            decreases self.responses.len() - i,
        {
            let k = &self.responses[i].0;
            if k.city == key_aprx.city && !(k.bucket_ts >= q && k.bucket_ts - q >= window) && !(q
                >= k.bucket_ts && q - k.bucket_ts >= window) {
                let d = if k.bucket_ts >= q {
                    k.bucket_ts - q
                } else {
                    q - k.bucket_ts
                };
                match best {
                    None => {
                        best = Some(i);
                        best_dist = d;
                    },
                    Some(_) => {
                        if d < best_dist {
                            best = Some(i);
                            best_dist = d;
                        }
                    },
                }
            }
            proof {
                assert(self.responses@[i as int].0@ == k@);
            }
            i = i + 1;
        }
        match best {
            Some(b) => {
                proof {
                    let kb = self.responses@[b as int].0@;
                    assert forall|k2: KeyView|
                        #[trigger] self@.contains_key(k2) && approx_match(k2, qv, w) implies distance(
                            kb.bucket_ts,
                            qv.bucket_ts,
                        ) <= distance(k2.bucket_ts, qv.bucket_ts) by {
                        let j = choose|j: int|
                            0 <= j < self.responses.len() && #[trigger] self.responses@[j].0@ == k2;
                        assert(approx_match(self.responses@[j].0@, qv, w));
                    }
                    assert(nearest_match(self@, kb, qv, w));
                    assert(self@.contains_key(kb));
                    assert(self.keys()[b as int] == kb);
                    assert forall|j: int| 0 <= j < b implies !nearest_match(
                        self@,
                        #[trigger] self.keys()[j],
                        qv,
                        w,
                    ) by {
                        assert(self.keys()[j] == self.responses@[j].0@);
                    }
                    assert(first_nearest(self@, self.keys(), b as int, qv, w));
                }
                Some(self.responses[b].1)
            },
            None => {
                proof {
                    assert forall|k2: KeyView| #[trigger]
                        self@.contains_key(k2) implies !approx_match(k2, qv, w) by {
                        let j = choose|j: int|
                            0 <= j < self.responses.len() && #[trigger] self.responses@[j].0@ == k2;
                        assert(!approx_match(self.responses@[j].0@, qv, w));
                    }
                }
                None
            },
        }
    }

    /// Removes the entry stored under `key`, if there is one.
    pub fn del(&mut self, key: &CacheKey)
        requires
            old(self).wf(),
        ensures
            final(self).wf(),
            final(self)@ == old(self)@.remove(key@),
            old(self)@.contains_key(key@) ==> exists|i: int|
                0 <= i < old(self).keys().len() && old(self).keys()[i] == key@ && final(self).keys()
                    == old(self).keys().remove(i),
            !old(self)@.contains_key(key@) ==> final(self).keys() == old(self).keys(),
            final(self).width() == old(self).width(),
    {
        let ghost ks0 = self.keys();
        let ghost rs0 = self.responses@;
        let ghost m0 = self.contents@;
        match self.find(key) {
            Some(i) => {
                self.responses.remove(i);
                self.contents = Ghost(m0.remove(key@));
                proof {
                    let ii = i as int;
                    assert(self.keys() =~= ks0.remove(ii));
                    assert(ks0[ii] == key@);
                    assert forall|j: int| 0 <= j < self.responses.len() implies
                        #[trigger] self.contents@.contains_key(self.responses@[j].0@)
                        && self.contents@[self.responses@[j].0@] == self.responses@[j].1 by {
                        if j < ii {
                            assert(self.responses@[j] == rs0[j]);
                            assert(rs0[j].0@ != rs0[ii].0@);
                            assert(m0.contains_key(rs0[j].0@));
                        } else {
                            assert(self.responses@[j] == rs0[j + 1]);
                            assert(rs0[ii].0@ != rs0[j + 1].0@);
                            assert(m0.contains_key(rs0[j + 1].0@));
                        }
                    }
                    assert forall|k2: KeyView| #[trigger] self.contents@.contains_key(k2)
                        implies exists|j: int| 0 <= j < self.responses.len()
                            && #[trigger] self.responses@[j].0@ == k2 by {
                        assert(m0.contains_key(k2));
                        let j = choose|j: int| 0 <= j < rs0.len() && #[trigger] rs0[j].0@ == k2;
                        assert(j != ii);
                        if j < ii {
                            assert(self.responses@[j].0@ == k2);
                        } else {
                            assert(self.responses@[j - 1].0@ == k2);
                        }
                    }
                    assert forall|a: int, b: int| 0 <= a < b < self.responses.len() implies
                        #[trigger] self.responses@[a].0@ != #[trigger] self.responses@[b].0@ by {
                        let a0 = if a < ii { a } else { a + 1 };
                        let b0 = if b < ii { b } else { b + 1 };
                        assert(self.responses@[a] == rs0[a0]);
                        assert(self.responses@[b] == rs0[b0]);
                        assert(rs0[a0].0@ != rs0[b0].0@);
                    }
                }
            },
            None => {
                proof {
                    assert(m0.remove(key@) =~= m0);
                }
            },
        }
        proof {
            self.lemma_inv_wf();
        }
    }

    /// The number of entries.
    pub fn len(&self) -> (r: usize)
        requires
            self.wf(),
        ensures
            r == self@.len(),
    {
        self.responses.len()
    }
}

} // verus!
