//! The shared handle on a cache store.
use vstd::prelude::*;

use crate::key::{CacheKey, KeyView};
use crate::payload::PreparedTemp;
use crate::store::{approx_answer, has_approx_match, lookup, refresh_due, RuntimeCache};

verus! {

/// Owns one cache backend. Callers that share it across tasks wrap it in a
/// reader/writer lock: lookups under the read lock, `set` and `del` under
/// the write lock.
#[derive(Debug, Clone)]
pub struct CacheService<C: Clone> {
    service: C,
}

impl<C: Clone> CacheService<C> {
    /// The backend held.
    pub closed spec fn backend(&self) -> C {
        self.service
    }

    /// Wraps `service`.
    pub fn new(service: C) -> (r: CacheService<C>)
        ensures
            r.backend() == service,
    {
        CacheService { service }
    }
}

impl View for CacheService<RuntimeCache> {
    type V = Map<KeyView, PreparedTemp>;

    open spec fn view(&self) -> Map<KeyView, PreparedTemp> {
        self.backend()@
    }
}

impl CacheService<RuntimeCache> {
    /// The backend's invariant.
    pub open spec fn wf(&self) -> bool {
        self.backend().wf()
    }

    /// The backend's keys, in the order they were first stored.
    pub open spec fn keys(&self) -> Seq<KeyView> {
        self.backend().keys()
    }

    /// The backend's bucket width in seconds.
    pub open spec fn width(&self) -> u64 {
        self.backend().width()
    }

    /// See [`RuntimeCache::should_refresh`].
    pub fn should_refresh(&self, key: &CacheKey, ts: u64) -> (r: bool)
        requires
            self.wf(),
        ensures
            r == refresh_due(self@, key@, ts, self.width()),
    {
        self.service.should_refresh(key, ts)
    }

    /// See [`RuntimeCache::set`].
    pub fn set(&mut self, key: CacheKey, value: PreparedTemp)
        requires
            old(self).wf(),
        ensures
            final(self).wf(),
            final(self)@ == old(self)@.insert(key@, value),
            final(self).keys() == if old(self)@.contains_key(key@) {
                old(self).keys()
            } else {
                old(self).keys().push(key@)
            },
            final(self).width() == old(self).width(),
    {
        self.service.set(key, value);
    }

    /// See [`RuntimeCache::get`].
    pub fn get(&self, key: &CacheKey) -> (r: Option<PreparedTemp>)
        requires
            self.wf(),
        ensures
            r == lookup(self@, key@),
    {
        self.service.get(key)
    }

    /// See [`RuntimeCache::get_aprx`].
    pub fn get_aprx(&self, key_aprx: &CacheKey) -> (r: Option<PreparedTemp>)
        requires
            self.wf(),
        ensures
            approx_answer(self@, self.keys(), key_aprx@, self.width(), r),
            r is Some <==> has_approx_match(self@, key_aprx@, self.width()),
    {
        self.service.get_aprx(key_aprx)
    }

    /// See [`RuntimeCache::del`].
    pub fn del(&mut self, key: &CacheKey)
        requires
            old(self).wf(),
        ensures
            final(self).wf(),
            final(self)@ == old(self)@.remove(key@),
            old(self)@.contains_key(key@) ==> exists|i: int|
                0 <= i < old(self).keys().len() && old(self).keys()[i] == key@ && final(self).keys()
                    == old(self).keys().remove(i),
            !old(self)@.contains_key(key@) ==> final(self).keys() == old(self).keys(),
            final(self).width() == old(self).width(),
    {
        let ghost old_backend = self.service;
        let ghost ks0 = self.keys();
        self.service.del(key);
        proof {
            if old_backend@.contains_key(key@) {
                let i = choose|i: int|
                    0 <= i < old_backend.keys().len() && old_backend.keys()[i] == key@
                        && self.service.keys() == old_backend.keys().remove(i);
                assert(ks0[i] == key@ && self.keys() == ks0.remove(i));
            }
        }
    }

    /// See [`RuntimeCache::len`].
    pub fn len(&self) -> (r: usize)
        requires
            self.wf(),
        ensures
            r == self@.len(),
    {
        self.service.len()
    }
}

} // verus!
