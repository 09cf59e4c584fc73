//! A value remembered for a limited time.
//!
//! Time is a monotonic clock reading in milliseconds, supplied by the caller.

use vstd::prelude::*;

verus! {

/// A cached value with a time to live.
pub struct CachedValue<T> {
    pub value: Option<T>,
    pub last_updated: Option<u64>,
    pub ttl: u64,
}

/// Milliseconds from `then` to `now`; zero when `now` is earlier (as
/// `Instant::elapsed` saturates).
pub open spec fn elapsed(then: u64, now: u64) -> int {
    if now >= then {
        now - then
    } else {
        0
    }
}

impl<T> CachedValue<T> {
    /// The cache holds a value, set less than `ttl` milliseconds before `now`.
    pub open spec fn is_fresh(&self, now: u64) -> bool {
        &&& self.value is Some
        &&& self.last_updated matches Some(t) && elapsed(t, now) < self.ttl
    }

    /// An empty cache whose entries live `ttl` milliseconds.
    pub fn new(ttl: u64) -> (r: Self)
        ensures
            r.value is None,
            r.last_updated is None,
            r.ttl == ttl,
    {
        CachedValue { value: None, last_updated: None, ttl }
    }

    /// The cached value if it is still fresh at `now`.
    pub fn get(&self, now: u64) -> (r: Option<&T>)
        ensures
            r == (if self.is_fresh(now) {
                Some(&self.value->0)
            } else {
                None
            }),
    {
        match (&self.value, &self.last_updated) {
            (Some(value), Some(last_updated)) => {
                let age = if now >= *last_updated {
                    now - *last_updated
                } else {
                    0
                };
                if age < self.ttl {
                    Some(value)
                } else {
                    None
                }
            },
            _ => None,
        }
    }

    /// Stores `value`, set at `now`.
    pub fn set(&mut self, value: T, now: u64)
        ensures
            final(self).value == Some(value),
            final(self).last_updated == Some(now),
            final(self).ttl == old(self).ttl,
    {
        self.value = Some(value);
        self.last_updated = Some(now);
    }
}

/// What a read gives back of a write: a value stored at `set_at` is returned
/// by `get(now)` exactly while fewer than `ttl` milliseconds have passed.
pub proof fn lemma_get_after_set<T>(cache: CachedValue<T>, value: T, set_at: u64, now: u64)
    ensures
        (CachedValue { value: Some(value), last_updated: Some(set_at), ..cache }).is_fresh(now)
            <==> elapsed(set_at, now) < cache.ttl,
{
}

/// A new cache is never fresh.
pub proof fn lemma_new_is_empty<T>(cache: CachedValue<T>, now: u64)
    requires
        cache.value is None,
        cache.last_updated is None,
    ensures
        !cache.is_fresh(now),
{
}

/// Whether work done at `last` is due again at `now`, `interval` later.
pub fn refresh_due(last: u64, now: u64, interval: u64) -> (r: bool)
    ensures
        r == (elapsed(last, now) >= interval),
{
    let age = if now >= last {
        now - last
    } else {
        0
    };
    age >= interval
}

} // verus!
