//! A value that is kept for a fixed time and then fetched anew.
//!
//! The cache itself neither reads a clock nor fetches anything. Its owner asks
//! it what to do at a given time, runs the producer where it says so, and hands
//! back what the producer gave. Times are milliseconds since the Unix epoch.

use vstd::prelude::*;

verus! {

/// What the owner of a cache has to do before it reads the value.
#[derive(Debug, Clone, Copy, PartialEq, Eq, Structural)]
pub enum CacheAction {
    /// The value is fresh: read it.
    Serve,
    /// The value is stale: run the producer and hand in its outcome.
    Refresh,
}

/// One value with the time at which it goes stale.
#[derive(Debug)]
pub struct FreshData<D> {
    frequency: i64,
    expires_at: i64,
    data: D,
}

impl<D> FreshData<D> {
    /// For how long a fetched value stays fresh.
    pub closed spec fn frequency(&self) -> int {
        self.frequency as int
    }

    /// The time from which on the value is stale.
    pub closed spec fn expires_at(&self) -> int {
        self.expires_at as int
    }

    /// The value held.
    pub closed spec fn value(&self) -> D {
        self.data
    }

    /// What is to be done at the time `now`.
    pub open spec fn action_at(&self, now: int) -> CacheAction {
        if now >= self.expires_at() {
            CacheAction::Refresh
        } else {
            CacheAction::Serve
        }
    }

    /// Whether `self` is `before` after the value `data` was stored at the
    /// time `now`.
    pub open spec fn is_refresh_of(&self, before: &FreshData<D>, now: int, data: D) -> bool {
        &&& self.value() == data
        &&& self.frequency() == before.frequency()
        &&& self.expires_at() == now + before.frequency()
    }

    /// A cache that holds `data`, fetched just before the time `now`.
    pub fn new(frequency: i64, now: i64, data: D) -> (out: FreshData<D>)
        requires
            i64::MIN <= now + frequency <= i64::MAX,
        ensures
            out.value() == data,
            out.frequency() == frequency,
            out.expires_at() == now + frequency,
    {
        FreshData { frequency, expires_at: now + frequency, data }
    }

    /// Says whether the value may be read at the time `now` or has to be
    /// fetched first.
    pub fn poll(&self, now: i64) -> (out: CacheAction)
        ensures
            out == self.action_at(now as int),
    {
        if now >= self.expires_at {
            CacheAction::Refresh
        } else {
            CacheAction::Serve
        }
    }

    /// Takes the outcome of a run of the producer that ended at the time
    /// `now`. A new value replaces the old one and is fresh from `now` on; a
    /// failure is handed back and changes nothing.
    pub fn complete<E>(&mut self, now: i64, outcome: Result<D, E>) -> (out: Result<(), E>)
        requires
            outcome is Ok ==> i64::MIN <= now + old(self).frequency() <= i64::MAX,
        ensures
            match outcome {
                Ok(data) => out is Ok && final(self).is_refresh_of(old(self), now as int, data),
                Err(e) => out == Err::<(), E>(e) && *final(self) == *old(self),
            },
    {
        match outcome {
            Ok(data) => {
                self.data = data;
                self.expires_at = now + self.frequency;
                Ok(())
            },
            Err(e) => Err(e),
        }
    }

    /// The value held, fresh or stale.
    pub fn get(&self) -> (out: &D)
        ensures
            *out == self.value(),
    {
        &self.data
    }

    /// The time from which on the value is stale.
    pub fn expiry(&self) -> (out: i64)
        ensures
            out == self.expires_at(),
    {
        self.expires_at
    }

    /// For how long a fetched value stays fresh.
    pub fn interval(&self) -> (out: i64)
        ensures
            out == self.frequency(),
    {
        self.frequency
    }
}

/// Until a stored value goes stale, the cache serves it and asks for no
/// fetch: one fetch answers every reader that comes within the interval.
pub proof fn lemma_fresh_value_is_served<D>(
    before: FreshData<D>,
    after: FreshData<D>,
    stored_at: int,
    data: D,
    now: int,
)
    requires
        after.is_refresh_of(&before, stored_at, data),
        now < stored_at + before.frequency(),
    ensures
        after.action_at(now) == CacheAction::Serve,
        after.value() == data,
{
}

/// A fetch that fails while the value is stale leaves the cache as it was:
/// it still holds the old value, and it asks every later reader for a fetch
/// again.
pub proof fn lemma_failed_refresh_is_retried<D>(
    before: FreshData<D>,
    after: FreshData<D>,
    now: int,
    later: int,
)
    requires
        after == before,
        before.action_at(now) == CacheAction::Refresh,
        now <= later,
    ensures
        after.value() == before.value(),
        after.expires_at() == before.expires_at(),
        after.action_at(later) == CacheAction::Refresh,
{
}

} // verus!
