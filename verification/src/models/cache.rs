//! Cache policy and cached values.

use vstd::prelude::*;

verus! {

/// The cache policy.
#[derive(Clone, Copy, Debug, PartialEq)]
pub struct CacheConfig {
    /// Seconds between automatic refreshes; 0 switches them off.
    pub refresh_interval: u64,
    /// The age in seconds beyond which a cached value is stale.
    pub max_age: u64,
}

impl Default for CacheConfig {
    fn default() -> (out: Self)
        ensures
            out == (CacheConfig { refresh_interval: 0, max_age: 3600 }),
    {
        CacheConfig { refresh_interval: 0, max_age: 3600 }
    }
}

/// A value together with the time it was fetched at and the registry it
/// belongs to.
#[derive(Clone, Debug, PartialEq)]
pub struct CachedData<T> {
    pub data: T,
    /// Seconds since the Unix epoch.
    pub timestamp: u64,
    pub registry_id: String,
}

/// `SystemTime::now`, as whole seconds since the Unix epoch, and 0 for a clock
/// set before the epoch. The value depends on the clock: nothing is promised of
/// it.
#[verifier::external_body]
fn unix_now() -> u64 {
    std::time::SystemTime::now().duration_since(std::time::UNIX_EPOCH).map(|d| d.as_secs()).unwrap_or(0)
}

/// Whether a value fetched at `timestamp` is older than `max_age` at `now`.
pub open spec fn expired_at(timestamp: u64, now: u64, max_age: u64) -> bool {
    now - timestamp > max_age
}

impl<T> CachedData<T> {
    /// Wraps `data` as fetched at `timestamp`.
    pub fn at(data: T, registry_id: String, timestamp: u64) -> (out: Self)
        ensures
            out.data == data,
            out.registry_id == registry_id,
            out.timestamp == timestamp,
    {
        CachedData { data, timestamp, registry_id }
    }

    /// Wraps `data` as fetched now.
    pub fn new(data: T, registry_id: String) -> (out: Self)
        ensures
            out.data == data,
            out.registry_id == registry_id,
    {
        let timestamp = unix_now();
        Self::at(data, registry_id, timestamp)
    }

    /// Whether the value is older than `max_age` seconds at the time `now`.
    pub fn is_expired_at(&self, now: u64, max_age: u64) -> (r: bool)
        ensures
            r == expired_at(self.timestamp, now, max_age),
    {
        now > self.timestamp && now - self.timestamp > max_age
    }

    /// Whether the value is older than `max_age` seconds by the clock.
    pub fn is_expired(&self, max_age: u64) -> (r: bool)
        ensures
            exists|now: u64| r == expired_at(self.timestamp, now, max_age),
    {
        let now = unix_now();
        self.is_expired_at(now, max_age)
    }
}

} // verus!
