//! What a consumer asks for when it observes a key.

use crate::handle::FnPtr;
use vstd::prelude::*;

verus! {

/// Retention used where a consumer names none: five minutes, in
/// milliseconds.
pub const DEFAULT_CACHE_TIME: i32 = 300_000;

/// Staleness threshold used where a consumer names none: data is stale as
/// soon as it is older than the instant of its arrival.
pub const DEFAULT_STALE_TIME: i64 = 0;

/// A fully resolved request to observe one key.
#[derive(PartialEq, Eq, Debug)]
pub struct QueryOptions {
    /// The key of the resource.
    pub query_key: String,
    /// The function that fetches the resource.
    pub query_fn: FnPtr,
    /// Age in milliseconds beyond which the observer refetches.
    pub stale_time: i64,
    /// Milliseconds that an entry created for this request outlives its
    /// last observer.
    pub cache_time: i32,
}

impl Clone for QueryOptions {
    /// A request equal to this one.
    fn clone(&self) -> (copy: Self)
        ensures
            copy == *self,
    {
        QueryOptions {
            query_key: self.query_key.clone(),
            query_fn: self.query_fn,
            stale_time: self.stale_time,
            cache_time: self.cache_time,
        }
    }
}

/// The policy a consumer may leave partly open.
#[derive(Clone, Copy, PartialEq, Eq, Debug)]
pub struct UseQueryOptions {
    pub stale_time: Option<i64>,
    pub cache_time: Option<i32>,
}

impl Default for UseQueryOptions {
    /// Leaves both thresholds open.
    fn default() -> (options: Self)
        ensures
            options.stale_time is None,
            options.cache_time is None,
    {
        UseQueryOptions { stale_time: None, cache_time: None }
    }
}

impl UseQueryOptions {
    /// The staleness threshold in force: the one named, else the default.
    pub open spec fn spec_stale_time(self) -> i64 {
        match self.stale_time {
            Some(stale_time) => stale_time,
            None => DEFAULT_STALE_TIME,
        }
    }

    /// The retention in force: the one named, else the default.
    pub open spec fn spec_cache_time(self) -> i32 {
        match self.cache_time {
            Some(cache_time) => cache_time,
            None => DEFAULT_CACHE_TIME,
        }
    }

    /// Completes the policy with the defaults and binds it to a key and a
    /// fetch function.
    pub fn resolve(&self, query_key: &str, query_fn: FnPtr) -> (options: QueryOptions)
        ensures
            options.query_key@ == query_key@,
            options.query_fn == query_fn,
            options.stale_time == self.spec_stale_time(),
            options.cache_time == self.spec_cache_time(),
    {
        let stale_time = match self.stale_time {
            Some(stale_time) => stale_time,
            None => DEFAULT_STALE_TIME,
        };
        let cache_time = match self.cache_time {
            Some(cache_time) => cache_time,
            None => DEFAULT_CACHE_TIME,
        };
        QueryOptions { query_key: query_key.to_owned(), query_fn, stale_time, cache_time }
    }
}

} // verus!
