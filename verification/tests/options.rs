use yew_query::options::{DEFAULT_CACHE_TIME, DEFAULT_STALE_TIME};
use yew_query::{FnPtr, QueryOptions, UseQueryOptions};

#[test]
fn default_policy_leaves_both_open() {
    let policy = UseQueryOptions::default();
    assert_eq!(policy.stale_time, None);
    assert_eq!(policy.cache_time, None);
}

#[test]
fn defaults_are_zero_and_five_minutes() {
    assert_eq!(DEFAULT_STALE_TIME, 0);
    assert_eq!(DEFAULT_CACHE_TIME, 5 * 60 * 1000);
}

#[test]
fn resolve_fills_in_the_defaults() {
    let options = UseQueryOptions::default().resolve("posts", FnPtr::new(3));
    assert_eq!(
        options,
        QueryOptions {
            query_key: String::from("posts"),
            query_fn: FnPtr::new(3),
            stale_time: 0,
            cache_time: 300_000,
        }
    );
}

#[test]
fn resolve_keeps_what_was_named() {
    let policy = UseQueryOptions { stale_time: Some(3000), cache_time: None };
    let options = policy.resolve("post/42", FnPtr::new(8));
    assert_eq!(options.query_key, "post/42");
    assert_eq!(options.query_fn, FnPtr::new(8));
    assert_eq!(options.stale_time, 3000);
    assert_eq!(options.cache_time, 300_000);

    let policy = UseQueryOptions { stale_time: None, cache_time: Some(-1) };
    let options = policy.resolve("", FnPtr::new(0));
    assert_eq!(options.query_key, "");
    assert_eq!(options.stale_time, 0);
    assert_eq!(options.cache_time, -1);
}

#[test]
fn handles_compare_by_identity() {
    assert_eq!(FnPtr::new(4), FnPtr::new(4));
    assert_ne!(FnPtr::new(4), FnPtr::new(5));
    let handle = FnPtr::new(11);
    let copy = handle;
    assert_eq!(handle, copy);
    assert_eq!(copy.id, 11);
}
