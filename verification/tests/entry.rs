use yew_query::{
    create_query, CallbackId, Effect, FnPtr, Query, QueryOptions, QueryState, QueryStatus,
    Subscription,
};

fn entry_options(key: &str, cache_time: i32) -> QueryOptions {
    QueryOptions { query_key: String::from(key), query_fn: FnPtr::new(7), stale_time: 3000, cache_time }
}

fn posts() -> Query<Vec<u32>> {
    create_query(&entry_options("posts", 60_000))
}

fn observer(callback: u64, stale_time: i64) -> Subscription {
    Subscription { stale_time, cache_time: 0, callback: CallbackId::new(callback) }
}

fn copy(query: &Query<Vec<u32>>) -> Query<Vec<u32>> {
    Query {
        state: query.state.clone(),
        query_fn: query.query_fn,
        subscribers: query.subscribers.clone(),
        query_key: query.query_key.clone(),
        cache_time: query.cache_time,
        timeout: query.timeout,
        next_timer: query.next_timer,
    }
}

fn notified(callback: u64) -> Effect {
    Effect::Notify(CallbackId::new(callback))
}

fn requested(key: &str) -> Effect {
    Effect::Fetch { query_key: String::from(key), query_fn: FnPtr::new(7) }
}

#[test]
fn fresh_entry_is_idle() {
    let query = posts();
    assert_eq!(
        query.state,
        QueryState { status: QueryStatus::Idle, is_fetching: false, last_updated: None }
    );
    assert_eq!(query.state, QueryState::new());
    assert!(query.subscribers.is_empty());
    assert_eq!(query.query_key, "posts");
    assert_eq!(query.query_fn, FnPtr::new(7));
    assert_eq!(query.cache_time, 60_000);
    assert_eq!(query.timeout, None);
    assert_eq!(query.next_timer, 0);
}

#[test]
fn fetch_notifies_observers_then_listeners_then_requests() {
    let mut query = posts();
    assert_eq!(query.subscribe(observer(1, 0)), vec![]);
    let effects = query.fetch(&vec![CallbackId::new(9)]);
    assert_eq!(effects, vec![notified(1), notified(9), requested("posts")]);
    assert!(query.state.is_fetching);
    assert_eq!(query.state.status, QueryStatus::Idle);
    assert_eq!(query.state.last_updated, None);
}

#[test]
fn fetch_without_observers_still_requests() {
    let mut query = posts();
    assert_eq!(query.fetch(&vec![]), vec![requested("posts")]);
    assert!(query.state.is_fetching);
}

#[test]
fn second_fetch_joins_the_request_in_flight() {
    let mut query = posts();
    query.subscribe(observer(1, 0));
    assert_eq!(query.fetch(&vec![]).len(), 2);
    let before = copy(&query);
    assert_eq!(query.fetch(&vec![CallbackId::new(9)]), vec![]);
    assert_eq!(query, before);
}

#[test]
fn success_stores_data_and_stamps() {
    let mut query = posts();
    query.subscribe(observer(1, 0));
    query.subscribe(observer(2, 0));
    query.fetch(&vec![]);
    let effects = query.complete(Ok(vec![1, 2, 3]), 1234, &vec![CallbackId::new(9)]);
    assert_eq!(effects, vec![notified(1), notified(2), notified(9)]);
    assert_eq!(
        query.state,
        QueryState {
            status: QueryStatus::Success(vec![1, 2, 3]),
            is_fetching: false,
            last_updated: Some(1234),
        }
    );
}

#[test]
fn failure_stores_message_and_keeps_stamp() {
    let mut query = posts();
    query.fetch(&vec![]);
    query.complete(Ok(vec![5]), 100, &vec![]);
    query.fetch(&vec![]);
    let effects = query.complete(Err(String::from("boom")), 200, &vec![CallbackId::new(4)]);
    assert_eq!(effects, vec![notified(4)]);
    assert_eq!(
        query.state,
        QueryState {
            status: QueryStatus::Error(String::from("boom")),
            is_fetching: false,
            last_updated: Some(100),
        }
    );
}

#[test]
fn result_without_request_is_dropped() {
    let mut query = posts();
    query.subscribe(observer(1, 0));
    let before = copy(&query);
    assert_eq!(query.complete(Ok(vec![1]), 50, &vec![CallbackId::new(9)]), vec![]);
    assert_eq!(query, before);
    assert_eq!(query.complete(Err(String::from("late")), 60, &vec![]), vec![]);
    assert_eq!(query, before);
}

#[test]
fn stamps_follow_the_clock_across_fetches() {
    let mut query = posts();
    let mut last = None;
    for at in [0i64, 10, 10, 4000] {
        query.fetch(&vec![]);
        query.complete(Ok(vec![]), at, &vec![]);
        assert!(query.state.last_updated.is_some());
        assert!(query.state.last_updated >= last);
        assert_eq!(query.state.last_updated, Some(at));
        last = query.state.last_updated;
    }
}

#[test]
fn subscribe_appends_in_order() {
    let mut query = posts();
    query.subscribe(observer(3, 10));
    query.subscribe(observer(1, 20));
    query.subscribe(observer(2, 30));
    assert_eq!(query.subscribers, vec![observer(3, 10), observer(1, 20), observer(2, 30)]);
}

#[test]
fn notification_order_is_subscription_order() {
    let mut query = posts();
    query.subscribe(observer(30, 0));
    query.subscribe(observer(10, 0));
    query.subscribe(observer(20, 0));
    let started = query.fetch(&vec![]);
    assert_eq!(started, vec![notified(30), notified(10), notified(20), requested("posts")]);
    let ended = query.complete(Ok(vec![]), 5, &vec![]);
    assert_eq!(ended, vec![notified(30), notified(10), notified(20)]);
    query.fetch(&vec![]);
    let failed = query.complete(Err(String::from("x")), 6, &vec![]);
    assert_eq!(failed, vec![notified(30), notified(10), notified(20)]);
}

#[test]
fn unsubscribe_removes_every_equal_callback() {
    let mut query = posts();
    query.subscribe(observer(1, 10));
    query.subscribe(observer(2, 20));
    query.subscribe(observer(1, 30));
    query.subscribe(observer(3, 40));
    assert_eq!(query.unsubscribe(CallbackId::new(1)), vec![]);
    assert_eq!(query.subscribers, vec![observer(2, 20), observer(3, 40)]);
    assert_eq!(query.timeout, None);
}

#[test]
fn unsubscribe_of_a_stranger_changes_nothing() {
    let mut query = posts();
    query.subscribe(observer(1, 10));
    let before = copy(&query);
    assert_eq!(query.unsubscribe(CallbackId::new(2)), vec![]);
    assert_eq!(query, before);
}

#[test]
fn last_unsubscribe_arms_the_timer() {
    let mut query = posts();
    query.subscribe(observer(1, 10));
    let effects = query.unsubscribe(CallbackId::new(1));
    assert_eq!(
        effects,
        vec![Effect::Schedule { query_key: String::from("posts"), timer: 0, delay: 60_000 }]
    );
    assert!(query.subscribers.is_empty());
    assert_eq!(query.timeout, Some(0));
    assert_eq!(query.next_timer, 1);
    assert!(query.expires_with(0));
    assert!(!query.expires_with(1));
}

#[test]
fn unsubscribe_without_observers_supersedes_the_timer() {
    let mut query = posts();
    query.subscribe(observer(1, 10));
    query.unsubscribe(CallbackId::new(1));
    let effects = query.unsubscribe(CallbackId::new(1));
    assert_eq!(
        effects,
        vec![
            Effect::Unschedule { query_key: String::from("posts"), timer: 0 },
            Effect::Schedule { query_key: String::from("posts"), timer: 1, delay: 60_000 },
        ]
    );
    assert_eq!(query.timeout, Some(1));
    assert_eq!(query.next_timer, 2);
    assert!(!query.expires_with(0));
    assert!(query.expires_with(1));
}

#[test]
fn subscribe_cancels_the_pending_timer() {
    let mut query = posts();
    query.subscribe(observer(1, 10));
    query.unsubscribe(CallbackId::new(1));
    let effects = query.subscribe(observer(2, 10));
    assert_eq!(effects, vec![Effect::Unschedule { query_key: String::from("posts"), timer: 0 }]);
    assert_eq!(query.timeout, None);
    assert_eq!(query.subscribers, vec![observer(2, 10)]);
    assert!(!query.expires_with(0));
    // the next timer gets a new name
    let effects = query.unsubscribe(CallbackId::new(2));
    assert_eq!(
        effects,
        vec![Effect::Schedule { query_key: String::from("posts"), timer: 1, delay: 60_000 }]
    );
}

#[test]
fn timer_names_start_over_after_the_last() {
    let mut query = posts();
    query.next_timer = u64::MAX;
    query.subscribe(observer(1, 10));
    let effects = query.unsubscribe(CallbackId::new(1));
    assert_eq!(
        effects,
        vec![Effect::Schedule { query_key: String::from("posts"), timer: u64::MAX, delay: 60_000 }]
    );
    assert_eq!(query.timeout, Some(u64::MAX));
    assert_eq!(query.next_timer, 0);
}

#[test]
fn timer_delay_is_the_retention_of_the_entry() {
    let mut query: Query<u8> = create_query(&entry_options("k", -3));
    query.subscribe(observer(1, 10));
    assert_eq!(
        query.unsubscribe(CallbackId::new(1)),
        vec![Effect::Schedule { query_key: String::from("k"), timer: 0, delay: -3 }]
    );
}

#[test]
fn cleanup_is_not_due_while_observed() {
    let mut query = posts();
    query.timeout = Some(4);
    assert!(query.expires_with(4));
    query.subscribers.push(observer(1, 0));
    assert!(!query.expires_with(4));
}

#[test]
fn look_fetches_only_when_stale() {
    let mut query = posts();
    // never updated: stale at any time
    assert_eq!(query.fetch_if_stale(3000, 0, &vec![]), vec![requested("posts")]);
    query.complete(Ok(vec![1]), 0, &vec![]);
    let fresh = copy(&query);
    assert_eq!(query.fetch_if_stale(3000, 1000, &vec![]), vec![]);
    assert_eq!(query.fetch_if_stale(3000, 3000, &vec![]), vec![]);
    assert_eq!(query, fresh);
    assert_eq!(query.fetch_if_stale(3000, 3001, &vec![]), vec![requested("posts")]);
    assert!(query.state.is_fetching);
    assert_eq!(query.state.status, QueryStatus::Success(vec![1]));
}

#[test]
fn repeated_looks_send_one_request() {
    let mut query = posts();
    let mut requests = 0;
    for at in [0i64, 1, 2, 5000, 9000] {
        let effects = query.fetch_if_stale(3000, at, &vec![]);
        requests += effects.iter().filter(|e| matches!(e, Effect::Fetch { .. })).count();
    }
    assert_eq!(requests, 1);
    query.complete(Ok(vec![]), 10_000, &vec![]);
    for at in [10_000i64, 10_001, 12_999, 13_000] {
        assert_eq!(query.fetch_if_stale(3000, at, &vec![]), vec![]);
    }
}

#[test]
fn revalidate_uses_each_observer_threshold() {
    let mut query = posts();
    query.fetch(&vec![]);
    query.complete(Ok(vec![1]), 0, &vec![]);
    query.subscribe(observer(1, 5000));
    query.subscribe(observer(2, 1000));
    assert!(!query.stale_for_some(1000));
    assert_eq!(query.revalidate(1000, &vec![]), vec![]);
    assert!(!query.state.is_fetching);
    // stale for the second observer only
    assert!(query.stale_for_some(1001));
    assert_eq!(
        query.revalidate(1001, &vec![CallbackId::new(9)]),
        vec![notified(1), notified(2), notified(9), requested("posts")]
    );
    assert!(query.state.is_fetching);
    // the request is in flight: nothing more goes out
    assert_eq!(query.revalidate(9000, &vec![]), vec![]);
}

#[test]
fn revalidate_without_observers_does_nothing() {
    let mut query = posts();
    assert!(!query.stale_for_some(0));
    assert_eq!(query.revalidate(0, &vec![]), vec![]);
    assert!(!query.state.is_fetching);
}

#[test]
fn stamp_follows_a_clock_that_was_set_back() {
    let mut query = posts();
    query.fetch(&vec![]);
    query.complete(Ok(vec![1]), 5, &vec![]);
    query.fetch(&vec![]);
    query.complete(Ok(vec![2]), 3, &vec![]);
    assert_eq!(query.state.last_updated, Some(3));
    assert_eq!(query.state.status, QueryStatus::Success(vec![2]));
}
