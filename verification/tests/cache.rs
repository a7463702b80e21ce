use yew_query::{
    CallbackId, Effect, FnPtr, QueryClient, QueryOptions, QueryState, QueryStatus, Subscriber,
    Subscription,
};

fn options(key: &str) -> QueryOptions {
    QueryOptions {
        query_key: String::from(key),
        query_fn: FnPtr::new(1),
        stale_time: 3000,
        cache_time: 60_000,
    }
}

fn key(text: &str) -> String {
    String::from(text)
}

fn sub(callback: u64, stale_time: i64) -> Subscription {
    Subscription { stale_time, cache_time: 60_000, callback: CallbackId::new(callback) }
}

fn notify(callback: u64) -> Effect {
    Effect::Notify(CallbackId::new(callback))
}

fn request(text: &str) -> Effect {
    Effect::Fetch { query_key: key(text), query_fn: FnPtr::new(1) }
}

fn keys(client: &QueryClient<u32>) -> Vec<String> {
    client.queries().iter().map(|query| query.query_key.clone()).collect()
}

#[test]
fn new_cache_is_empty() {
    let client: QueryClient<u32> = QueryClient::new();
    assert!(client.queries().is_empty());
    assert_eq!(client.notify_all(), vec![]);
    assert!(client.get("posts").is_none());
    assert!(client.observers().is_empty());
}

#[test]
fn listeners_are_notified_in_order() {
    let mut client: QueryClient<u32> = QueryClient::new();
    client.subscribe(CallbackId::new(5));
    client.subscribe(CallbackId::new(3));
    client.subscribe(CallbackId::new(4));
    assert_eq!(client.notify_all(), vec![notify(5), notify(3), notify(4)]);
}

#[test]
fn listener_unsubscribe_removes_every_equal_callback() {
    let mut client: QueryClient<u32> = QueryClient::new();
    client.subscribe(CallbackId::new(5));
    client.subscribe(CallbackId::new(3));
    client.subscribe(CallbackId::new(5));
    client.unsubscribe(CallbackId::new(5));
    assert_eq!(client.notify_all(), vec![notify(3)]);
    client.unsubscribe(CallbackId::new(8));
    assert_eq!(client.notify_all(), vec![notify(3)]);
    client.unsubscribe(CallbackId::new(3));
    assert_eq!(client.notify_all(), vec![]);
}

#[test]
fn get_query_creates_once() {
    let mut client: QueryClient<u32> = QueryClient::new();
    assert_eq!(client.get_query(&options("posts")), 0);
    assert_eq!(client.get_query(&options("post/42")), 1);
    assert_eq!(client.get_query(&options("posts")), 0);
    assert_eq!(keys(&client), vec![key("posts"), key("post/42")]);
    let entry = client.get("post/42").unwrap();
    assert_eq!(entry.state, QueryState::new());
    assert_eq!(entry.query_fn, FnPtr::new(1));
    assert_eq!(entry.cache_time, 60_000);
}

#[test]
fn get_query_leaves_an_existing_entry_alone() {
    let mut client: QueryClient<u32> = QueryClient::new();
    client.get_query(&options("posts"));
    client.invalidate("posts");
    client.complete_at("posts", Ok(7), 10);
    let other = QueryOptions {
        query_key: key("posts"),
        query_fn: FnPtr::new(99),
        stale_time: 1,
        cache_time: 2,
    };
    assert_eq!(client.get_query(&other), 0);
    let entry = client.get("posts").unwrap();
    assert_eq!(entry.state.status, QueryStatus::Success(7));
    assert_eq!(entry.query_fn, FnPtr::new(1));
    assert_eq!(entry.cache_time, 60_000);
    assert_eq!(client.queries().len(), 1);
}

#[test]
fn keys_match_exactly() {
    let mut client: QueryClient<u32> = QueryClient::new();
    client.get_query(&options("posts"));
    assert!(client.get("post").is_none());
    assert!(client.get("posts ").is_none());
    assert!(client.get("Posts").is_none());
    assert!(client.get("").is_none());
    assert!(client.get("posts").is_some());
}

#[test]
fn keyed_operations_without_entry_change_nothing() {
    let mut client: QueryClient<u32> = QueryClient::new();
    client.get_query(&options("posts"));
    client.subscribe(CallbackId::new(9));
    let missing = "nope";
    assert_eq!(client.attach(missing, sub(1, 0)), None);
    assert_eq!(client.detach(missing, CallbackId::new(1)), None);
    assert_eq!(client.fetch_if_stale(missing, 0, 0), None);
    assert_eq!(client.invalidate(missing), vec![]);
    assert_eq!(client.complete_at(missing, Ok(1), 0), vec![]);
    assert_eq!(client.cleanup_due(missing, 0), vec![]);
    assert_eq!(keys(&client), vec![key("posts")]);
    assert_eq!(client.get("posts").unwrap().state, QueryState::new());
}

#[test]
fn invalidate_forces_a_fetch_of_fresh_data() {
    let mut client: QueryClient<u32> = QueryClient::new();
    client.subscribe(CallbackId::new(9));
    client.get_query(&options("posts"));
    client.attach("posts", sub(1, 1_000_000));
    assert_eq!(client.invalidate("posts"), vec![notify(1), notify(9), request("posts")]);
    assert_eq!(client.complete_at("posts", Ok(1), 0), vec![notify(1), notify(9)]);
    // fresh for its observer, and fetched again all the same
    assert_eq!(client.fetch_if_stale("posts", 1_000_000, 1), Some(vec![]));
    assert_eq!(client.invalidate("posts"), vec![notify(1), notify(9), request("posts")]);
    assert!(client.get("posts").unwrap().state.is_fetching);
    // a request is in flight: a second invalidation joins it
    assert_eq!(client.invalidate("posts"), vec![]);
}

#[test]
fn completion_reaches_only_its_entry() {
    let mut client: QueryClient<u32> = QueryClient::new();
    client.get_query(&options("a"));
    client.get_query(&options("b"));
    client.invalidate("a");
    client.invalidate("b");
    client.complete_at("b", Ok(2), 20);
    assert!(client.get("a").unwrap().state.is_fetching);
    assert_eq!(
        client.get("b").unwrap().state,
        QueryState { status: QueryStatus::Success(2), is_fetching: false, last_updated: Some(20) }
    );
}

#[test]
fn completion_by_the_clock_stamps_the_entry() {
    let mut client: QueryClient<u32> = QueryClient::new();
    client.get_query(&options("a"));
    client.invalidate("a");
    let before = yew_query::now();
    client.complete("a", Ok(2));
    let after = yew_query::now();
    let state = &client.get("a").unwrap().state;
    assert_eq!(state.status, QueryStatus::Success(2));
    assert!(!state.is_fetching);
    let stamp = state.last_updated.unwrap();
    assert!(before <= stamp && stamp <= after);
}

#[test]
fn firing_of_the_pending_timer_evicts() {
    let mut client: QueryClient<u32> = QueryClient::new();
    client.subscribe(CallbackId::new(9));
    client.get_query(&options("a"));
    client.get_query(&options("b"));
    client.get_query(&options("c"));
    client.attach("b", sub(1, 0));
    assert_eq!(
        client.detach("b", CallbackId::new(1)),
        Some(vec![Effect::Schedule { query_key: key("b"), timer: 0, delay: 60_000 }])
    );
    // another timer of the entry, or the timer of another entry, does nothing
    assert_eq!(client.cleanup_due("b", 1), vec![]);
    assert_eq!(client.cleanup_due("a", 0), vec![]);
    assert_eq!(keys(&client), vec![key("a"), key("b"), key("c")]);
    assert_eq!(client.cleanup_due("b", 0), vec![notify(9)]);
    assert_eq!(keys(&client), vec![key("a"), key("c")]);
    assert!(client.get("b").is_none());
    // the timer is spent
    assert_eq!(client.cleanup_due("b", 0), vec![]);
}

#[test]
fn result_for_an_evicted_entry_is_dropped() {
    let mut client: QueryClient<u32> = QueryClient::new();
    client.get_query(&options("a"));
    client.attach("a", sub(1, 0));
    client.invalidate("a");
    client.detach("a", CallbackId::new(1));
    client.cleanup_due("a", 0);
    assert_eq!(client.complete_at("a", Ok(1), 5), vec![]);
    assert!(client.queries().is_empty());
    // a fresh entry for the key does not take the late result either
    client.get_query(&options("a"));
    assert_eq!(client.complete_at("a", Ok(1), 5), vec![]);
    assert_eq!(client.get("a").unwrap().state, QueryState::new());
}

#[test]
fn sweep_fetches_stale_entries_in_order() {
    let mut client: QueryClient<u32> = QueryClient::new();
    client.subscribe(CallbackId::new(9));
    for name in ["a", "b", "c", "d"] {
        client.get_query(&options(name));
        client.invalidate(name);
        client.complete_at(name, Ok(0), 0);
    }
    client.attach("a", sub(1, 5000));
    client.attach("b", sub(2, 1000));
    client.attach("b", sub(3, 9000));
    // c has no observer; d has one and a request in flight
    client.attach("d", sub(4, 0));
    client.invalidate("d");
    let effects = client.refetch_stale_at(2000);
    assert_eq!(effects, vec![notify(2), notify(3), notify(9), request("b")]);
    assert!(!client.get("a").unwrap().state.is_fetching);
    assert!(client.get("b").unwrap().state.is_fetching);
    assert!(!client.get("c").unwrap().state.is_fetching);
    assert!(client.get("d").unwrap().state.is_fetching);
    client.complete_at("b", Ok(1), 2000);
    client.complete_at("d", Ok(1), 2000);
    let effects = client.refetch_stale_at(6000);
    assert_eq!(
        effects,
        vec![
            notify(1),
            notify(9),
            request("a"),
            notify(2),
            notify(3),
            notify(9),
            request("b"),
            notify(4),
            notify(9),
            request("d"),
        ]
    );
}

#[test]
fn sweep_by_the_clock_fetches_what_was_never_updated() {
    let mut client: QueryClient<u32> = QueryClient::new();
    client.get_query(&options("a"));
    client.attach("a", sub(1, i64::MAX));
    assert_eq!(client.refetch_stale(), vec![notify(1), request("a")]);
    assert_eq!(client.refetch_stale(), vec![]);
}

#[test]
fn observers_are_listed_entry_by_entry() {
    let mut client: QueryClient<u32> = QueryClient::new();
    client.get_query(&options("a"));
    client.get_query(&options("b"));
    client.get_query(&options("c"));
    client.attach("c", sub(1, 10));
    client.attach("a", sub(2, 20));
    client.attach("c", sub(3, 30));
    let expected = vec![
        Subscriber { query_key: key("a"), stale_time: 20, cache_time: 60_000 },
        Subscriber { query_key: key("c"), stale_time: 10, cache_time: 60_000 },
        Subscriber { query_key: key("c"), stale_time: 30, cache_time: 60_000 },
    ];
    assert_eq!(client.observers(), expected);
}

#[test]
fn sweep_is_every_observer_looking() {
    let build = || {
        let mut client: QueryClient<u32> = QueryClient::new();
        client.subscribe(CallbackId::new(9));
        for name in ["a", "b", "c"] {
            client.get_query(&options(name));
            client.invalidate(name);
            client.complete_at(name, Ok(0), 0);
        }
        client.attach("a", sub(1, 500));
        client.attach("a", sub(2, 100));
        client.attach("c", sub(3, 5000));
        client.attach("c", sub(4, 50));
        client
    };
    for at in [0i64, 60, 200, 1000, 9000] {
        let mut swept = build();
        let effects = swept.refetch_stale_at(at);

        let mut looked = build();
        let mut one_by_one = Vec::new();
        for observer in looked.observers() {
            one_by_one.extend(observer.fetch_at(&mut looked, at).unwrap());
        }
        assert_eq!(effects, one_by_one);
        for name in ["a", "b", "c"] {
            assert_eq!(swept.get(name), looked.get(name));
        }
    }
}
