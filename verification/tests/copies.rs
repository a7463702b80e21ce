use yew_query::{CallbackId, Effect, FnPtr, QueryOptions, QueryState, QueryStatus, Subscriber};

#[test]
fn effects_clone_to_equal_effects() {
    let effects = vec![
        Effect::Notify(CallbackId::new(3)),
        Effect::Fetch { query_key: String::from("posts"), query_fn: FnPtr::new(4) },
        Effect::Schedule { query_key: String::from("posts"), timer: 5, delay: 6 },
        Effect::Unschedule { query_key: String::from("post/42"), timer: 7 },
    ];
    for effect in &effects {
        assert_eq!(&effect.clone(), effect);
    }
    assert_ne!(effects[2], effects[3]);
}

#[test]
fn options_and_observers_clone_to_equal_values() {
    let options = QueryOptions {
        query_key: String::from("posts"),
        query_fn: FnPtr::new(1),
        stale_time: 2,
        cache_time: 3,
    };
    assert_eq!(options.clone(), options);
    let observer = Subscriber { query_key: String::from("posts"), stale_time: 2, cache_time: 3 };
    assert_eq!(observer.clone(), observer);
}

#[test]
fn states_clone_with_their_data() {
    let states: Vec<QueryState<Vec<u8>>> = vec![
        QueryState::new(),
        QueryState { status: QueryStatus::Loading, is_fetching: true, last_updated: None },
        QueryState { status: QueryStatus::Success(vec![1, 2]), is_fetching: false, last_updated: Some(9) },
        QueryState {
            status: QueryStatus::Error(String::from("boom")),
            is_fetching: true,
            last_updated: Some(-1),
        },
    ];
    for state in &states {
        assert_eq!(&state.clone(), state);
    }
    assert_ne!(states[0], states[1]);
}
