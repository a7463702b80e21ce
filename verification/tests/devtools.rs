use yew_query::{create_query, label, CallbackId, FnPtr, Query, QueryLabel, QueryOptions, QueryStatus, Subscription};

fn entry() -> Query<u32> {
    create_query(&QueryOptions {
        query_key: String::from("posts"),
        query_fn: FnPtr::new(1),
        stale_time: 0,
        cache_time: 0,
    })
}

fn observed() -> Query<u32> {
    let mut query = entry();
    query.subscribe(Subscription { stale_time: 0, cache_time: 0, callback: CallbackId::new(1) });
    query
}

#[test]
fn label_puts_fetching_first() {
    let mut query = entry();
    query.fetch(&vec![]);
    assert_eq!(label(&query), QueryLabel::Fetching);
    let mut query = observed();
    query.state.status = QueryStatus::Success(1);
    query.state.is_fetching = true;
    assert_eq!(label(&query), QueryLabel::Fetching);
}

#[test]
fn label_of_an_unobserved_entry_is_inactive() {
    let mut query = entry();
    assert_eq!(label(&query), QueryLabel::Inactive);
    query.state.status = QueryStatus::Success(1);
    assert_eq!(label(&query), QueryLabel::Inactive);
    query.state.status = QueryStatus::Error(String::from("x"));
    assert_eq!(label(&query), QueryLabel::Inactive);
}

#[test]
fn label_of_an_observed_entry_follows_its_status() {
    let mut query = observed();
    assert_eq!(label(&query), QueryLabel::Blank);
    query.state.status = QueryStatus::Loading;
    assert_eq!(label(&query), QueryLabel::Blank);
    query.state.status = QueryStatus::Success(1);
    assert_eq!(label(&query), QueryLabel::Success);
    query.state.status = QueryStatus::Error(String::from("x"));
    assert_eq!(label(&query), QueryLabel::Error);
}

#[test]
fn label_texts() {
    assert_eq!(QueryLabel::Fetching.text(), "fetching");
    assert_eq!(QueryLabel::Inactive.text(), "inactive");
    assert_eq!(QueryLabel::Success.text(), "success");
    assert_eq!(QueryLabel::Error.text(), "error");
    assert_eq!(QueryLabel::Blank.text(), "");
}
