//! What an entry knows of its resource: the latest outcome, whether a
//! request is in flight, and when the data was last refreshed.

use vstd::prelude::*;

verus! {

/// What a fetch function hands back: the data, or the message of a failure.
pub type QueryResult<TData> = Result<TData, String>;

/// The latest outcome recorded for a resource.
#[derive(PartialEq, Debug)]
pub enum QueryStatus<TData> {
    /// No request has completed yet.
    Idle,
    /// A placeholder for consumers that render a first load; the cache
    /// itself never records it.
    Loading,
    /// The last completed request delivered this data.
    Success(TData),
    /// The last completed request failed with this message.
    Error(String),
}

/// The state of one entry as its observers see it.
#[derive(PartialEq, Debug)]
pub struct QueryState<TData> {
    pub status: QueryStatus<TData>,
    pub is_fetching: bool,
    pub last_updated: Option<i64>,
}

impl<TData: Clone> QueryStatus<TData> {
    /// Whether `copy` is what cloning this status may give: the same
    /// outcome, with a clone of the data or the same message.
    pub open spec fn cloned_to(self, copy: Self) -> bool {
        match self {
            QueryStatus::Idle => copy is Idle,
            QueryStatus::Loading => copy is Loading,
            QueryStatus::Success(data) => copy is Success && cloned(data, copy->Success_0),
            QueryStatus::Error(message) => copy == QueryStatus::<TData>::Error(message),
        }
    }
}

impl<TData: Clone> Clone for QueryStatus<TData> {
    /// The same outcome, with a clone of the data it holds.
    fn clone(&self) -> (copy: Self)
        ensures
            self.cloned_to(copy),
    {
        match self {
            QueryStatus::Idle => QueryStatus::Idle,
            QueryStatus::Loading => QueryStatus::Loading,
            QueryStatus::Success(data) => QueryStatus::Success(data.clone()),
            QueryStatus::Error(message) => QueryStatus::Error(message.clone()),
        }
    }
}

impl<TData: Clone> Clone for QueryState<TData> {
    /// The same state, with a clone of the data it holds.
    fn clone(&self) -> (copy: Self)
        ensures
            self.status.cloned_to(copy.status),
            copy.is_fetching == self.is_fetching,
            copy.last_updated == self.last_updated,
    {
        QueryState {
            status: self.status.clone(),
            is_fetching: self.is_fetching,
            last_updated: self.last_updated,
        }
    }
}

impl<TData> QueryState<TData> {
    /// The state of an entry that has never fetched.
    pub open spec fn initial() -> Self {
        QueryState { status: QueryStatus::Idle, is_fetching: false, last_updated: None }
    }

    /// This state with a request in flight.
    pub open spec fn started(self) -> Self {
        QueryState { status: self.status, is_fetching: true, last_updated: self.last_updated }
    }

    /// This state after the request in flight ended with `result` at time
    /// `now`: data replaces the status and stamps the state, a failure
    /// replaces the status and leaves the stamp alone.
    pub open spec fn completed(self, result: QueryResult<TData>, now: i64) -> Self {
        match result {
            Ok(data) => QueryState {
                status: QueryStatus::Success(data),
                is_fetching: false,
                last_updated: Some(now),
            },
            Err(message) => QueryState {
                status: QueryStatus::Error(message),
                is_fetching: false,
                last_updated: self.last_updated,
            },
        }
    }

    /// Builds the state of an entry that has never fetched.
    pub fn new() -> (state: Self)
        ensures
            state == Self::initial(),
    {
        QueryState { status: QueryStatus::Idle, is_fetching: false, last_updated: None }
    }
}

} // verus!
