//! How an inspector of the cache labels an entry.

use crate::query::{Query, QueryView};
use crate::state::QueryStatus;
use vstd::prelude::*;

verus! {

/// The label that an inspector puts beside an entry's key.
#[derive(Clone, Copy, PartialEq, Eq, Structural, Debug)]
pub enum QueryLabel {
    /// A request is in flight.
    Fetching,
    /// Nobody observes the entry.
    Inactive,
    /// The entry holds data and is observed.
    Success,
    /// The entry holds a failure and is observed.
    Error,
    /// The entry is observed and has nothing to show yet.
    Blank,
}

/// The label of an entry. A request in flight comes first, then the lack of
/// observers, then the outcome that the entry holds.
pub open spec fn spec_label<TData>(entry: QueryView<TData>) -> QueryLabel {
    if entry.state.is_fetching {
        QueryLabel::Fetching
    } else if entry.subscribers.len() == 0 {
        QueryLabel::Inactive
    } else {
        match entry.state.status {
            QueryStatus::Success(_) => QueryLabel::Success,
            QueryStatus::Error(_) => QueryLabel::Error,
            _ => QueryLabel::Blank,
        }
    }
}

/// Computes the label of an entry.
pub fn label<TData>(query: &Query<TData>) -> (label: QueryLabel)
    ensures
        label == spec_label(query@),
{
    if query.state.is_fetching {
        QueryLabel::Fetching
    } else if query.subscribers.len() == 0 {
        QueryLabel::Inactive
    } else {
        match &query.state.status {
            QueryStatus::Success(_) => QueryLabel::Success,
            QueryStatus::Error(_) => QueryLabel::Error,
            _ => QueryLabel::Blank,
        }
    }
}

impl QueryLabel {
    /// The word that an inspector shows for the label; none for `Blank`.
    pub fn text(&self) -> (text: &'static str)
        ensures
            text@ == match *self {
                QueryLabel::Fetching => "fetching"@,
                QueryLabel::Inactive => "inactive"@,
                QueryLabel::Success => "success"@,
                QueryLabel::Error => "error"@,
                QueryLabel::Blank => ""@,
            },
    {
        match self {
            QueryLabel::Fetching => "fetching",
            QueryLabel::Inactive => "inactive",
            QueryLabel::Success => "success",
            QueryLabel::Error => "error",
            QueryLabel::Blank => "",
        }
    }
}

} // verus!
