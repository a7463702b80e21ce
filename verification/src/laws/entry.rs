//! What holds of one entry across its operations.

use crate::effect::{notify_each, EffectView};
use crate::handle::{CallbackId, FnPtr};
use crate::query::{QueryView, Subscription};
use crate::state::{QueryResult, QueryState, QueryStatus};
use vstd::prelude::*;

verus! {

/// Whether the effects hold a request to run a fetch function.
pub open spec fn requests_fetch(effects: Seq<EffectView>) -> bool {
    exists|i: int| 0 <= i < effects.len() && #[trigger] effects[i] is Fetch
}

/// The entry after the observers of `subscriptions` attached one after the
/// other.
pub open spec fn subscribe_each<TData>(
    entry: QueryView<TData>,
    subscriptions: Seq<Subscription>,
) -> QueryView<TData>
    decreases subscriptions.len(),
{
    if subscriptions.len() == 0 {
        entry
    } else {
        subscribe_each(entry, subscriptions.drop_last()).subscribe(subscriptions.last())
    }
}

/// A successful fetch stamps the entry. When the request in flight ends
/// with data at time `now`, the entry holds that data, is no longer
/// fetching, and is stamped `now`.
pub proof fn law_success_stamps<TData>(entry: QueryView<TData>, data: TData, now: i64)
    requires
        entry.state.is_fetching,
    ensures
        entry.complete(Ok(data), now).state == (QueryState {
            status: QueryStatus::Success(data),
            is_fetching: false,
            last_updated: Some(now),
        }),
{
}

/// Stamps do not decrease while the clock does not run backwards. Of two
/// successful fetches, the second ending no earlier than the first by the
/// clock, the second leaves a stamp no earlier than the first; a failed
/// fetch between them changes nothing of that.
pub proof fn law_stamps_do_not_decrease<TData>(
    entry: QueryView<TData>,
    first: TData,
    second: TData,
    message: String,
    earlier: i64,
    between: i64,
    later: i64,
)
    requires
        entry.state.is_fetching,
        earlier <= later,
    ensures
        ({
            let once = entry.complete(Ok(first), earlier);
            let twice = once.fetch().complete(Ok(second), later);
            &&& once.state.last_updated == Some(earlier)
            &&& twice.state.last_updated == Some(later)
            &&& once.state.last_updated->0 <= twice.state.last_updated->0
        }),
        ({
            let once = entry.complete(Ok(first), earlier);
            let failed = once.fetch().complete(Err(message), between);
            let twice = failed.fetch().complete(Ok(second), later);
            &&& failed.state.last_updated == Some(earlier)
            &&& twice.state.last_updated == Some(later)
            &&& once.state.last_updated->0 <= twice.state.last_updated->0
        }),
{
}

/// Nothing but a successful fetch touches the stamp: a failed fetch, a
/// result that no request accounts for, the start of a fetch, a look by an
/// observer, subscribing, unsubscribing and the eviction timer all leave it
/// as it is. A stamp once set is therefore never cleared.
pub proof fn law_only_success_stamps<TData>(
    entry: QueryView<TData>,
    message: String,
    result: QueryResult<TData>,
    now: i64,
    stale_time: i64,
    subscription: Subscription,
    callback: CallbackId,
)
    ensures
        entry.complete(Err(message), now).state.last_updated == entry.state.last_updated,
        !entry.state.is_fetching ==> entry.complete(result, now) == entry,
        entry.fetch().state.last_updated == entry.state.last_updated,
        entry.fetch_if_stale(stale_time, now).state.last_updated == entry.state.last_updated,
        entry.revalidate(now).state.last_updated == entry.state.last_updated,
        entry.subscribe(subscription).state == entry.state,
        entry.unsubscribe(callback).state == entry.state,
        entry.schedule().state == entry.state,
        entry.unschedule().state == entry.state,
{
}

/// An observer's look triggers a fetch exactly when the entry is stale for
/// it: never updated, or updated more than the observer's threshold
/// before `now`. Otherwise the look changes nothing and calls for nothing.
/// A triggered fetch sends a request exactly when none is in flight.
pub proof fn law_fetch_iff_stale<TData>(
    entry: QueryView<TData>,
    stale_time: i64,
    now: i64,
    listeners: Seq<CallbackId>,
)
    ensures
        entry.stale_for(stale_time, now) <==> (entry.state.last_updated is None || now
            - entry.state.last_updated->0 > stale_time),
        entry.stale_for(stale_time, now) ==> entry.fetch_if_stale(stale_time, now) == entry.fetch()
            && entry.fetch_if_stale_effects(stale_time, now, listeners) == entry.fetch_effects(
            listeners,
        ),
        !entry.stale_for(stale_time, now) ==> entry.fetch_if_stale(stale_time, now) == entry
            && entry.fetch_if_stale_effects(stale_time, now, listeners) == Seq::<
            EffectView,
        >::empty(),
        requests_fetch(entry.fetch_if_stale_effects(stale_time, now, listeners)) <==> (
        entry.stale_for(stale_time, now) && !entry.state.is_fetching),
{
    let effects = entry.fetch_if_stale_effects(stale_time, now, listeners);
    if entry.stale_for(stale_time, now) && !entry.state.is_fetching {
        assert(effects.last() is Fetch);
    } else {
        assert(effects.len() == 0);
    }
}

/// Repeated looks send at most one request. Once a look has found the entry
/// stale, no later look sends a request while that fetch is in flight; and
/// once the fetch has delivered data at time `done`, no look within the
/// observer's threshold of `done` sends one either.
pub proof fn law_one_fetch_per_window<TData>(
    entry: QueryView<TData>,
    stale_time: i64,
    first: i64,
    later: i64,
    data: TData,
    done: i64,
    listeners: Seq<CallbackId>,
)
    requires
        entry.stale_for(stale_time, first),
    ensures
        ({
            let looked = entry.fetch_if_stale(stale_time, first);
            &&& looked.state.is_fetching
            &&& looked.fetch_if_stale(stale_time, later) == looked
            &&& !requests_fetch(looked.fetch_if_stale_effects(stale_time, later, listeners))
        }),
        ({
            let fresh = entry.fetch_if_stale(stale_time, first).complete(Ok(data), done);
            later - done <= stale_time ==> fresh.fetch_if_stale(stale_time, later) == fresh
                && !requests_fetch(fresh.fetch_if_stale_effects(stale_time, later, listeners))
        }),
{
    let looked = entry.fetch_if_stale(stale_time, first);
    assert(looked.fetch_if_stale(stale_time, later) =~= looked);
}

/// At most one request is in flight for an entry. Asking for a fetch sends
/// a request exactly when none is in flight, and leaves one in flight; while
/// one is in flight, no look, sweep or forced fetch sends another; and
/// subscribing, unsubscribing and the end of a request never send one. The
/// end of the request clears the flight.
pub proof fn law_single_flight<TData>(
    entry: QueryView<TData>,
    listeners: Seq<CallbackId>,
    stale_time: i64,
    now: i64,
    subscription: Subscription,
    callback: CallbackId,
    result: QueryResult<TData>,
)
    ensures
        requests_fetch(entry.fetch_effects(listeners)) <==> !entry.state.is_fetching,
        entry.fetch().state.is_fetching,
        entry.state.is_fetching ==> entry.fetch() == entry,
        entry.state.is_fetching ==> !requests_fetch(
            entry.fetch_if_stale_effects(stale_time, now, listeners),
        ) && !requests_fetch(entry.revalidate_effects(now, listeners)),
        !requests_fetch(entry.subscribe_effects()),
        !requests_fetch(entry.unsubscribe_effects(callback)),
        !requests_fetch(entry.complete_effects(listeners)),
        !entry.complete(result, now).state.is_fetching,
{
    assert(entry.state.is_fetching ==> entry.fetch() =~= entry);
    if !entry.state.is_fetching {
        assert(entry.fetch_effects(listeners).last() is Fetch);
    }
}

/// The status changes only when a request ends. Starting a fetch, a look, a
/// sweep, subscribing and unsubscribing leave the status as it is; the end of
/// the request in flight makes it the data or the failure that came back.
pub proof fn law_status_follows_completion<TData>(
    entry: QueryView<TData>,
    stale_time: i64,
    now: i64,
    subscription: Subscription,
    callback: CallbackId,
    data: TData,
    message: String,
)
    ensures
        entry.fetch().state.status == entry.state.status,
        entry.fetch_if_stale(stale_time, now).state.status == entry.state.status,
        entry.revalidate(now).state.status == entry.state.status,
        entry.subscribe(subscription).state.status == entry.state.status,
        entry.unsubscribe(callback).state.status == entry.state.status,
        entry.state.is_fetching ==> entry.complete(Ok(data), now).state.status
            == QueryStatus::Success(data),
        entry.state.is_fetching ==> entry.complete(Err(message), now).state.status
            == QueryStatus::<TData>::Error(message),
{
}

/// The cache never records a load in progress as a status. A fresh entry
/// is idle, and no operation turns a status into `Loading`.
pub proof fn law_status_is_never_loading<TData>(
    entry: QueryView<TData>,
    key: Seq<char>,
    query_fn: FnPtr,
    cache_time: i32,
    result: QueryResult<TData>,
    stale_time: i64,
    now: i64,
    subscription: Subscription,
    callback: CallbackId,
)
    requires
        !(entry.state.status is Loading),
    ensures
        QueryView::<TData>::create(key, query_fn, cache_time).state.status is Idle,
        !(entry.fetch().state.status is Loading),
        !(entry.complete(result, now).state.status is Loading),
        !(entry.fetch_if_stale(stale_time, now).state.status is Loading),
        !(entry.revalidate(now).state.status is Loading),
        !(entry.subscribe(subscription).state.status is Loading),
        !(entry.unsubscribe(callback).state.status is Loading),
{
}

/// Whether the entry has a timer pending only if nobody is attached to it.
pub open spec fn timer_only_unobserved<TData>(entry: QueryView<TData>) -> bool {
    entry.timeout is Some ==> entry.subscribers.len() == 0
}

/// A timer is pending only on an entry that nobody observes. This holds of
/// a fresh entry, and every operation that the cache performs on an entry
/// keeps it.
pub proof fn law_timer_only_unobserved<TData>(
    entry: QueryView<TData>,
    key: Seq<char>,
    query_fn: FnPtr,
    cache_time: i32,
    result: QueryResult<TData>,
    now: i64,
    stale_time: i64,
    subscription: Subscription,
    callback: CallbackId,
)
    requires
        timer_only_unobserved(entry),
    ensures
        timer_only_unobserved(QueryView::<TData>::create(key, query_fn, cache_time)),
        timer_only_unobserved(entry.fetch()),
        timer_only_unobserved(entry.complete(result, now)),
        timer_only_unobserved(entry.fetch_if_stale(stale_time, now)),
        timer_only_unobserved(entry.revalidate(now)),
        timer_only_unobserved(entry.subscribe(subscription)),
        timer_only_unobserved(entry.unsubscribe(callback)),
{
}

/// The callbacks of the subscriptions, in order.
pub open spec fn callbacks_of(subscriptions: Seq<Subscription>) -> Seq<CallbackId> {
    Seq::new(subscriptions.len(), |i: int| subscriptions[i].callback)
}

/// Notifications follow the order of subscription. After observers have
/// subscribed one after the other, the entry notifies the callbacks it had,
/// then theirs in the order in which they subscribed, then the cache's
/// listeners: both when a fetch starts, where the request follows the
/// notifications, and when it ends.
pub proof fn law_notification_order<TData>(
    entry: QueryView<TData>,
    subscriptions: Seq<Subscription>,
    listeners: Seq<CallbackId>,
)
    ensures
        ({
            let grown = subscribe_each(entry, subscriptions);
            let callbacks = entry.callbacks() + callbacks_of(subscriptions);
            &&& grown.callbacks() == callbacks
            &&& grown.state == entry.state
            &&& !entry.state.is_fetching ==> grown.fetch_effects(listeners) == (notify_each(
                callbacks,
            ) + notify_each(listeners)).push(grown.request())
            &&& grown.fetch().complete_effects(listeners) == notify_each(callbacks) + notify_each(
                listeners,
            )
        }),
    decreases subscriptions.len(),
{
    let grown = subscribe_each(entry, subscriptions);
    if subscriptions.len() > 0 {
        law_notification_order(entry, subscriptions.drop_last(), listeners);
        let shorter = subscribe_each(entry, subscriptions.drop_last());
        assert(grown.callbacks() =~= shorter.callbacks().push(subscriptions.last().callback));
        assert(callbacks_of(subscriptions) =~= callbacks_of(subscriptions.drop_last()).push(
            subscriptions.last().callback,
        ));
        assert(grown.callbacks() =~= entry.callbacks() + callbacks_of(subscriptions));
    } else {
        assert(grown.callbacks() =~= entry.callbacks() + callbacks_of(subscriptions));
    }
}

} // verus!
