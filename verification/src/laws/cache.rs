//! What holds of a cache across the operations on its entries.

use crate::client::ClientView;
use crate::effect::{notify_each, EffectView};
use crate::handle::{CallbackId, FnPtr};
use crate::query::{QueryView, Subscription};
use crate::state::{QueryResult, QueryState};
use crate::subscriber::Subscriber;
use vstd::prelude::*;

verus! {

/// Observers of one key share one entry. Observing a key gives the cache an
/// entry for it; observing the key again, with whatever options, leaves the
/// cache exactly as it was, so the key still has a single entry; the same
/// goes for every later cache that still holds the key, whatever happened to
/// the entry in between; and two observers of the key read the same state
/// from every cache.
pub proof fn law_observers_share_entry<TData>(
    client: ClientView<TData>,
    key: Seq<char>,
    first_fn: FnPtr,
    first_cache_time: i32,
    second_fn: FnPtr,
    second_cache_time: i32,
    one: Subscriber,
    other: Subscriber,
)
    requires
        client.wf(),
        one.query_key@ == key,
        other.query_key@ == key,
    ensures
        ({
            let once = client.get_query(key, first_fn, first_cache_time);
            let twice = once.get_query(key, second_fn, second_cache_time);
            &&& once.wf()
            &&& once.contains_key(key)
            &&& twice == once
            &&& forall|i: int, j: int| once.holds(i, key) && once.holds(j, key) ==> i == j
        }),
        forall|later: ClientView<TData>|
            later.contains_key(key) ==> #[trigger] later.get_query(
                key,
                second_fn,
                second_cache_time,
            ) == later,
        forall|any: ClientView<TData>| #[trigger] one.result(any) == other.result(any),
{
    let once = client.get_query(key, first_fn, first_cache_time);
    client.lemma_get_query(key, first_fn, first_cache_time);
    assert forall|i: int, j: int| once.holds(i, key) && once.holds(j, key) implies i == j by {
        once.lemma_position(i, key);
        once.lemma_position(j, key);
    }
}

/// Unsubscribing the last observer arms eviction. When nobody stays attached
/// to the entry for `key` after `callback` unsubscribes, the entry stays in
/// the cache with a newly named timer pending, the effects end by arming
/// that timer for the entry's retention, and the firing of that timer would
/// evict the entry.
pub proof fn law_last_unsubscribe_arms<TData>(
    client: ClientView<TData>,
    key: Seq<char>,
    callback: CallbackId,
)
    requires
        client.wf(),
        client.contains_key(key),
        client.entry(key).remaining(callback).len() == 0,
    ensures
        ({
            let timer = client.entry(key).next_timer;
            let armed = client.detach(key, callback);
            &&& armed.wf()
            &&& armed.contains_key(key)
            &&& armed.entry(key).subscribers.len() == 0
            &&& armed.entry(key).timeout == Some(timer)
            &&& armed.entry(key).state == client.entry(key).state
            &&& client.detach_effects(key, callback) matches Some(effects) && effects.len() > 0
                && effects.last() == (EffectView::Schedule {
                query_key: key,
                timer,
                delay: client.entry(key).cache_time,
            })
            &&& armed.evicts(key, timer)
        }),
{
    client.lemma_with_entry(key, client.entry(key).unsubscribe(callback));
    let p = client.position(key);
    assert(client.holds(p, key));
}

/// Unsubscribing while somebody stays attached arms nothing: the entry keeps
/// whatever timer it had, no effect is called for, and no firing evicts it.
pub proof fn law_observed_entry_stays<TData>(
    client: ClientView<TData>,
    key: Seq<char>,
    callback: CallbackId,
    timer: u64,
)
    requires
        client.wf(),
        client.contains_key(key),
        client.entry(key).remaining(callback).len() > 0,
    ensures
        ({
            let after = client.detach(key, callback);
            &&& after.contains_key(key)
            &&& after.entry(key).subscribers == client.entry(key).remaining(callback)
            &&& after.entry(key).timeout == client.entry(key).timeout
            &&& client.detach_effects(key, callback) == Some(Seq::<EffectView>::empty())
            &&& !after.evicts(key, timer)
            &&& after.cleanup_due(key, timer) == after
        }),
{
    client.lemma_with_entry(key, client.entry(key).unsubscribe(callback));
    let p = client.position(key);
    assert(client.holds(p, key));
}

/// Subscribing again before the timer fires prevents the eviction. After
/// the last observer left the entry for `key`, a new subscription cancels
/// the pending timer; from then on no firing, of that timer or another,
/// removes the entry, which stays reachable by its key.
pub proof fn law_resubscribe_prevents_eviction<TData>(
    client: ClientView<TData>,
    key: Seq<char>,
    callback: CallbackId,
    subscription: Subscription,
    timer: u64,
)
    requires
        client.wf(),
        client.contains_key(key),
        client.entry(key).remaining(callback).len() == 0,
    ensures
        ({
            let armed = client.detach(key, callback);
            let again = armed.attach(key, subscription);
            &&& armed.attach_effects(key) == Some(
                seq![
                    EffectView::Unschedule { query_key: key, timer: client.entry(key).next_timer },
                ],
            )
            &&& again.contains_key(key)
            &&& again.entry(key).timeout is None
            &&& again.entry(key).subscribers == seq![subscription]
            &&& !again.evicts(key, timer)
            &&& again.cleanup_due(key, timer) == again
        }),
{
    let armed = client.detach(key, callback);
    client.lemma_with_entry(key, client.entry(key).unsubscribe(callback));
    let p = client.position(key);
    assert(client.holds(p, key));
    armed.lemma_with_entry(key, armed.entry(key).subscribe(subscription));
    assert(armed.holds(p, key));
    assert(armed.attach(key, subscription).entry(key).subscribers =~= seq![subscription]);
    assert(armed.entry(key).unschedule_effects() =~= seq![
        EffectView::Unschedule { query_key: key, timer: client.entry(key).next_timer },
    ]);
}

/// Letting the timer fire with nobody attached removes the entry. After the
/// last observer left the entry for `key`, the firing of the timer that was
/// armed takes the entry out of the cache and notifies the cache's
/// listeners; every other entry stays as it was; and the next request to
/// observe `key` creates a fresh entry, which holds nothing of the old one.
pub proof fn law_eviction_forgets<TData>(
    client: ClientView<TData>,
    key: Seq<char>,
    callback: CallbackId,
    query_fn: FnPtr,
    cache_time: i32,
)
    requires
        client.wf(),
        client.contains_key(key),
        client.entry(key).remaining(callback).len() == 0,
    ensures
        ({
            let timer = client.entry(key).next_timer;
            let armed = client.detach(key, callback);
            let evicted = armed.cleanup_due(key, timer);
            let again = evicted.get_query(key, query_fn, cache_time);
            &&& evicted.wf()
            &&& !evicted.contains_key(key)
            &&& armed.cleanup_due_effects(key, timer) == notify_each(client.subscribers)
            &&& forall|other: Seq<char>|
                other != key ==> #[trigger] evicted.contains_key(other) == client.contains_key(
                    other,
                )
            &&& forall|other: Seq<char>|
                other != key && client.contains_key(other) ==> #[trigger] evicted.entry(other)
                    == client.entry(other)
            &&& again.contains_key(key)
            &&& again.entry(key) == QueryView::<TData>::create(key, query_fn, cache_time)
            &&& again.entry(key).state == QueryState::<TData>::initial()
        }),
{
    let timer = client.entry(key).next_timer;
    let armed = client.detach(key, callback);
    client.lemma_with_entry(key, client.entry(key).unsubscribe(callback));
    let p = client.position(key);
    assert(client.holds(p, key));
    assert(armed.evicts(key, timer));
    armed.lemma_without_entry(key);
    let evicted = armed.cleanup_due(key, timer);
    evicted.lemma_get_query(key, query_fn, cache_time);
    assert forall|other: Seq<char>| other != key implies #[trigger] evicted.contains_key(other)
        == client.contains_key(other) by {
        assert(armed.contains_key(other) == client.contains_key(other));
    }
    assert forall|other: Seq<char>| other != key && client.contains_key(other) implies #[trigger]
        evicted.entry(other) == client.entry(other) by {
        assert(armed.contains_key(other) == client.contains_key(other));
        assert(armed.entry(other) == client.entry(other));
    }
}

/// Whether `after` is well formed, has the listeners of `before`, and holds
/// for `other` what `before` holds for it.
pub open spec fn keeps_others<TData>(
    before: ClientView<TData>,
    after: ClientView<TData>,
    other: Seq<char>,
) -> bool {
    &&& after.wf()
    &&& after.subscribers == before.subscribers
    &&& after.contains_key(other) == before.contains_key(other)
    &&& before.contains_key(other) ==> after.entry(other) == before.entry(other)
}

/// An operation on one key touches one entry. Attaching, detaching, a look,
/// a forced fetch and the end of a request keep the cache well formed, keep
/// the set of keys and the listeners, and change no entry but the one for
/// their key; an eviction does the same but for the key that it removes.
pub proof fn law_keyed_operations_touch_one_entry<TData>(
    client: ClientView<TData>,
    key: Seq<char>,
    other: Seq<char>,
    subscription: Subscription,
    callback: CallbackId,
    stale_time: i64,
    now: i64,
    result: QueryResult<TData>,
    timer: u64,
)
    requires
        client.wf(),
        other != key,
    ensures
        keeps_others(client, client.attach(key, subscription), other),
        keeps_others(client, client.detach(key, callback), other),
        keeps_others(client, client.fetch_if_stale(key, stale_time, now), other),
        keeps_others(client, client.invalidate(key), other),
        keeps_others(client, client.complete(key, result, now), other),
        client.attach(key, subscription).contains_key(key) == client.contains_key(key),
        client.detach(key, callback).contains_key(key) == client.contains_key(key),
        client.fetch_if_stale(key, stale_time, now).contains_key(key) == client.contains_key(key),
        client.invalidate(key).contains_key(key) == client.contains_key(key),
        client.complete(key, result, now).contains_key(key) == client.contains_key(key),
        keeps_others(client, client.cleanup_due(key, timer), other),
        client.cleanup_due(key, timer).contains_key(key) == (client.contains_key(key)
            && !client.evicts(key, timer)),
{
    if client.contains_key(key) {
        let entry = client.entry(key);
        let p = client.position(key);
        assert(client.holds(p, key));
        client.lemma_with_entry(key, entry.subscribe(subscription));
        client.lemma_with_entry(key, entry.unsubscribe(callback));
        client.lemma_with_entry(key, entry.fetch_if_stale(stale_time, now));
        client.lemma_with_entry(key, entry.fetch());
        client.lemma_with_entry(key, entry.complete(result, now));
        client.lemma_without_entry(key);
    }
}

/// Subscribing adds the observer's callback behind those of the entry, and
/// touches neither the key set nor the listeners.
proof fn lemma_subscribed<TData>(
    client: ClientView<TData>,
    key: Seq<char>,
    observer: Subscriber,
    callback: CallbackId,
    now: i64,
)
    requires
        client.wf(),
        client.contains_key(key),
        observer.query_key@ == key,
    ensures
        ({
            let after = observer.subscribed(client, callback, now);
            &&& after.wf()
            &&& after.contains_key(key)
            &&& after.subscribers == client.subscribers
            &&& after.entry(key).callbacks() == client.entry(key).callbacks().push(callback)
        }),
{
    let attached = client.attach(key, observer.subscription(callback));
    client.lemma_with_entry(key, client.entry(key).subscribe(observer.subscription(callback)));
    attached.lemma_with_entry(key, attached.entry(key).fetch_if_stale(observer.stale_time, now));
    let after = observer.subscribed(client, callback, now);
    assert(after.entry(key).callbacks() =~= client.entry(key).callbacks().push(callback));
}

/// Observers are notified in the order in which they subscribed. After
/// three observers of a key have subscribed one after the other, whatever
/// fetches their subscribing set off, the entry notifies the callbacks it
/// had and then theirs in the order in which they subscribed, then the
/// cache's listeners: when a fetch of the entry starts, and when it ends.
pub proof fn law_subscribers_notified_in_order<TData>(
    client: ClientView<TData>,
    key: Seq<char>,
    first: Subscriber,
    second: Subscriber,
    third: Subscriber,
    callbacks: (CallbackId, CallbackId, CallbackId),
    times: (i64, i64, i64),
)
    requires
        client.wf(),
        client.contains_key(key),
        first.query_key@ == key,
        second.query_key@ == key,
        third.query_key@ == key,
    ensures
        ({
            let one = first.subscribed(client, callbacks.0, times.0);
            let two = second.subscribed(one, callbacks.1, times.1);
            let three = third.subscribed(two, callbacks.2, times.2);
            let notified = client.entry(key).callbacks() + seq![
                callbacks.0,
                callbacks.1,
                callbacks.2,
            ];
            &&& three.wf()
            &&& three.contains_key(key)
            &&& three.entry(key).callbacks() == notified
            &&& !three.entry(key).state.is_fetching ==> three.invalidate_effects(key) == (
            notify_each(notified) + notify_each(client.subscribers)).push(
                three.entry(key).request(),
            )
            &&& three.invalidate(key).complete_effects(key) == notify_each(notified) + notify_each(
                client.subscribers,
            )
        }),
{
    let one = first.subscribed(client, callbacks.0, times.0);
    let two = second.subscribed(one, callbacks.1, times.1);
    let three = third.subscribed(two, callbacks.2, times.2);
    lemma_subscribed(client, key, first, callbacks.0, times.0);
    lemma_subscribed(one, key, second, callbacks.1, times.1);
    lemma_subscribed(two, key, third, callbacks.2, times.2);
    assert(three.entry(key).callbacks() =~= client.entry(key).callbacks() + seq![
        callbacks.0,
        callbacks.1,
        callbacks.2,
    ]);
    three.lemma_with_entry(key, three.entry(key).fetch());
}

} // verus!
