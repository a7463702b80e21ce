//! A sweep of the cache is what the looks of all its observers add up to.

use crate::client::ClientView;
use crate::effect::EffectView;
use crate::query::QueryView;
use crate::subscriber::{observers_of, SubscriberView};
use vstd::prelude::*;

verus! {

/// The cache, and the effects called for, after each of `observers` looked
/// at its entry at time `now`, one after the other.
pub open spec fn look_each<TData>(
    client: ClientView<TData>,
    observers: Seq<SubscriberView>,
    now: i64,
) -> (ClientView<TData>, Seq<EffectView>)
    decreases observers.len(),
{
    if observers.len() == 0 {
        (client, Seq::empty())
    } else {
        let (before, effects) = look_each(client, observers.drop_last(), now);
        let observer = observers.last();
        let more = match before.fetch_if_stale_effects(
            observer.query_key,
            observer.stale_time,
            now,
        ) {
            Some(more) => more,
            None => Seq::empty(),
        };
        (before.fetch_if_stale(observer.query_key, observer.stale_time, now), effects + more)
    }
}

/// Whether the entry is stale at time `now` for one of `observers`.
spec fn stale_for_one_of<TData>(
    entry: QueryView<TData>,
    observers: Seq<SubscriberView>,
    now: i64,
) -> bool {
    exists|i: int|
        0 <= i < observers.len() && entry.stale_for(#[trigger] observers[i].stale_time, now)
}

/// The cache with its first `count` entries swept at time `now`.
spec fn swept<TData>(client: ClientView<TData>, count: int, now: i64) -> ClientView<TData> {
    ClientView {
        queries: Seq::new(
            client.queries.len(),
            |i: int|
                if i < count {
                    client.queries[i].revalidate(now)
                } else {
                    client.queries[i]
                },
        ),
        subscribers: client.subscribers,
    }
}

/// The observers attached to the first `count` entries.
spec fn observers_upto<TData>(client: ClientView<TData>, count: int) -> Seq<SubscriberView> {
    client.queries.take(count).flat_map(|entry: QueryView<TData>| observers_of(entry))
}

/// What sweeping the first `count` entries at time `now` calls for.
spec fn effects_upto<TData>(client: ClientView<TData>, count: int, now: i64) -> Seq<EffectView> {
    client.queries.take(count).flat_map(
        |query: QueryView<TData>| query.revalidate_effects(now, client.subscribers),
    )
}

/// Looks of two groups of observers, one group after the other, are the
/// looks of all of them in that order.
proof fn lemma_look_each_concat<TData>(
    client: ClientView<TData>,
    first: Seq<SubscriberView>,
    second: Seq<SubscriberView>,
    now: i64,
)
    ensures
        look_each(client, first + second, now) == ({
            let (between, sooner) = look_each(client, first, now);
            let (after, later) = look_each(between, second, now);
            (after, sooner + later)
        }),
    decreases second.len(),
{
    let (between, sooner) = look_each(client, first, now);
    if second.len() == 0 {
        assert(first + second =~= first);
        assert(sooner + Seq::<EffectView>::empty() =~= sooner);
    } else {
        let all = first + second;
        assert(all.drop_last() =~= first + second.drop_last());
        assert(all.last() == second.last());
        lemma_look_each_concat(client, first, second.drop_last(), now);
        let (before, effects) = look_each(between, second.drop_last(), now);
        let more = match before.fetch_if_stale_effects(
            second.last().query_key,
            second.last().stale_time,
            now,
        ) {
            Some(more) => more,
            None => Seq::empty(),
        };
        assert((sooner + effects) + more =~= sooner + (effects + more));
    }
}

/// The looks of observers of one entry add up to one fetch of that entry if
/// it is stale for any of them, and to nothing otherwise.
proof fn lemma_look_each_at_one_entry<TData>(
    client: ClientView<TData>,
    key: Seq<char>,
    observers: Seq<SubscriberView>,
    now: i64,
)
    requires
        client.wf(),
        client.contains_key(key),
        forall|i: int| 0 <= i < observers.len() ==> (#[trigger] observers[i]).query_key == key,
    ensures
        look_each(client, observers, now) == (if stale_for_one_of(
            client.entry(key),
            observers,
            now,
        ) {
            (
                client.with_entry(key, client.entry(key).fetch()),
                client.entry(key).fetch_effects(client.subscribers),
            )
        } else {
            (client, Seq::<EffectView>::empty())
        }),
    decreases observers.len(),
{
    let entry = client.entry(key);
    let listeners = client.subscribers;
    if observers.len() > 0 {
        let shorter = observers.drop_last();
        let last = observers.last();
        lemma_look_each_at_one_entry(client, key, shorter, now);
        client.lemma_with_entry(key, entry.fetch());
        let fetched = client.with_entry(key, entry.fetch());
        let stale_before = stale_for_one_of(entry, shorter, now);
        let stale_last = entry.stale_for(last.stale_time, now);
        assert(last.query_key == key);
        assert(stale_for_one_of(entry, observers, now) <==> (stale_before || stale_last)) by {
            if stale_before {
                let i = choose|i: int|
                    0 <= i < shorter.len() && entry.stale_for(
                        #[trigger] shorter[i].stale_time,
                        now,
                    );
                assert(observers[i] == shorter[i]);
            }
            if stale_last {
                assert(entry.stale_for(observers[observers.len() - 1].stale_time, now));
            }
            if stale_for_one_of(entry, observers, now) {
                let i = choose|i: int|
                    0 <= i < observers.len() && entry.stale_for(
                        #[trigger] observers[i].stale_time,
                        now,
                    );
                if i < shorter.len() {
                    assert(shorter[i] == observers[i]);
                }
            }
        }
        if stale_before {
            assert(fetched.entry(key).fetch() =~= fetched.entry(key));
            fetched.lemma_with_entry(key, fetched.entry(key).fetch());
            assert(fetched.with_entry(key, fetched.entry(key)) =~= fetched);
            assert(entry.fetch_effects(listeners) + Seq::<EffectView>::empty()
                =~= entry.fetch_effects(listeners));
        } else {
            assert(Seq::<EffectView>::empty() + entry.fetch_effects(listeners)
                =~= entry.fetch_effects(listeners));
            assert(Seq::<EffectView>::empty() + Seq::<EffectView>::empty() =~= Seq::<
                EffectView,
            >::empty());
        }
    }
}

/// The looks of the observers of the first `count` entries sweep those
/// entries.
proof fn lemma_look_each_sweeps<TData>(client: ClientView<TData>, count: int, now: i64)
    requires
        client.wf(),
        0 <= count <= client.queries.len(),
    ensures
        look_each(client, observers_upto(client, count), now) == (
            swept(client, count, now),
            effects_upto(client, count, now),
        ),
    decreases count,
{
    let observe = |entry: QueryView<TData>| observers_of(entry);
    let sweep = |query: QueryView<TData>| query.revalidate_effects(now, client.subscribers);
    if count == 0 {
        assert(client.queries.take(0).map_values(observe) =~= Seq::<Seq<SubscriberView>>::empty());
        assert(client.queries.take(0).map_values(sweep) =~= Seq::<Seq<EffectView>>::empty());
        assert(swept(client, 0, now) =~= client);
    } else {
        let k = count - 1;
        let entry = client.queries[k];
        let key = entry.query_key;
        lemma_look_each_sweeps(client, k, now);
        let sooner = client.queries.take(k);
        assert(client.queries.take(count).map_values(observe) =~= sooner.map_values(observe).push(
            observers_of(entry),
        ));
        sooner.map_values(observe).lemma_flatten_push(observers_of(entry));
        assert(client.queries.take(count).map_values(sweep) =~= sooner.map_values(sweep).push(
            entry.revalidate_effects(now, client.subscribers),
        ));
        sooner.map_values(sweep).lemma_flatten_push(
            entry.revalidate_effects(now, client.subscribers),
        );
        lemma_look_each_concat(client, observers_upto(client, k), observers_of(entry), now);
        let between = swept(client, k, now);
        assert(between.holds(k, key));
        between.lemma_position(k, key);
        lemma_look_each_at_one_entry(between, key, observers_of(entry), now);
        assert(stale_for_one_of(entry, observers_of(entry), now) <==> entry.stale_for_some(now)) by {
            if stale_for_one_of(entry, observers_of(entry), now) {
                let i = choose|i: int|
                    0 <= i < observers_of(entry).len() && entry.stale_for(
                        #[trigger] observers_of(entry)[i].stale_time,
                        now,
                    );
                assert(entry.stale_for(entry.subscribers[i].stale_time, now));
            }
            if entry.stale_for_some(now) {
                let i = choose|i: int|
                    0 <= i < entry.subscribers.len() && entry.stale_for(
                        #[trigger] entry.subscribers[i].stale_time,
                        now,
                    );
                assert(entry.stale_for(observers_of(entry)[i].stale_time, now));
            }
        }
        if entry.stale_for_some(now) {
            assert(between.with_entry(key, entry.fetch()) =~= swept(client, count, now));
        } else {
            assert(between =~= swept(client, count, now));
        }
    }
}

/// A sweep is what the looks of all observers add up to. Letting every
/// attached observer look at its entry at time `now`, entry by entry and
/// within an entry in subscription order, leaves the cache as the sweep
/// leaves it and calls for the same effects in the same order.
pub proof fn law_sweep_is_every_observer_looking<TData>(client: ClientView<TData>, now: i64)
    requires
        client.wf(),
    ensures
        look_each(client, client.observers(), now) == (
            client.refetch_stale(now),
            client.refetch_stale_effects(now),
        ),
{
    let count = client.queries.len() as int;
    lemma_look_each_sweeps(client, count, now);
    assert(client.queries.take(count) == client.queries);
    assert(swept(client, count, now) =~= client.refetch_stale(now));
}

} // verus!
