//! An observer: the handle through which one consumer follows one key.

use crate::client::{views, ClientView, QueryClient};
use crate::clock::now;
use crate::effect::{Effect, EffectView};
use crate::handle::CallbackId;
use crate::options::QueryOptions;
use crate::query::{QueryView, Subscription};
use crate::state::QueryState;
use vstd::prelude::*;

verus! {

/// A consumer's handle on the entry for one key, with the policy that the
/// consumer asked for. Any number of observers may follow the same key; they
/// all see the one entry that the cache holds for it.
#[derive(PartialEq, Eq, Debug)]
pub struct Subscriber {
    /// The key of the entry that this observer follows.
    pub query_key: String,
    /// Age in milliseconds beyond which this observer refetches.
    pub stale_time: i64,
    /// The retention that this observer asked for.
    pub cache_time: i32,
}

impl Clone for Subscriber {
    /// An observer of the same key with the same policy.
    fn clone(&self) -> (copy: Self)
        ensures
            copy == *self,
    {
        Subscriber {
            query_key: self.query_key.clone(),
            stale_time: self.stale_time,
            cache_time: self.cache_time,
        }
    }
}

/// An observer with its key as a sequence of characters.
pub struct SubscriberView {
    pub query_key: Seq<char>,
    pub stale_time: i64,
    pub cache_time: i32,
}

impl DeepView for Subscriber {
    type V = SubscriberView;

    open spec fn deep_view(&self) -> SubscriberView {
        SubscriberView {
            query_key: self.query_key@,
            stale_time: self.stale_time,
            cache_time: self.cache_time,
        }
    }
}

/// The observers attached to an entry, in subscription order.
pub open spec fn observers_of<TData>(entry: QueryView<TData>) -> Seq<SubscriberView> {
    entry.subscribers.map_values(
        |subscription: Subscription|
            SubscriberView {
                query_key: entry.query_key,
                stale_time: subscription.stale_time,
                cache_time: subscription.cache_time,
            },
    )
}

impl<TData> ClientView<TData> {
    /// Every attached observer: entry by entry in order of creation, and
    /// within an entry in subscription order.
    pub open spec fn observers(self) -> Seq<SubscriberView> {
        self.queries.flat_map(|entry: QueryView<TData>| observers_of(entry))
    }
}

impl<TData> QueryClient<TData> {
    /// Every attached observer, for a caller that wants to visit them all:
    /// entry by entry in order of creation, and within an entry in
    /// subscription order.
    pub fn observers(&self) -> (observers: Vec<Subscriber>)
        ensures
            observers.deep_view() == self@.observers(),
    {
        let queries = self.queries();
        let ghost entries = self@.queries;
        let ghost step = |entry: QueryView<TData>| observers_of(entry);
        let mut observers: Vec<Subscriber> = Vec::new();
        let mut i: usize = 0;
        assert(entries.take(0).map_values(step) =~= Seq::<Seq<SubscriberView>>::empty());
        while i < queries.len()
            invariant
                i <= queries.len(),
                views(queries@) == entries,
                step == |entry: QueryView<TData>| observers_of(entry),
                observers.deep_view() == entries.take(i as int).map_values(step).flatten(),
            decreases queries.len() - i,
        {
            let query = &queries[i];
            let ghost so_far = observers.deep_view();
            let ghost attached = observers_of(query@);
            let mut j: usize = 0;
            while j < query.subscribers.len()
                invariant
                    j <= query.subscribers.len(),
                    attached == observers_of(query@),
                    observers.deep_view() == so_far + attached.take(j as int),
                decreases query.subscribers.len() - j,
            {
                let subscription = query.subscribers[j];
                let ghost before = observers.deep_view();
                observers.push(
                    Subscriber {
                        query_key: query.query_key.clone(),
                        stale_time: subscription.stale_time,
                        cache_time: subscription.cache_time,
                    },
                );
                proof {
                    assert(observers.deep_view() =~= before.push(attached[j as int]));
                    assert(attached.take(j + 1) =~= attached.take(j as int).push(attached[j as int]));
                }
                j += 1;
            }
            proof {
                assert(attached.take(j as int) == attached);
                let shorter = entries.take(i as int).map_values(step);
                let longer = entries.take(i + 1).map_values(step);
                assert(entries[i as int] == query@);
                assert(longer =~= shorter.push(attached));
                shorter.lemma_flatten_push(attached);
            }
            i += 1;
        }
        assert(entries.take(i as int) == entries);
        observers
    }
}

impl Subscriber {
    /// How this observer stands in an entry's list when it subscribes with
    /// `callback`.
    pub open spec fn subscription(self, callback: CallbackId) -> Subscription {
        Subscription { stale_time: self.stale_time, cache_time: self.cache_time, callback }
    }

    /// What this observer sees in `client`: the state of the entry for its
    /// key, if there is one.
    pub open spec fn result<TData>(self, client: ClientView<TData>) -> Option<QueryState<TData>> {
        if client.contains_key(self.query_key@) {
            Some(client.entry(self.query_key@).state)
        } else {
            None
        }
    }

    /// The cache after this observer subscribed with `callback` at time
    /// `now`: it is attached to its entry, and then looks at it.
    pub open spec fn subscribed<TData>(
        self,
        client: ClientView<TData>,
        callback: CallbackId,
        now: i64,
    ) -> ClientView<TData> {
        client.attach(self.query_key@, self.subscription(callback)).fetch_if_stale(
            self.query_key@,
            self.stale_time,
            now,
        )
    }

    /// What subscribing calls for: the effects of attaching, then those of
    /// the look at the entry with the observer attached.
    pub open spec fn subscribe_effects<TData>(
        self,
        client: ClientView<TData>,
        callback: CallbackId,
        now: i64,
    ) -> Option<Seq<EffectView>> {
        if client.contains_key(self.query_key@) {
            Some(
                client.entry(self.query_key@).subscribe_effects() + client.entry(
                    self.query_key@,
                ).subscribe(self.subscription(callback)).fetch_if_stale_effects(
                    self.stale_time,
                    now,
                    client.subscribers,
                ),
            )
        } else {
            None
        }
    }

    /// The current state of the entry that this observer follows, borrowed
    /// from the cache; reading it changes nothing. `None` if the cache has
    /// no entry for the key.
    pub fn get_result<'a, TData>(&self, client: &'a QueryClient<TData>) -> (state: Option<
        &'a QueryState<TData>,
    >)
        ensures
            match state {
                Some(state) => Some(*state) == self.result(client@),
                None => self.result(client@) is None,
            },
    {
        match client.get(self.query_key.as_str()) {
            Some(query) => Some(&query.state),
            None => None,
        }
    }

    /// Subscribes with `callback` at time `now`: attaches this observer to
    /// its entry, behind the observers already attached, which cancels a
    /// pending eviction; then refetches if the entry is stale for this
    /// observer. Returns `None`, and changes nothing, if the cache has no
    /// entry for the key.
    pub fn subscribe_at<TData>(
        &self,
        client: &mut QueryClient<TData>,
        callback: CallbackId,
        now: i64,
    ) -> (effects: Option<Vec<Effect>>)
        ensures
            final(client)@ == self.subscribed(old(client)@, callback, now),
            effects.deep_view() == self.subscribe_effects(old(client)@, callback, now),
    {
        proof {
            use_type_invariant(&*client);
        }
        let subscription = Subscription {
            stale_time: self.stale_time,
            cache_time: self.cache_time,
            callback,
        };
        match client.attach(self.query_key.as_str(), subscription) {
            None => None,
            Some(mut effects) => {
                proof {
                    old(client)@.lemma_with_entry(
                        self.query_key@,
                        old(client)@.entry(self.query_key@).subscribe(subscription),
                    );
                }
                let ghost first = effects.deep_view();
                match client.fetch_if_stale(self.query_key.as_str(), self.stale_time, now) {
                    Some(mut more) => {
                        let ghost second = more.deep_view();
                        effects.append(&mut more);
                        assert(effects.deep_view() =~= first + second);
                    },
                    None => {},
                }
                Some(effects)
            },
        }
    }

    /// Subscribes with `callback`, at the time that the clock shows now.
    pub fn subscribe<TData>(&self, client: &mut QueryClient<TData>, callback: CallbackId) -> (effects:
        Option<Vec<Effect>>)
        ensures
            exists|at: i64|
                final(client)@ == #[trigger] self.subscribed(old(client)@, callback, at)
                    && effects.deep_view() == self.subscribe_effects(old(client)@, callback, at),
    {
        let at = now();
        self.subscribe_at(client, callback, at)
    }

    /// Unsubscribes `callback`: detaches from this observer's entry every
    /// observer that notifies `callback`, and arms the eviction of the entry
    /// if nobody stays attached. Returns `None`, and changes nothing, if the
    /// cache has no entry for the key.
    pub fn unsubscribe<TData>(&self, client: &mut QueryClient<TData>, callback: CallbackId) -> (effects:
        Option<Vec<Effect>>)
        ensures
            final(client)@ == old(client)@.detach(self.query_key@, callback),
            effects.deep_view() == old(client)@.detach_effects(self.query_key@, callback),
    {
        client.detach(self.query_key.as_str(), callback)
    }

    /// Refetches at time `now` if the entry is stale for this observer: it
    /// has never been updated, or `now` lies more than the observer's
    /// threshold after its last update. A fresh entry is left alone.
    /// Returns `None`, and changes nothing, if the cache has no entry for
    /// the key.
    pub fn fetch_at<TData>(&self, client: &mut QueryClient<TData>, now: i64) -> (effects: Option<
        Vec<Effect>,
    >)
        ensures
            final(client)@ == old(client)@.fetch_if_stale(self.query_key@, self.stale_time, now),
            effects.deep_view() == old(client)@.fetch_if_stale_effects(
                self.query_key@,
                self.stale_time,
                now,
            ),
    {
        client.fetch_if_stale(self.query_key.as_str(), self.stale_time, now)
    }

    /// Refetches if the entry is stale for this observer at the time that
    /// the clock shows now.
    pub fn fetch<TData>(&self, client: &mut QueryClient<TData>) -> (effects: Option<Vec<Effect>>)
        ensures
            exists|at: i64|
                final(client)@ == #[trigger] old(client)@.fetch_if_stale(
                    self.query_key@,
                    self.stale_time,
                    at,
                ) && effects.deep_view() == old(client)@.fetch_if_stale_effects(
                    self.query_key@,
                    self.stale_time,
                    at,
                ),
    {
        let at = now();
        self.fetch_at(client, at)
    }
}

/// Creates an observer for the key of `options`. The cache gets an entry for
/// that key unless it has one; an entry that exists is left as it is, so
/// all observers of a key share one entry.
pub fn create_query_observer<TData>(client: &mut QueryClient<TData>, options: QueryOptions) -> (observer:
    Subscriber)
    ensures
        final(client)@ == old(client)@.get_query(
            options.query_key@,
            options.query_fn,
            options.cache_time,
        ),
        final(client)@.contains_key(options.query_key@),
        observer.query_key@ == options.query_key@,
        observer.stale_time == options.stale_time,
        observer.cache_time == options.cache_time,
{
    client.get_query(&options);
    Subscriber {
        query_key: options.query_key,
        stale_time: options.stale_time,
        cache_time: options.cache_time,
    }
}

} // verus!
