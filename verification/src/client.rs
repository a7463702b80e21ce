//! The cache: entries by key, and the listeners that hear of every change.

use crate::clock::now;
use crate::effect::{notify_each, push_notifications, Effect, EffectView};
use crate::handle::{CallbackId, FnPtr};
use crate::options::QueryOptions;
use crate::query::{create_query, Query, QueryView, Subscription};
use crate::state::QueryResult;
use crate::text::same_text;
use vstd::prelude::*;

verus! {

/// The cache. It owns its entries; observers refer to them by key.
pub struct QueryClient<TData> {
    queries: Vec<Query<TData>>,
    subscribers: Vec<CallbackId>,
}

/// The mathematical content of a cache: its entries in order of creation,
/// and its listeners in order of subscription.
#[verifier::ext_equal]
pub struct ClientView<TData> {
    pub queries: Seq<QueryView<TData>>,
    pub subscribers: Seq<CallbackId>,
}

impl<TData> View for QueryClient<TData> {
    type V = ClientView<TData>;

    closed spec fn view(&self) -> ClientView<TData> {
        ClientView { queries: views(self.queries@), subscribers: self.subscribers@ }
    }
}

/// The test that every callback but `callback` passes.
pub open spec fn other_than(callback: CallbackId) -> spec_fn(CallbackId) -> bool {
    |listener: CallbackId| listener != callback
}

/// The content of each entry, in order.
pub open spec fn views<TData>(queries: Seq<Query<TData>>) -> Seq<QueryView<TData>> {
    queries.map_values(|query: Query<TData>| query@)
}

impl<TData> ClientView<TData> {
    /// No two entries share a key.
    pub open spec fn wf(self) -> bool {
        forall|i: int, j: int|
            0 <= i < j < self.queries.len() ==> self.queries[i].query_key
                != self.queries[j].query_key
    }

    /// Whether the entry at position `i` is the one for `key`.
    pub open spec fn holds(self, i: int, key: Seq<char>) -> bool {
        0 <= i < self.queries.len() && self.queries[i].query_key == key
    }

    /// Whether the cache has an entry for `key`.
    pub open spec fn contains_key(self, key: Seq<char>) -> bool {
        exists|i: int| self.holds(i, key)
    }

    /// The position of the entry for `key`, where there is one.
    pub open spec fn position(self, key: Seq<char>) -> int {
        choose|i: int| self.holds(i, key)
    }

    /// The entry for `key`, where there is one.
    pub open spec fn entry(self, key: Seq<char>) -> QueryView<TData> {
        self.queries[self.position(key)]
    }

    /// The cache with `entry` in the place of the entry for `key`.
    pub open spec fn with_entry(self, key: Seq<char>, entry: QueryView<TData>) -> Self {
        ClientView { queries: self.queries.update(self.position(key), entry), ..self }
    }

    /// The cache with nothing in it.
    pub open spec fn empty() -> Self {
        ClientView { queries: Seq::empty(), subscribers: Seq::empty() }
    }

    /// The cache with one more listener, behind those it has.
    pub open spec fn subscribe(self, callback: CallbackId) -> Self {
        ClientView { subscribers: self.subscribers.push(callback), ..self }
    }

    /// The cache without the listeners equal to `callback`.
    pub open spec fn unsubscribe(self, callback: CallbackId) -> Self {
        ClientView {
            subscribers: self.subscribers.filter(other_than(callback)),
            ..self
        }
    }

    /// One notification for each listener, in subscription order.
    pub open spec fn notify_all(self) -> Seq<EffectView> {
        notify_each(self.subscribers)
    }

    /// The cache with an entry for `query_key`: the one it has, or else a
    /// fresh one behind the others.
    pub open spec fn get_query(self, query_key: Seq<char>, query_fn: FnPtr, cache_time: i32) -> Self {
        if self.contains_key(query_key) {
            self
        } else {
            ClientView {
                queries: self.queries.push(QueryView::create(query_key, query_fn, cache_time)),
                ..self
            }
        }
    }

    /// The cache after an observer attached to the entry for `key`. Without
    /// such an entry nothing changes.
    pub open spec fn attach(self, key: Seq<char>, subscription: Subscription) -> Self {
        if self.contains_key(key) {
            self.with_entry(key, self.entry(key).subscribe(subscription))
        } else {
            self
        }
    }

    /// What attaching calls for, where the cache has an entry for `key`.
    pub open spec fn attach_effects(self, key: Seq<char>) -> Option<Seq<EffectView>> {
        if self.contains_key(key) {
            Some(self.entry(key).subscribe_effects())
        } else {
            None
        }
    }

    /// The cache after `callback` unsubscribed from the entry for `key`.
    /// Without such an entry nothing changes.
    pub open spec fn detach(self, key: Seq<char>, callback: CallbackId) -> Self {
        if self.contains_key(key) {
            self.with_entry(key, self.entry(key).unsubscribe(callback))
        } else {
            self
        }
    }

    /// What unsubscribing calls for, where the cache has an entry for `key`.
    pub open spec fn detach_effects(self, key: Seq<char>, callback: CallbackId) -> Option<
        Seq<EffectView>,
    > {
        if self.contains_key(key) {
            Some(self.entry(key).unsubscribe_effects(callback))
        } else {
            None
        }
    }

    /// The cache after an observer with threshold `stale_time` looked at the
    /// entry for `key` at time `now`.
    pub open spec fn fetch_if_stale(self, key: Seq<char>, stale_time: i64, now: i64) -> Self {
        if self.contains_key(key) {
            self.with_entry(key, self.entry(key).fetch_if_stale(stale_time, now))
        } else {
            self
        }
    }

    /// What that look calls for, where the cache has an entry for `key`.
    pub open spec fn fetch_if_stale_effects(self, key: Seq<char>, stale_time: i64, now: i64) -> Option<
        Seq<EffectView>,
    > {
        if self.contains_key(key) {
            Some(self.entry(key).fetch_if_stale_effects(stale_time, now, self.subscribers))
        } else {
            None
        }
    }

    /// The cache after a fetch was forced on the entry for `key`.
    pub open spec fn invalidate(self, key: Seq<char>) -> Self {
        if self.contains_key(key) {
            self.with_entry(key, self.entry(key).fetch())
        } else {
            self
        }
    }

    /// What forcing a fetch calls for.
    pub open spec fn invalidate_effects(self, key: Seq<char>) -> Seq<EffectView> {
        if self.contains_key(key) {
            self.entry(key).fetch_effects(self.subscribers)
        } else {
            Seq::empty()
        }
    }

    /// The cache after the request of the entry for `key` ended with
    /// `result` at time `now`.
    pub open spec fn complete(self, key: Seq<char>, result: QueryResult<TData>, now: i64) -> Self {
        if self.contains_key(key) {
            self.with_entry(key, self.entry(key).complete(result, now))
        } else {
            self
        }
    }

    /// What the end of that request calls for.
    pub open spec fn complete_effects(self, key: Seq<char>) -> Seq<EffectView> {
        if self.contains_key(key) {
            self.entry(key).complete_effects(self.subscribers)
        } else {
            Seq::empty()
        }
    }

    /// Whether the firing of `timer` evicts the entry for `key`.
    pub open spec fn evicts(self, key: Seq<char>, timer: u64) -> bool {
        self.contains_key(key) && self.entry(key).expires_with(timer)
    }

    /// The cache after the eviction timer `timer` of the entry for `key`
    /// fired: the entry is gone if that timer was pending on it and nobody
    /// is attached.
    pub open spec fn cleanup_due(self, key: Seq<char>, timer: u64) -> Self {
        if self.evicts(key, timer) {
            ClientView { queries: self.queries.remove(self.position(key)), ..self }
        } else {
            self
        }
    }

    /// What the firing calls for: the listeners hear of an eviction.
    pub open spec fn cleanup_due_effects(self, key: Seq<char>, timer: u64) -> Seq<EffectView> {
        if self.evicts(key, timer) {
            self.notify_all()
        } else {
            Seq::empty()
        }
    }

    /// The cache after every attached observer of every entry looked at its
    /// entry at time `now`.
    pub open spec fn refetch_stale(self, now: i64) -> Self {
        ClientView {
            queries: self.queries.map_values(|query: QueryView<TData>| query.revalidate(now)),
            ..self
        }
    }

    /// What those looks call for, entry by entry in order of creation.
    pub open spec fn refetch_stale_effects(self, now: i64) -> Seq<EffectView> {
        self.queries.flat_map(
            |query: QueryView<TData>| query.revalidate_effects(now, self.subscribers),
        )
    }

    /// In a well-formed cache the entry for a key stands at one position only.
    pub proof fn lemma_position(self, i: int, key: Seq<char>)
        requires
            self.wf(),
            self.holds(i, key),
        ensures
            self.contains_key(key),
            self.position(key) == i,
            self.entry(key) == self.queries[i],
    {
        let p = self.position(key);
        assert(self.holds(p, key));
        if p < i {
            assert(self.queries[p].query_key != self.queries[i].query_key);
        } else if i < p {
            assert(self.queries[i].query_key != self.queries[p].query_key);
        }
    }

    /// Replacing the entry for a key by one with the same key keeps the
    /// cache well formed, keeps every key where it was, and changes no other
    /// entry.
    pub proof fn lemma_with_entry(self, key: Seq<char>, entry: QueryView<TData>)
        requires
            self.wf(),
            self.contains_key(key),
            entry.query_key == key,
        ensures
            self.with_entry(key, entry).wf(),
            self.with_entry(key, entry).entry(key) == entry,
            self.with_entry(key, entry).position(key) == self.position(key),
            forall|other: Seq<char>| #[trigger]
                self.with_entry(key, entry).contains_key(other) == self.contains_key(other),
            forall|other: Seq<char>|
                other != key && self.contains_key(other) ==> #[trigger] self.with_entry(
                    key,
                    entry,
                ).entry(other) == self.entry(other),
    {
        let after = self.with_entry(key, entry);
        let p = self.position(key);
        assert(self.holds(p, key));
        assert(after.holds(p, key));
        after.lemma_position(p, key);
        assert forall|other: Seq<char>| #[trigger]
            after.contains_key(other) == self.contains_key(other) by {
            if self.contains_key(other) {
                let i = self.position(other);
                assert(self.holds(i, other));
                if i == p {
                    assert(other == key);
                }
                assert(after.holds(i, other));
            }
            if after.contains_key(other) {
                let i = after.position(other);
                assert(after.holds(i, other));
                assert(self.holds(i, other));
            }
        }
        assert forall|other: Seq<char>| other != key && self.contains_key(other) implies #[trigger]
            after.entry(other) == self.entry(other) by {
            let i = self.position(other);
            assert(self.holds(i, other));
            assert(after.holds(i, other));
            after.lemma_position(i, other);
        }
    }

    /// Removing the entry for a key keeps the cache well formed, leaves no
    /// entry for that key, and changes no other entry.
    pub proof fn lemma_without_entry(self, key: Seq<char>)
        requires
            self.wf(),
            self.contains_key(key),
        ensures
            ({
                let after = ClientView {
                    queries: self.queries.remove(self.position(key)),
                    ..self
                };
                &&& after.wf()
                &&& !after.contains_key(key)
                &&& forall|other: Seq<char>|
                    other != key ==> #[trigger] after.contains_key(other) == self.contains_key(other)
                &&& forall|other: Seq<char>|
                    other != key && self.contains_key(other) ==> #[trigger] after.entry(other)
                        == self.entry(other)
            }),
    {
        let p = self.position(key);
        let after = ClientView { queries: self.queries.remove(p), ..self };
        assert(self.holds(p, key));
        assert forall|a: int, b: int| 0 <= a < b < after.queries.len() implies after.queries[a].query_key
            != after.queries[b].query_key by {
            let a0 = if a < p { a } else { a + 1 };
            let b0 = if b < p { b } else { b + 1 };
            assert(after.queries[a] == self.queries[a0]);
            assert(after.queries[b] == self.queries[b0]);
        }
        assert forall|i: int| !after.holds(i, key) by {
            if after.holds(i, key) {
                let i0 = if i < p { i } else { i + 1 };
                assert(after.queries[i] == self.queries[i0]);
                self.lemma_position(i0, key);
            }
        }
        assert forall|other: Seq<char>| other != key implies #[trigger] after.contains_key(other)
            == self.contains_key(other) by {
            if self.contains_key(other) {
                let i = self.position(other);
                assert(self.holds(i, other));
                let i1 = if i < p { i } else { i - 1 };
                assert(after.queries[i1] == self.queries[i]);
                assert(after.holds(i1, other));
            }
            if after.contains_key(other) {
                let i = after.position(other);
                assert(after.holds(i, other));
                let i0 = if i < p { i } else { i + 1 };
                assert(after.queries[i] == self.queries[i0]);
                assert(self.holds(i0, other));
            }
        }
        assert forall|other: Seq<char>| other != key && self.contains_key(other) implies #[trigger]
            after.entry(other) == self.entry(other) by {
            let i = self.position(other);
            assert(self.holds(i, other));
            let i1 = if i < p { i } else { i - 1 };
            assert(after.queries[i1] == self.queries[i]);
            assert(after.holds(i1, other));
            after.lemma_position(i1, other);
        }
    }

    /// Asking for the entry of a key keeps the cache well formed and every
    /// entry it had; a key that had no entry gets a fresh one.
    pub proof fn lemma_get_query(self, key: Seq<char>, query_fn: FnPtr, cache_time: i32)
        requires
            self.wf(),
        ensures
            ({
                let after = self.get_query(key, query_fn, cache_time);
                &&& after.wf()
                &&& after.contains_key(key)
                &&& self.contains_key(key) ==> after == self
                &&& !self.contains_key(key) ==> after.entry(key) == QueryView::<TData>::create(
                    key,
                    query_fn,
                    cache_time,
                )
                &&& forall|other: Seq<char>|
                    other != key ==> #[trigger] after.contains_key(other) == self.contains_key(other)
                &&& forall|other: Seq<char>|
                    other != key && self.contains_key(other) ==> #[trigger] after.entry(other)
                        == self.entry(other)
            }),
    {
        let after = self.get_query(key, query_fn, cache_time);
        if !self.contains_key(key) {
            let n = self.queries.len() as int;
            assert(after.holds(n, key));
            assert forall|a: int, b: int| 0 <= a < b < after.queries.len() implies after.queries[a].query_key
                != after.queries[b].query_key by {
                if b == n {
                    assert(!self.holds(a, key));
                }
            }
            after.lemma_position(n, key);
            assert forall|other: Seq<char>| other != key implies #[trigger] after.contains_key(other)
                == self.contains_key(other) by {
                if self.contains_key(other) {
                    let i = self.position(other);
                    assert(self.holds(i, other));
                    assert(after.holds(i, other));
                }
                if after.contains_key(other) {
                    let i = after.position(other);
                    assert(after.holds(i, other));
                    assert(self.holds(i, other));
                }
            }
            assert forall|other: Seq<char>| other != key && self.contains_key(other) implies #[trigger]
                after.entry(other) == self.entry(other) by {
                let i = self.position(other);
                assert(self.holds(i, other));
                assert(after.holds(i, other));
                after.lemma_position(i, other);
            }
        } else {
            let i = self.position(key);
            assert(self.holds(i, key));
        }
    }
}

impl<TData> QueryClient<TData> {
    /// What holds of every cache: no two entries share a key.
    #[verifier::type_invariant]
    pub open spec fn distinct_keys(self) -> bool {
        self@.wf()
    }

    /// Creates a cache without entries or listeners.
    pub fn new() -> (client: Self)
        ensures
            client@ == ClientView::<TData>::empty(),
    {
        let client = QueryClient { queries: Vec::new(), subscribers: Vec::new() };
        assert(client@ =~= ClientView::<TData>::empty());
        client
    }

    /// Makes sure that the cache has an entry for the key of `options`, and
    /// returns its position. An entry that exists is left as it is; a
    /// missing one is created fresh, behind the others.
    pub fn get_query(&mut self, options: &QueryOptions) -> (position: usize)
        ensures
            final(self)@ == old(self)@.get_query(
                options.query_key@,
                options.query_fn,
                options.cache_time,
            ),
            final(self)@.holds(position as int, options.query_key@),
    {
        match self.find(options.query_key.as_str()) {
            Some(i) => i,
            None => {
                let mut queries = self.take_queries();
                let position = queries.len();
                let query = create_query(options);
                queries.push(query);
                proof {
                    let before = old(self)@;
                    let after = views(queries@);
                    assert(after =~= before.queries.push(query@));
                    assert forall|i: int, j: int| 0 <= i < j < after.len() implies after[i].query_key
                        != after[j].query_key by {
                        if j == before.queries.len() {
                            assert(!before.holds(i, options.query_key@));
                        }
                    }
                }
                self.queries = queries;
                position
            },
        }
    }

    /// The entry for `key`, if the cache has one.
    pub fn get(&self, key: &str) -> (found: Option<&Query<TData>>)
        ensures
            match found {
                Some(query) => self@.contains_key(key@) && query@ == self@.entry(key@),
                None => !self@.contains_key(key@),
            },
    {
        match self.find(key) {
            Some(i) => Some(&self.queries[i]),
            None => None,
        }
    }

    /// The entries, in order of creation.
    pub fn queries(&self) -> (queries: &Vec<Query<TData>>)
        ensures
            views(queries@) == self@.queries,
            self@.wf(),
    {
        proof {
            use_type_invariant(self);
        }
        &self.queries
    }

    /// Adds a listener that hears of every change in the cache.
    pub fn subscribe(&mut self, callback: CallbackId)
        ensures
            final(self)@ == old(self)@.subscribe(callback),
    {
        let mut subscribers = self.take_subscribers();
        subscribers.push(callback);
        self.subscribers = subscribers;
    }

    /// Removes every listener equal to `callback`.
    pub fn unsubscribe(&mut self, callback: CallbackId)
        ensures
            final(self)@ == old(self)@.unsubscribe(callback),
    {
        let subscribers = self.take_subscribers();
        let ghost keep = other_than(callback);
        let mut kept: Vec<CallbackId> = Vec::new();
        let mut i: usize = 0;
        while i < subscribers.len()
            invariant
                i <= subscribers.len(),
                keep == other_than(callback),
                kept@ == subscribers@.take(i as int).filter(keep),
            decreases subscribers.len() - i,
        {
            let listener = subscribers[i];
            proof {
                let longer = subscribers@.take(i + 1);
                assert(longer.drop_last() == subscribers@.take(i as int));
                assert(longer.last() == listener);
                reveal(Seq::filter);
            }
            if listener != callback {
                kept.push(listener);
            }
            i += 1;
        }
        assert(subscribers@.take(i as int) == subscribers@);
        self.subscribers = kept;
    }

    /// One notification for each listener, in subscription order.
    pub fn notify_all(&self) -> (effects: Vec<Effect>)
        ensures
            effects.deep_view() == self@.notify_all(),
    {
        let mut effects: Vec<Effect> = Vec::new();
        push_notifications(&mut effects, &self.subscribers);
        effects
    }

    /// Attaches an observer to the entry for `key`, behind those already
    /// attached, and cancels a pending eviction of that entry. Returns
    /// `None`, and changes nothing, if the cache has no entry for `key`.
    pub fn attach(&mut self, key: &str, subscription: Subscription) -> (effects: Option<
        Vec<Effect>,
    >)
        ensures
            final(self)@ == old(self)@.attach(key@, subscription),
            effects.deep_view() == old(self)@.attach_effects(key@),
    {
        match self.find(key) {
            None => None,
            Some(i) => {
                let mut queries = self.take_queries();
                let effects = queries[i].subscribe(subscription);
                proof {
                    old(self)@.lemma_with_entry(key@, queries@[i as int]@);
                    assert(views(queries@) =~= old(self)@.queries.update(
                        i as int,
                        queries@[i as int]@,
                    ));
                }
                self.queries = queries;
                Some(effects)
            },
        }
    }

    /// Detaches from the entry for `key` every observer that notifies
    /// `callback`, and arms the eviction of the entry if nobody stays
    /// attached. Returns `None`, and changes nothing, if the cache has no
    /// entry for `key`.
    pub fn detach(&mut self, key: &str, callback: CallbackId) -> (effects: Option<Vec<Effect>>)
        ensures
            final(self)@ == old(self)@.detach(key@, callback),
            effects.deep_view() == old(self)@.detach_effects(key@, callback),
    {
        match self.find(key) {
            None => None,
            Some(i) => {
                let mut queries = self.take_queries();
                let effects = queries[i].unsubscribe(callback);
                proof {
                    old(self)@.lemma_with_entry(key@, queries@[i as int]@);
                    assert(views(queries@) =~= old(self)@.queries.update(
                        i as int,
                        queries@[i as int]@,
                    ));
                }
                self.queries = queries;
                Some(effects)
            },
        }
    }

    /// Asks for a fetch of the entry for `key` on behalf of an observer
    /// with threshold `stale_time`, if the entry is stale for it at time
    /// `now`. Returns `None`, and changes nothing, if the cache has no entry
    /// for `key`.
    pub fn fetch_if_stale(&mut self, key: &str, stale_time: i64, now: i64) -> (effects: Option<
        Vec<Effect>,
    >)
        ensures
            final(self)@ == old(self)@.fetch_if_stale(key@, stale_time, now),
            effects.deep_view() == old(self)@.fetch_if_stale_effects(key@, stale_time, now),
    {
        match self.find(key) {
            None => None,
            Some(i) => {
                let mut queries = self.take_queries();
                let effects = queries[i].fetch_if_stale(stale_time, now, &self.subscribers);
                proof {
                    old(self)@.lemma_with_entry(key@, queries@[i as int]@);
                    assert(views(queries@) =~= old(self)@.queries.update(
                        i as int,
                        queries@[i as int]@,
                    ));
                }
                self.queries = queries;
                Some(effects)
            },
        }
    }

    /// Forces a fetch of the entry for `key`, however fresh its data is.
    /// Without such an entry nothing happens.
    pub fn invalidate(&mut self, key: &str) -> (effects: Vec<Effect>)
        ensures
            final(self)@ == old(self)@.invalidate(key@),
            effects.deep_view() == old(self)@.invalidate_effects(key@),
    {
        match self.find(key) {
            None => Vec::new(),
            Some(i) => {
                let mut queries = self.take_queries();
                let effects = queries[i].fetch(&self.subscribers);
                proof {
                    old(self)@.lemma_with_entry(key@, queries@[i as int]@);
                    assert(views(queries@) =~= old(self)@.queries.update(
                        i as int,
                        queries@[i as int]@,
                    ));
                }
                self.queries = queries;
                effects
            },
        }
    }

    /// Records that the request of the entry for `key` ended with `result`
    /// at time `now`. Without such an entry, or without a request in flight
    /// on it, the result is dropped.
    pub fn complete_at(&mut self, key: &str, result: QueryResult<TData>, now: i64) -> (effects:
        Vec<Effect>)
        ensures
            final(self)@ == old(self)@.complete(key@, result, now),
            effects.deep_view() == old(self)@.complete_effects(key@),
    {
        match self.find(key) {
            None => Vec::new(),
            Some(i) => {
                let mut queries = self.take_queries();
                let effects = queries[i].complete(result, now, &self.subscribers);
                proof {
                    old(self)@.lemma_with_entry(key@, queries@[i as int]@);
                    assert(views(queries@) =~= old(self)@.queries.update(
                        i as int,
                        queries@[i as int]@,
                    ));
                }
                self.queries = queries;
                effects
            },
        }
    }

    /// Records that the request of the entry for `key` ended with `result`,
    /// at the time that the clock shows now.
    pub fn complete(&mut self, key: &str, result: QueryResult<TData>) -> (effects: Vec<Effect>)
        ensures
            exists|at: i64| final(self)@ == #[trigger] old(self)@.complete(key@, result, at),
            effects.deep_view() == old(self)@.complete_effects(key@),
    {
        let at = now();
        self.complete_at(key, result, at)
    }

    /// Handles the firing of the eviction timer `timer` of the entry for
    /// `key`. The entry is removed, and the listeners are notified, if
    /// `timer` is the timer pending on it and nobody is attached; a timer
    /// that was cancelled or superseded, or whose entry is gone, changes
    /// nothing.
    pub fn cleanup_due(&mut self, key: &str, timer: u64) -> (effects: Vec<Effect>)
        ensures
            final(self)@ == old(self)@.cleanup_due(key@, timer),
            effects.deep_view() == old(self)@.cleanup_due_effects(key@, timer),
    {
        match self.find(key) {
            None => Vec::new(),
            Some(i) => {
                if self.queries[i].expires_with(timer) {
                    let mut queries = self.take_queries();
                    queries.remove(i);
                    proof {
                        let before = old(self)@.queries;
                        let after = views(queries@);
                        assert(after =~= before.remove(i as int));
                        assert forall|a: int, b: int| 0 <= a < b < after.len() implies after[a].query_key
                            != after[b].query_key by {
                            let a0 = if a < i { a } else { a + 1 };
                            let b0 = if b < i { b } else { b + 1 };
                            assert(after[a] == before[a0]);
                            assert(after[b] == before[b0]);
                        }
                    }
                    self.queries = queries;
                    self.notify_all()
                } else {
                    Vec::new()
                }
            },
        }
    }

    /// Lets every attached observer of every entry look at its entry at
    /// time `now`, as on regaining focus: each entry that some observer of
    /// its own finds stale, and that has no request in flight, starts one
    /// fetch. The effects come entry by entry, in order of creation.
    pub fn refetch_stale_at(&mut self, now: i64) -> (effects: Vec<Effect>)
        ensures
            final(self)@ == old(self)@.refetch_stale(now),
            effects.deep_view() == old(self)@.refetch_stale_effects(now),
    {
        let mut queries = self.take_queries();
        let ghost before = old(self)@;
        let ghost step = |query: QueryView<TData>| query.revalidate_effects(now, before.subscribers);
        let mut effects: Vec<Effect> = Vec::new();
        let mut i: usize = 0;
        assert(before.queries.take(0).map_values(step) =~= Seq::<Seq<EffectView>>::empty());
        while i < queries.len()
            invariant
                i <= queries.len(),
                queries.len() == before.queries.len(),
                self.subscribers@ == before.subscribers,
                step == |query: QueryView<TData>| query.revalidate_effects(now, before.subscribers),
                forall|j: int| 0 <= j < i ==> #[trigger] queries@[j]@ == before.queries[j].revalidate(now),
                forall|j: int| i <= j < queries.len() ==> #[trigger] queries@[j]@ == before.queries[j],
                effects.deep_view() == before.queries.take(i as int).map_values(step).flatten(),
            decreases queries.len() - i,
        {
            let ghost so_far = effects.deep_view();
            let mut more = queries[i].revalidate(now, &self.subscribers);
            let ghost added = more.deep_view();
            effects.append(&mut more);
            proof {
                assert(effects.deep_view() =~= so_far + added);
                let shorter = before.queries.take(i as int).map_values(step);
                let longer = before.queries.take(i + 1).map_values(step);
                assert(longer =~= shorter.push(added));
                shorter.lemma_flatten_push(added);
            }
            i += 1;
        }
        proof {
            assert(before.queries.take(i as int) == before.queries);
            assert(views(queries@) =~= before.refetch_stale(now).queries);
            assert forall|a: int, b: int| 0 <= a < b < queries.len() implies views(
                queries@,
            )[a].query_key != views(queries@)[b].query_key by {
                assert(queries@[a]@.query_key == before.queries[a].query_key);
                assert(queries@[b]@.query_key == before.queries[b].query_key);
            }
        }
        self.queries = queries;
        effects
    }

    /// Lets every attached observer of every entry look at its entry, at
    /// the time that the clock shows now.
    pub fn refetch_stale(&mut self) -> (effects: Vec<Effect>)
        ensures
            exists|at: i64|
                final(self)@ == #[trigger] old(self)@.refetch_stale(at) && effects.deep_view()
                    == old(self)@.refetch_stale_effects(at),
    {
        let at = now();
        self.refetch_stale_at(at)
    }

    /// The position of the entry for `key`, if the cache has one.
    fn find(&self, key: &str) -> (found: Option<usize>)
        ensures
            self@.wf(),
            match found {
                Some(i) => self@.holds(i as int, key@) && self@.position(key@) == i,
                None => !self@.contains_key(key@),
            },
    {
        proof {
            use_type_invariant(self);
        }
        let mut i: usize = 0;
        while i < self.queries.len()
            invariant
                self@.wf(),
                i <= self.queries.len(),
                forall|j: int| 0 <= j < i ==> !self@.holds(j, key@),
            decreases self.queries.len() - i,
        {
            if same_text(self.queries[i].query_key.as_str(), key) {
                proof {
                    self@.lemma_position(i as int, key@);
                }
                return Some(i);
            }
            i += 1;
        }
        None
    }

    /// Hands out the entries and leaves none behind.
    fn take_queries(&mut self) -> (queries: Vec<Query<TData>>)
        ensures
            views(queries@) == old(self)@.queries,
            old(self)@.wf(),
            final(self).queries@.len() == 0,
            final(self).subscribers == old(self).subscribers,
    {
        proof {
            use_type_invariant(&*self);
        }
        let mut queries: Vec<Query<TData>> = Vec::new();
        std::mem::swap(&mut queries, &mut self.queries);
        queries
    }

    /// Hands out the listeners and leaves none behind.
    fn take_subscribers(&mut self) -> (subscribers: Vec<CallbackId>)
        ensures
            subscribers@ == old(self)@.subscribers,
            old(self)@.wf(),
            final(self).subscribers@.len() == 0,
            final(self).queries == old(self).queries,
    {
        proof {
            use_type_invariant(&*self);
        }
        let mut subscribers: Vec<CallbackId> = Vec::new();
        std::mem::swap(&mut subscribers, &mut self.subscribers);
        subscribers
    }
}

} // verus!
