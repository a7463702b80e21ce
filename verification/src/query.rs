//! One entry of the cache: the state of a resource, the observers attached
//! to it, and the timer that evicts it once nobody observes it.

use crate::clock::{is_stale, spec_is_stale};
use crate::effect::{notify_each, push_notifications, Effect, EffectView};
use crate::handle::{CallbackId, FnPtr};
use crate::options::QueryOptions;
use crate::state::{QueryResult, QueryState, QueryStatus};
use vstd::prelude::*;

verus! {

/// One observer attached to an entry: the policy it was created with and the
/// callback to invoke when the entry changes.
#[derive(Clone, Copy, PartialEq, Eq, Structural, Debug)]
pub struct Subscription {
    pub stale_time: i64,
    pub cache_time: i32,
    pub callback: CallbackId,
}

/// One entry of the cache.
#[derive(PartialEq, Debug)]
pub struct Query<TData> {
    /// What observers see.
    pub state: QueryState<TData>,
    /// The function that fetches the resource.
    pub query_fn: FnPtr,
    /// The attached observers, in the order in which they subscribed.
    pub subscribers: Vec<Subscription>,
    /// The key under which the cache holds this entry.
    pub query_key: String,
    /// Milliseconds that the entry outlives its last observer.
    pub cache_time: i32,
    /// The eviction timer that is pending, if any.
    pub timeout: Option<u64>,
    /// The name that the next eviction timer of this entry will get.
    pub next_timer: u64,
}

/// The mathematical content of an entry.
pub struct QueryView<TData> {
    pub state: QueryState<TData>,
    pub query_fn: FnPtr,
    pub subscribers: Seq<Subscription>,
    pub query_key: Seq<char>,
    pub cache_time: i32,
    pub timeout: Option<u64>,
    pub next_timer: u64,
}

impl<TData> View for Query<TData> {
    type V = QueryView<TData>;

    open spec fn view(&self) -> QueryView<TData> {
        QueryView {
            state: self.state,
            query_fn: self.query_fn,
            subscribers: self.subscribers@,
            query_key: self.query_key@,
            cache_time: self.cache_time,
            timeout: self.timeout,
            next_timer: self.next_timer,
        }
    }
}

/// The test that an observer passes unless it notifies `callback`.
pub open spec fn notifies_other(callback: CallbackId) -> spec_fn(Subscription) -> bool {
    |subscription: Subscription| subscription.callback != callback
}

/// The timer name that follows `timer`; names start over after the last one.
pub open spec fn timer_after(timer: u64) -> u64 {
    if timer == u64::MAX {
        0
    } else {
        (timer + 1) as u64
    }
}

impl<TData> QueryView<TData> {
    /// A fresh entry: nothing fetched, nobody attached, no timer pending.
    pub open spec fn create(query_key: Seq<char>, query_fn: FnPtr, cache_time: i32) -> Self {
        QueryView {
            state: QueryState::initial(),
            query_fn,
            subscribers: Seq::empty(),
            query_key,
            cache_time,
            timeout: None,
            next_timer: 0,
        }
    }

    /// The callbacks of the attached observers, in subscription order.
    pub open spec fn callbacks(self) -> Seq<CallbackId> {
        self.subscribers.map_values(|subscription: Subscription| subscription.callback)
    }

    /// The notifications that a change of this entry calls for: its
    /// observers in subscription order, then the listeners of the cache.
    pub open spec fn notifications(self, listeners: Seq<CallbackId>) -> Seq<EffectView> {
        notify_each(self.callbacks()) + notify_each(listeners)
    }

    /// The request to run this entry's fetch function.
    pub open spec fn request(self) -> EffectView {
        EffectView::Fetch { query_key: self.query_key, query_fn: self.query_fn }
    }

    /// The entry after a fetch was asked for: a request goes out unless one
    /// is in flight already.
    pub open spec fn fetch(self) -> Self {
        QueryView { state: self.state.started(), ..self }
    }

    /// What a fetch calls for: nothing while a request is in flight, else
    /// the notifications of the change followed by the request.
    pub open spec fn fetch_effects(self, listeners: Seq<CallbackId>) -> Seq<EffectView> {
        if self.state.is_fetching {
            Seq::empty()
        } else {
            self.notifications(listeners).push(self.request())
        }
    }

    /// The entry after its request ended with `result` at time `now`. A
    /// result that no request in flight accounts for changes nothing.
    pub open spec fn complete(self, result: QueryResult<TData>, now: i64) -> Self {
        if self.state.is_fetching {
            QueryView { state: self.state.completed(result, now), ..self }
        } else {
            self
        }
    }

    /// What the end of a request calls for: the notifications of the
    /// change, or nothing where no request was in flight.
    pub open spec fn complete_effects(self, listeners: Seq<CallbackId>) -> Seq<EffectView> {
        if self.state.is_fetching {
            self.notifications(listeners)
        } else {
            Seq::empty()
        }
    }

    /// The entry with no eviction timer pending.
    pub open spec fn unschedule(self) -> Self {
        QueryView { timeout: None, ..self }
    }

    /// The cancellation of the pending eviction timer, if there is one.
    pub open spec fn unschedule_effects(self) -> Seq<EffectView> {
        match self.timeout {
            Some(timer) => seq![EffectView::Unschedule { query_key: self.query_key, timer }],
            None => Seq::empty(),
        }
    }

    /// The entry with a newly named eviction timer pending.
    pub open spec fn schedule(self) -> Self {
        QueryView {
            timeout: Some(self.next_timer),
            next_timer: timer_after(self.next_timer),
            ..self
        }
    }

    /// What arming calls for: the cancellation of the timer that the new one
    /// supersedes, then the new timer, set to the entry's retention.
    pub open spec fn schedule_effects(self) -> Seq<EffectView> {
        self.unschedule_effects().push(
            EffectView::Schedule {
                query_key: self.query_key,
                timer: self.next_timer,
                delay: self.cache_time,
            },
        )
    }

    /// The entry with one more observer attached, which cancels a pending
    /// eviction.
    pub open spec fn subscribe(self, subscription: Subscription) -> Self {
        QueryView { subscribers: self.subscribers.push(subscription), timeout: None, ..self }
    }

    /// What attaching an observer calls for.
    pub open spec fn subscribe_effects(self) -> Seq<EffectView> {
        self.unschedule_effects()
    }

    /// The observers that stay when `callback` unsubscribes: all but those
    /// that notify `callback`.
    pub open spec fn remaining(self, callback: CallbackId) -> Seq<Subscription> {
        self.subscribers.filter(notifies_other(callback))
    }

    /// The entry after `callback` unsubscribed. Eviction is armed when
    /// nobody stays.
    pub open spec fn unsubscribe(self, callback: CallbackId) -> Self {
        let kept = QueryView { subscribers: self.remaining(callback), ..self };
        if kept.subscribers.len() == 0 {
            kept.schedule()
        } else {
            kept
        }
    }

    /// What unsubscribing `callback` calls for.
    pub open spec fn unsubscribe_effects(self, callback: CallbackId) -> Seq<EffectView> {
        if self.remaining(callback).len() == 0 {
            self.schedule_effects()
        } else {
            Seq::empty()
        }
    }

    /// Whether an observer with threshold `stale_time` finds this entry
    /// stale at time `now`.
    pub open spec fn stale_for(self, stale_time: i64, now: i64) -> bool {
        spec_is_stale(self.state.last_updated, now, stale_time)
    }

    /// The entry after an observer with threshold `stale_time` looked at it
    /// at time `now`.
    pub open spec fn fetch_if_stale(self, stale_time: i64, now: i64) -> Self {
        if self.stale_for(stale_time, now) {
            self.fetch()
        } else {
            self
        }
    }

    /// What that look calls for.
    pub open spec fn fetch_if_stale_effects(
        self,
        stale_time: i64,
        now: i64,
        listeners: Seq<CallbackId>,
    ) -> Seq<EffectView> {
        if self.stale_for(stale_time, now) {
            self.fetch_effects(listeners)
        } else {
            Seq::empty()
        }
    }

    /// Whether some attached observer finds this entry stale at time `now`.
    pub open spec fn stale_for_some(self, now: i64) -> bool {
        exists|i: int|
            0 <= i < self.subscribers.len() && self.stale_for(
                #[trigger] self.subscribers[i].stale_time,
                now,
            )
    }

    /// The entry after every attached observer looked at it at time `now`.
    pub open spec fn revalidate(self, now: i64) -> Self {
        if self.stale_for_some(now) {
            self.fetch()
        } else {
            self
        }
    }

    /// What those looks call for.
    pub open spec fn revalidate_effects(self, now: i64, listeners: Seq<CallbackId>) -> Seq<
        EffectView,
    > {
        if self.stale_for_some(now) {
            self.fetch_effects(listeners)
        } else {
            Seq::empty()
        }
    }

    /// Whether the firing of `timer` evicts this entry: it is the timer that
    /// is pending, and nobody is attached.
    pub open spec fn expires_with(self, timer: u64) -> bool {
        self.timeout == Some(timer) && self.subscribers.len() == 0
    }
}

/// Builds the entry that a first request for a key creates.
pub fn create_query<TData>(options: &QueryOptions) -> (query: Query<TData>)
    ensures
        query@ == QueryView::<TData>::create(
            options.query_key@,
            options.query_fn,
            options.cache_time,
        ),
{
    Query {
        state: QueryState::new(),
        query_fn: options.query_fn,
        subscribers: Vec::new(),
        query_key: options.query_key.clone(),
        cache_time: options.cache_time,
        timeout: None,
        next_timer: 0,
    }
}

impl<TData> Query<TData> {
    /// The notifications that a change of this entry calls for.
    fn notify(&self, listeners: &Vec<CallbackId>) -> (effects: Vec<Effect>)
        ensures
            effects.deep_view() == self@.notifications(listeners@),
    {
        let mut effects: Vec<Effect> = Vec::new();
        let mut i: usize = 0;
        while i < self.subscribers.len()
            invariant
                i <= self.subscribers.len(),
                effects.deep_view() == notify_each(self@.callbacks().take(i as int)),
            decreases self.subscribers.len() - i,
        {
            let ghost before = effects.deep_view();
            effects.push(Effect::Notify(self.subscribers[i].callback));
            proof {
                assert(effects.deep_view() == before.push(
                    EffectView::Notify(self@.callbacks()[i as int]),
                ));
                assert(self@.callbacks().take(i + 1) == self@.callbacks().take(i as int).push(
                    self@.callbacks()[i as int],
                ));
            }
            i += 1;
        }
        assert(self@.callbacks().take(i as int) == self@.callbacks());
        push_notifications(&mut effects, listeners);
        effects
    }

    /// Asks for a fetch. Unless a request is in flight already, the entry
    /// turns to fetching, and the effects notify its observers and the
    /// cache's listeners and then request the fetch.
    pub fn fetch(&mut self, listeners: &Vec<CallbackId>) -> (effects: Vec<Effect>)
        ensures
            final(self)@ == old(self)@.fetch(),
            effects.deep_view() == old(self)@.fetch_effects(listeners@),
    {
        if self.state.is_fetching {
            return Vec::new();
        }
        self.state.is_fetching = true;
        let mut effects = self.notify(listeners);
        let ghost before = effects.deep_view();
        effects.push(Effect::Fetch { query_key: self.query_key.clone(), query_fn: self.query_fn });
        assert(effects.deep_view() == before.push(self@.request()));
        effects
    }

    /// Records the end of the request in flight, which returned `result` at
    /// time `now`: data becomes the status and stamps the entry, a failure
    /// becomes the status and leaves the stamp alone. The effects notify the
    /// observers and the cache's listeners. A result that no request in
    /// flight accounts for is dropped.
    pub fn complete(
        &mut self,
        result: QueryResult<TData>,
        now: i64,
        listeners: &Vec<CallbackId>,
    ) -> (effects: Vec<Effect>)
        ensures
            final(self)@ == old(self)@.complete(result, now),
            effects.deep_view() == old(self)@.complete_effects(listeners@),
    {
        if !self.state.is_fetching {
            return Vec::new();
        }
        match result {
            Ok(data) => {
                self.state.status = QueryStatus::Success(data);
                self.state.last_updated = Some(now);
            },
            Err(message) => {
                self.state.status = QueryStatus::Error(message);
            },
        }
        self.state.is_fetching = false;
        self.notify(listeners)
    }

    /// Drops the pending eviction timer, if there is one, and asks for its
    /// cancellation.
    fn unschedule_query_cleanup(&mut self) -> (effects: Vec<Effect>)
        ensures
            final(self)@ == old(self)@.unschedule(),
            effects.deep_view() == old(self)@.unschedule_effects(),
    {
        let mut effects: Vec<Effect> = Vec::new();
        if let Some(timer) = self.timeout {
            effects.push(Effect::Unschedule { query_key: self.query_key.clone(), timer });
            self.timeout = None;
        }
        assert(effects.deep_view() =~= old(self)@.unschedule_effects());
        effects
    }

    /// Arms a newly named eviction timer for the entry's retention. A timer
    /// that was pending is superseded and cancelled.
    fn schedule_query_cleanup(&mut self) -> (effects: Vec<Effect>)
        ensures
            final(self)@ == old(self)@.schedule(),
            effects.deep_view() == old(self)@.schedule_effects(),
    {
        let mut effects = self.unschedule_query_cleanup();
        let timer = self.next_timer;
        let ghost before = effects.deep_view();
        effects.push(
            Effect::Schedule { query_key: self.query_key.clone(), timer, delay: self.cache_time },
        );
        assert(effects.deep_view() == before.push(
            EffectView::Schedule {
                query_key: self.query_key@,
                timer,
                delay: self.cache_time,
            },
        ));
        self.timeout = Some(timer);
        self.next_timer = if timer == u64::MAX {
            0
        } else {
            timer + 1
        };
        effects
    }

    /// Attaches an observer behind those already attached, and cancels a
    /// pending eviction.
    pub fn subscribe(&mut self, subscription: Subscription) -> (effects: Vec<Effect>)
        ensures
            final(self)@ == old(self)@.subscribe(subscription),
            effects.deep_view() == old(self)@.subscribe_effects(),
    {
        self.subscribers.push(subscription);
        self.unschedule_query_cleanup()
    }

    /// Detaches every observer that notifies `callback`. When nobody stays
    /// attached, eviction is armed.
    pub fn unsubscribe(&mut self, callback: CallbackId) -> (effects: Vec<Effect>)
        ensures
            final(self)@ == old(self)@.unsubscribe(callback),
            effects.deep_view() == old(self)@.unsubscribe_effects(callback),
    {
        let ghost keep = notifies_other(callback);
        let mut kept: Vec<Subscription> = Vec::new();
        let mut i: usize = 0;
        while i < self.subscribers.len()
            invariant
                i <= self.subscribers.len(),
                self.subscribers == old(self).subscribers,
                keep == notifies_other(callback),
                kept@ == self.subscribers@.take(i as int).filter(keep),
            decreases self.subscribers.len() - i,
        {
            let subscription = self.subscribers[i];
            proof {
                let longer = self.subscribers@.take(i + 1);
                assert(longer.drop_last() == self.subscribers@.take(i as int));
                assert(longer.last() == subscription);
                reveal(Seq::filter);
            }
            if subscription.callback != callback {
                kept.push(subscription);
            }
            i += 1;
        }
        assert(self.subscribers@.take(i as int) == self.subscribers@);
        self.subscribers = kept;
        if self.subscribers.len() == 0 {
            self.schedule_query_cleanup()
        } else {
            Vec::new()
        }
    }

    /// Asks for a fetch on behalf of an observer with threshold
    /// `stale_time`, if the entry is stale for it at time `now`: never
    /// updated, or updated more than `stale_time` milliseconds ago.
    pub fn fetch_if_stale(&mut self, stale_time: i64, now: i64, listeners: &Vec<CallbackId>) -> (effects:
        Vec<Effect>)
        ensures
            final(self)@ == old(self)@.fetch_if_stale(stale_time, now),
            effects.deep_view() == old(self)@.fetch_if_stale_effects(stale_time, now, listeners@),
    {
        if is_stale(self.state.last_updated, now, stale_time) {
            self.fetch(listeners)
        } else {
            Vec::new()
        }
    }

    /// Whether some attached observer finds the entry stale at time `now`.
    pub fn stale_for_some(&self, now: i64) -> (stale: bool)
        ensures
            stale == self@.stale_for_some(now),
    {
        let mut i: usize = 0;
        while i < self.subscribers.len()
            invariant
                i <= self.subscribers.len(),
                forall|j: int|
                    0 <= j < i ==> !self@.stale_for(
                        #[trigger] self@.subscribers[j].stale_time,
                        now,
                    ),
            decreases self.subscribers.len() - i,
        {
            if is_stale(self.state.last_updated, now, self.subscribers[i].stale_time) {
                assert(self@.stale_for(self@.subscribers[i as int].stale_time, now));
                return true;
            }
            i += 1;
        }
        false
    }

    /// Lets every attached observer look at the entry at time `now`, each
    /// under its own threshold; the first that finds it stale asks for the
    /// fetch, and the others join that request.
    pub fn revalidate(&mut self, now: i64, listeners: &Vec<CallbackId>) -> (effects: Vec<Effect>)
        ensures
            final(self)@ == old(self)@.revalidate(now),
            effects.deep_view() == old(self)@.revalidate_effects(now, listeners@),
    {
        if self.stale_for_some(now) {
            self.fetch(listeners)
        } else {
            Vec::new()
        }
    }

    /// Whether the firing of `timer` evicts the entry: `timer` is the timer
    /// that is pending, and nobody is attached.
    pub fn expires_with(&self, timer: u64) -> (due: bool)
        ensures
            due == self@.expires_with(timer),
    {
        match self.timeout {
            Some(pending) => pending == timer && self.subscribers.len() == 0,
            None => false,
        }
    }
}

} // verus!
