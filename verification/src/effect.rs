//! The work that the cache asks of its driver.

use crate::handle::{CallbackId, FnPtr};
use vstd::prelude::*;

verus! {

/// One piece of work for the driver. Every operation of the cache returns
/// the effects it calls for, in the order in which they are to be carried
/// out.
#[derive(PartialEq, Eq, Debug)]
pub enum Effect {
    /// Invoke the callback.
    Notify(CallbackId),
    /// Run the fetch function `query_fn` for the entry under `query_key`,
    /// and hand its result to `QueryClient::complete` when it ends.
    Fetch { query_key: String, query_fn: FnPtr },
    /// Arm the eviction timer `timer` of the entry under `query_key`, and
    /// call `QueryClient::cleanup_due` with both when it fires, `delay`
    /// milliseconds from now.
    Schedule { query_key: String, timer: u64, delay: i32 },
    /// Cancel the eviction timer `timer` of the entry under `query_key`.
    Unschedule { query_key: String, timer: u64 },
}

/// An effect with its key as a sequence of characters.
pub enum EffectView {
    Notify(CallbackId),
    Fetch { query_key: Seq<char>, query_fn: FnPtr },
    Schedule { query_key: Seq<char>, timer: u64, delay: i32 },
    Unschedule { query_key: Seq<char>, timer: u64 },
}

impl DeepView for Effect {
    type V = EffectView;

    open spec fn deep_view(&self) -> EffectView {
        match *self {
            Effect::Notify(callback) => EffectView::Notify(callback),
            Effect::Fetch { query_key, query_fn } => EffectView::Fetch {
                query_key: query_key@,
                query_fn,
            },
            Effect::Schedule { query_key, timer, delay } => EffectView::Schedule {
                query_key: query_key@,
                timer,
                delay,
            },
            Effect::Unschedule { query_key, timer } => EffectView::Unschedule {
                query_key: query_key@,
                timer,
            },
        }
    }
}

impl Clone for Effect {
    /// An effect equal to this one.
    fn clone(&self) -> (copy: Self)
        ensures
            copy == *self,
    {
        match self {
            Effect::Notify(callback) => Effect::Notify(*callback),
            Effect::Fetch { query_key, query_fn } => Effect::Fetch {
                query_key: query_key.clone(),
                query_fn: *query_fn,
            },
            Effect::Schedule { query_key, timer, delay } => Effect::Schedule {
                query_key: query_key.clone(),
                timer: *timer,
                delay: *delay,
            },
            Effect::Unschedule { query_key, timer } => Effect::Unschedule {
                query_key: query_key.clone(),
                timer: *timer,
            },
        }
    }
}

/// One notification for each callback, in the order of the callbacks.
pub open spec fn notify_each(callbacks: Seq<CallbackId>) -> Seq<EffectView> {
    callbacks.map_values(|callback: CallbackId| EffectView::Notify(callback))
}

/// Appends one notification for each callback, in order.
pub(crate) fn push_notifications(effects: &mut Vec<Effect>, callbacks: &Vec<CallbackId>)
    ensures
        final(effects).deep_view() == old(effects).deep_view() + notify_each(callbacks@),
{
    let mut i: usize = 0;
    while i < callbacks.len()
        invariant
            i <= callbacks.len(),
            effects.deep_view() == old(effects).deep_view() + notify_each(callbacks@.take(i as int)),
        decreases callbacks.len() - i,
    {
        let ghost before = effects.deep_view();
        effects.push(Effect::Notify(callbacks[i]));
        proof {
            assert(effects.deep_view() == before.push(EffectView::Notify(callbacks@[i as int])));
            assert(callbacks@.take(i + 1) == callbacks@.take(i as int).push(callbacks@[i as int]));
        }
        i += 1;
    }
    assert(callbacks@.take(i as int) == callbacks@);
}

} // verus!
