//! What holds of every cache that operations can reach.

use crate::client::ClientView;
use crate::handle::{CallbackId, FnPtr};
use crate::laws::entry::timer_only_unobserved;
use crate::query::{QueryView, Subscription};
use crate::state::QueryResult;
use vstd::prelude::*;

verus! {

/// One operation on a cache.
pub enum Operation<TData> {
    GetQuery { key: Seq<char>, query_fn: FnPtr, cache_time: i32 },
    Subscribe { callback: CallbackId },
    Unsubscribe { callback: CallbackId },
    Attach { key: Seq<char>, subscription: Subscription },
    Detach { key: Seq<char>, callback: CallbackId },
    FetchIfStale { key: Seq<char>, stale_time: i64, now: i64 },
    Invalidate { key: Seq<char> },
    Complete { key: Seq<char>, result: QueryResult<TData>, now: i64 },
    CleanupDue { key: Seq<char>, timer: u64 },
    RefetchStale { now: i64 },
}

/// The cache after one operation.
pub open spec fn apply<TData>(
    client: ClientView<TData>,
    operation: Operation<TData>,
) -> ClientView<TData> {
    match operation {
        Operation::GetQuery { key, query_fn, cache_time } => client.get_query(
            key,
            query_fn,
            cache_time,
        ),
        Operation::Subscribe { callback } => client.subscribe(callback),
        Operation::Unsubscribe { callback } => client.unsubscribe(callback),
        Operation::Attach { key, subscription } => client.attach(key, subscription),
        Operation::Detach { key, callback } => client.detach(key, callback),
        Operation::FetchIfStale { key, stale_time, now } => client.fetch_if_stale(
            key,
            stale_time,
            now,
        ),
        Operation::Invalidate { key } => client.invalidate(key),
        Operation::Complete { key, result, now } => client.complete(key, result, now),
        Operation::CleanupDue { key, timer } => client.cleanup_due(key, timer),
        Operation::RefetchStale { now } => client.refetch_stale(now),
    }
}

/// The cache after the operations, one after the other.
pub open spec fn apply_each<TData>(
    client: ClientView<TData>,
    operations: Seq<Operation<TData>>,
) -> ClientView<TData>
    decreases operations.len(),
{
    if operations.len() == 0 {
        client
    } else {
        apply(apply_each(client, operations.drop_last()), operations.last())
    }
}

/// Whether the cache is well formed and each of its entries has a timer
/// pending only while nobody observes it, and a status other than `Loading`.
pub open spec fn sound<TData>(client: ClientView<TData>) -> bool {
    &&& client.wf()
    &&& forall|i: int|
        0 <= i < client.queries.len() ==> timer_only_unobserved(#[trigger] client.queries[i])
            && !(client.queries[i].state.status is Loading)
}

/// Replacing the entry for a key by a sound entry with the same key keeps
/// the cache sound.
proof fn lemma_with_entry_sound<TData>(
    client: ClientView<TData>,
    key: Seq<char>,
    entry: QueryView<TData>,
)
    requires
        sound(client),
        client.contains_key(key),
        entry.query_key == key,
        timer_only_unobserved(entry),
        !(entry.state.status is Loading),
    ensures
        sound(client.with_entry(key, entry)),
{
    client.lemma_with_entry(key, entry);
    let p = client.position(key);
    assert(client.holds(p, key));
    let after = client.with_entry(key, entry);
    assert forall|i: int| 0 <= i < after.queries.len() implies timer_only_unobserved(
        #[trigger] after.queries[i],
    ) && !(after.queries[i].state.status is Loading) by {
        if i != p {
            assert(after.queries[i] == client.queries[i]);
        }
    }
}

/// Every operation keeps the cache sound.
pub proof fn law_operations_keep_the_cache_sound<TData>(
    client: ClientView<TData>,
    operation: Operation<TData>,
)
    requires
        sound(client),
    ensures
        sound(apply(client, operation)),
{
    let after = apply(client, operation);
    match operation {
        Operation::GetQuery { key, query_fn, cache_time } => {
            client.lemma_get_query(key, query_fn, cache_time);
            if !client.contains_key(key) {
                assert forall|i: int| 0 <= i < after.queries.len() implies timer_only_unobserved(
                    #[trigger] after.queries[i],
                ) && !(after.queries[i].state.status is Loading) by {
                    if i < client.queries.len() {
                        assert(after.queries[i] == client.queries[i]);
                    }
                }
            }
        },
        Operation::Subscribe { callback } => {},
        Operation::Unsubscribe { callback } => {},
        Operation::Attach { key, subscription } => {
            if client.contains_key(key) {
                let p = client.position(key);
                assert(client.holds(p, key));
                lemma_with_entry_sound(client, key, client.entry(key).subscribe(subscription));
            }
        },
        Operation::Detach { key, callback } => {
            if client.contains_key(key) {
                let p = client.position(key);
                assert(client.holds(p, key));
                lemma_with_entry_sound(client, key, client.entry(key).unsubscribe(callback));
            }
        },
        Operation::FetchIfStale { key, stale_time, now } => {
            if client.contains_key(key) {
                let p = client.position(key);
                assert(client.holds(p, key));
                lemma_with_entry_sound(
                    client,
                    key,
                    client.entry(key).fetch_if_stale(stale_time, now),
                );
            }
        },
        Operation::Invalidate { key } => {
            if client.contains_key(key) {
                let p = client.position(key);
                assert(client.holds(p, key));
                lemma_with_entry_sound(client, key, client.entry(key).fetch());
            }
        },
        Operation::Complete { key, result, now } => {
            if client.contains_key(key) {
                let p = client.position(key);
                assert(client.holds(p, key));
                lemma_with_entry_sound(client, key, client.entry(key).complete(result, now));
            }
        },
        Operation::CleanupDue { key, timer } => {
            if client.evicts(key, timer) {
                client.lemma_without_entry(key);
                let p = client.position(key);
                assert(client.holds(p, key));
                assert forall|i: int| 0 <= i < after.queries.len() implies timer_only_unobserved(
                    #[trigger] after.queries[i],
                ) && !(after.queries[i].state.status is Loading) by {
                    let i0 = if i < p { i } else { i + 1 };
                    assert(after.queries[i] == client.queries[i0]);
                }
            }
        },
        Operation::RefetchStale { now } => {
            assert forall|i: int, j: int| 0 <= i < j < after.queries.len() implies after.queries[i].query_key
                != after.queries[j].query_key by {
                assert(after.queries[i].query_key == client.queries[i].query_key);
                assert(after.queries[j].query_key == client.queries[j].query_key);
            }
            assert forall|i: int| 0 <= i < after.queries.len() implies timer_only_unobserved(
                #[trigger] after.queries[i],
            ) && !(after.queries[i].state.status is Loading) by {
                assert(after.queries[i] == client.queries[i].revalidate(now));
            }
        },
    }
}

/// Every cache that operations reach from the empty cache is sound: its
/// keys are distinct, a timer is pending only on an entry that nobody
/// observes, and no entry has the status `Loading`.
pub proof fn law_every_reachable_cache_is_sound<TData>(operations: Seq<Operation<TData>>)
    ensures
        sound(apply_each(ClientView::<TData>::empty(), operations)),
    decreases operations.len(),
{
    if operations.len() > 0 {
        law_every_reachable_cache_is_sound(operations.drop_last());
        law_operations_keep_the_cache_sound(
            apply_each(ClientView::<TData>::empty(), operations.drop_last()),
            operations.last(),
        );
    }
}

} // verus!
