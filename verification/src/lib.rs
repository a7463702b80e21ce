//! A keyed query cache.
//!
//! An entry holds the latest result of an asynchronous fetch for one key.
//! Observers subscribe to an entry by key, refetch what has gone stale for
//! them, and are notified of every change; an entry that nobody observes is
//! evicted once its retention has passed.
//!
//! The cache decides and its driver acts. The cache never calls a closure,
//! awaits a future or sets a timer: every operation returns the effects that
//! it calls for, in order, and the driver carries them out and reports back
//! what happened (the end of a request through `complete`, the firing of a
//! timer through `cleanup_due`). Callbacks and fetch functions are known to
//! the cache by identity only.
//!
//! Every operation is specified over the mathematical content of the cache
//! (`ClientView`, `QueryView`), and the module `laws` proves what holds
//! across operations.

pub mod client;
pub mod clock;
pub mod devtools;
pub mod effect;
pub mod handle;
pub mod laws;
pub mod options;
pub mod query;
pub mod state;
pub mod subscriber;
pub mod text;

pub use client::QueryClient;
pub use clock::{is_stale, now};
pub use devtools::{label, QueryLabel};
pub use effect::Effect;
pub use handle::{CallbackId, FnPtr};
pub use options::{QueryOptions, UseQueryOptions};
pub use query::{create_query, Query, Subscription};
pub use state::{QueryResult, QueryState, QueryStatus};
pub use subscriber::{create_query_observer, Subscriber};
pub use text::same_text;
