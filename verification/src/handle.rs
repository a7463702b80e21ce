//! Identities of the closures that the cache refers to but never calls.

use vstd::prelude::*;

verus! {

/// Names an asynchronous fetch function held by the driver of the cache.
///
/// Two handles denote the same function exactly when their identities are
/// equal, so entries and observers can share one function by copying its
/// handle.
#[derive(Clone, Copy, PartialEq, Eq, Structural, Debug, Hash)]
pub struct FnPtr {
    pub id: u64,
}

/// Names a change callback held by the driver of the cache.
#[derive(Clone, Copy, PartialEq, Eq, Structural, Debug, Hash)]
pub struct CallbackId {
    pub id: u64,
}

impl FnPtr {
    /// The handle with the given identity.
    pub fn new(id: u64) -> (handle: Self)
        ensures
            handle.id == id,
    {
        FnPtr { id }
    }
}

impl CallbackId {
    /// The callback name with the given identity.
    pub fn new(id: u64) -> (callback: Self)
        ensures
            callback.id == id,
    {
        CallbackId { id }
    }
}

} // verus!
