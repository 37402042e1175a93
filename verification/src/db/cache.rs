use crate::green::new_node_cache;
use std::sync::{Arc, Mutex, MutexGuard};
use vstd::prelude::*;

verus! {

/// std's lock around a value.
#[verifier::external_type_specification]
#[verifier::external_body]
#[verifier::reject_recursive_types(T)]
pub struct ExMutex<T: ?Sized>(Mutex<T>);

/// std's proof that a lock is held, through which the value is reached.
#[verifier::external_type_specification]
#[verifier::external_body]
#[verifier::reject_recursive_types(T)]
pub struct ExMutexGuard<'a, T: ?Sized + 'a>(MutexGuard<'a, T>);

/// The store of shared tree storage, behind a lock.
pub struct CacheInner {
    node: Mutex<rowan::NodeCache>,
}

/// A handle on the store of shared tree storage. Its copies are handles
/// on the same store.
pub struct Cache {
    inner: Arc<CacheInner>,
}

/// The lock that a guard holds.
pub uninterp spec fn guard_lock(guard: MutexGuard<rowan::NodeCache>) -> Mutex<rowan::NodeCache>;

/// `Mutex::new`: a lock that guards the given store.
#[verifier::external_body]
fn new_lock(store: rowan::NodeCache) -> Mutex<rowan::NodeCache> {
    Mutex::new(store)
}

/// `Arc::clone`: another handle on the same value.
#[verifier::external_body]
fn share_inner(inner: &Arc<CacheInner>) -> (copy: Arc<CacheInner>)
    ensures
        copy == *inner,
{
    Arc::clone(inner)
}

/// `Mutex::lock`: waits for the lock and takes it; the guard that comes
/// back holds that lock. Where a thread died while it held the lock, the
/// store is taken all the same.
#[verifier::external_body]
fn lock_inner<'a>(inner: &'a CacheInner) -> (guard: MutexGuard<'a, rowan::NodeCache>)
    ensures
        guard_lock(guard) == inner.node,
{
    match inner.node.lock() {
        Ok(guard) => guard,
        Err(poisoned) => poisoned.into_inner(),
    }
}

/// `MutexGuard::deref_mut`: the store that the lock guards.
#[verifier::external_body]
pub(crate) fn guarded<'a, 'b>(
    guard: &'a mut MutexGuard<'b, rowan::NodeCache>,
) -> &'a mut rowan::NodeCache {
    &mut *guard
}

impl Cache {
    /// The lock of the store that the handle is a handle on. Two handles
    /// are handles on one store where their locks are the same.
    pub closed spec fn lock(&self) -> Mutex<rowan::NodeCache> {
        self.inner.node
    }

    /// A handle on a new store, which holds nothing yet.
    pub fn new() -> Cache {
        Cache { inner: Arc::new(CacheInner { node: new_lock(new_node_cache()) }) }
    }

    /// Takes the lock on the store. The store is free again when the
    /// guard is dropped.
    pub fn node(&self) -> (guard: MutexGuard<'_, rowan::NodeCache>)
        ensures
            guard_lock(guard) == self.lock(),
    {
        lock_inner(&self.inner)
    }
}

impl Clone for Cache {
    /// Another handle on the same store.
    fn clone(&self) -> (copy: Cache)
        ensures
            copy == *self,
    {
        Cache { inner: share_inner(&self.inner) }
    }
}

} // verus!
