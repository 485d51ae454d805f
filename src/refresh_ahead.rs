use std::sync::Arc;
use vstd::prelude::*;
use vstd::rwlock::{RwLock, RwLockPredicate};

verus! {

/// The lock predicate of a shared value that any value may replace.
pub struct AnyValue;

impl<T> RwLockPredicate<T> for AnyValue {
    open spec fn inv(self, v: T) -> bool {
        true
    }
}

/// A value shared between owners and replaced in the background at a fixed interval.
/// Copies of the handle share one value behind one lock; the value itself is never copied
/// into a second, independent state.
pub struct RefreshAhead<T> {
    data: Arc<RwLock<T, AnyValue>>,
    interval_ms: u64,
}

impl<T: Clone> RefreshAhead<T> {
    /// A handle holding `data`, to be replaced every `interval_ms` milliseconds.
    pub fn new(data: T, interval_ms: u64) -> (r: RefreshAhead<T>)
        ensures
            r.interval_ms() == interval_ms,
    {
        RefreshAhead { data: Arc::new(RwLock::new(data, Ghost(AnyValue))), interval_ms }
    }

    pub closed spec fn interval_ms(&self) -> u64 {
        self.interval_ms
    }

    /// The interval between two replacements, in milliseconds.
    pub fn interval(&self) -> (r: u64)
        ensures
            r == self.interval_ms(),
    {
        self.interval_ms
    }

    /// A copy of the value held now, taken under the read lock.
    pub fn get(&self) -> T {
        let handle = self.data.acquire_read();
        let value = handle.borrow().clone();
        handle.release_read();
        value
    }

    /// Replaces the value held, under the write lock; readers see the old value or the new
    /// one, never a mix.
    pub fn replace(&self, value: T) {
        let (_previous, handle) = self.data.acquire_write();
        handle.release_write(value);
    }
}

impl<T: Clone> Clone for RefreshAhead<T> {
    /// A second handle on the same value, not a copy of it.
    fn clone(&self) -> (r: RefreshAhead<T>)
        ensures
            r.interval_ms() == self.interval_ms(),
    {
        RefreshAhead { data: Arc::clone(&self.data), interval_ms: self.interval_ms }
    }
}

} // verus!
