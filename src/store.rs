use vstd::prelude::*;
use vstd::rwlock::{RwLock, RwLockPredicate};
use std::sync::Arc;
use crate::state::ControllerState;

verus! {

/// The byte that asks the source for a fresh collection of readings.
pub const REQUEST_BYTE: u8 = 49;

/// The byte that ends each message of readings.
pub const MESSAGE_END: u8 = 93;

/// The lock admits any collection of readings.
pub struct AnyReadings;

impl<V> RwLockPredicate<V> for AnyReadings {
    open spec fn inv(self, v: V) -> bool {
        true
    }
}

/// The latest complete collection of controller readings, written by the
/// reading side and read by the drawing side. A collection is replaced
/// whole by swapping one shared handle, so a reader holds either the
/// collection from before a write or the one from after it.
pub struct ControllerStore<S> {
    lock: RwLock<Arc<Vec<ControllerState<S>>>, AnyReadings>,
}

impl<S> ControllerStore<S> {
    /// A store that holds no readings yet.
    pub fn new() -> (r: Self) {
        let empty: Vec<ControllerState<S>> = Vec::new();
        ControllerStore { lock: RwLock::new(Arc::new(empty), Ghost(AnyReadings)) }
    }

    /// Replaces the whole collection of readings.
    pub fn publish(&self, states: Vec<ControllerState<S>>) {
        let fresh = Arc::new(states);
        let (_previous, handle) = self.lock.acquire_write();
        handle.release_write(fresh);
    }

    /// Publishes a freshly decoded collection, or keeps the current one when
    /// decoding failed. Returns whether the collection was replaced.
    pub fn update<E>(&self, decoded: Result<Vec<ControllerState<S>>, E>) -> (r: bool)
        ensures
            r == decoded is Ok,
    {
        match decoded {
            Ok(states) => {
                self.publish(states);
                true
            },
            Err(_) => false,
        }
    }

    /// The collection that was published last (empty before any).
    pub fn latest(&self) -> Arc<Vec<ControllerState<S>>> {
        let handle = self.lock.acquire_read();
        let current = Arc::clone(handle.borrow());
        handle.release_read();
        current
    }
}

} // verus!
