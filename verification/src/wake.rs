//! The registry of selectors waiting on one event source.
//!
//! Every wake source — a subscription's queue, a service queue, a guard
//! condition — carries one registry.  A selector that registers the source
//! leaves its wake sender here under the registration's identity; whoever
//! makes the source ready sends each registered identity down its channel,
//! unblocking the parked selector.

use std::sync::mpsc::Sender;
use vstd::prelude::*;
use vstd::rwlock::RwLock;

use crate::queue::AnyContent;
use crate::runtime::{wake_send, wake_clone};

verus! {

/// One registered waiter: the identity a selector gave the source, and the
/// selector's wake sender.
pub struct WakerEntry {
    /// The registration's identity inside its selector.
    pub id: u64,
    /// The sending half of that selector's wake channel.
    pub tx: Sender<u64>,
}

/// The shared set of waiters on one source.
pub struct WakerRegistry {
    inner: RwLock<Vec<WakerEntry>, AnyContent>,
}

impl WakerRegistry {
    /// An empty registry.
    pub fn new() -> Self {
        WakerRegistry { inner: RwLock::new(Vec::new(), Ghost(AnyContent)) }
    }

    /// Leave a wake sender under the given identity.
    pub fn add(&self, id: u64, tx: &Sender<u64>) {
        let (mut v, handle) = self.inner.acquire_write();
        v.push(WakerEntry { id, tx: wake_clone(tx) });
        handle.release_write(v);
    }

    /// Drop every waiter registered under the given identity.
    pub fn remove(&self, id: u64) {
        let (v, handle) = self.inner.acquire_write();
        let mut kept: Vec<WakerEntry> = Vec::new();
        let mut rest = v;
        while rest.len() > 0
            decreases rest@.len(),
        {
            let e = rest.remove(0);
            if e.id != id {
                kept.push(e);
            }
        }
        handle.release_write(kept);
    }

    /// Send every registered waiter its identity.
    pub fn wake_all(&self) {
        let handle = self.inner.acquire_read();
        let v = handle.borrow();
        let n = v.len();
        let mut i: usize = 0;
        while i < n
            invariant
                i <= n,
                n == v@.len(),
            decreases n - i,
        {
            wake_send(&v[i].tx, v[i].id);
            i = i + 1;
        }
        handle.release_read();
    }
}

} // verus!
