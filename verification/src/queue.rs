//! A shared first-in-first-out message queue.
//!
//! One queue stands behind each inbound endpoint: publishers push into it,
//! the owning endpoint pops from it.  It is a standard double-ended queue
//! under a verified reader/writer lock; because the queue is shared between
//! threads, no single caller can pin its contents, so the contracts here
//! speak only of what one holder of the lock does.

use std::collections::VecDeque;
use vstd::prelude::*;
use vstd::rwlock::{RwLock, RwLockPredicate};

verus! {

/// A lock predicate that admits every value.
pub struct AnyContent;

impl<V> RwLockPredicate<V> for AnyContent {
    open spec fn inv(self, v: V) -> bool {
        true
    }
}

/// A shared FIFO of pending values.
pub struct MsgQueue<T> {
    q: RwLock<VecDeque<T>, AnyContent>,
}

impl<T> MsgQueue<T> {
    /// An empty queue.
    pub fn new() -> Self {
        MsgQueue { q: RwLock::new(VecDeque::new(), Ghost(AnyContent)) }
    }

    /// Append one value at the tail.
    pub fn push(&self, value: T) {
        let (mut d, handle) = self.q.acquire_write();
        d.push_back(value);
        handle.release_write(d);
    }

    /// Remove and return the head, if any.
    pub fn pop(&self) -> Option<T> {
        let (mut d, handle) = self.q.acquire_write();
        let r = d.pop_front();
        handle.release_write(d);
        r
    }

    /// Whether anything is queued at this instant.  Another thread may push
    /// or pop right after the answer is taken.
    pub fn has_pending(&self) -> bool {
        let handle = self.q.acquire_read();
        let r = handle.borrow().len() > 0;
        handle.release_read();
        r
    }
}

} // verus!
