//! Guard conditions: userspace-triggerable wake sources.
//!
//! A guard condition is a shared flag plus a registry of waiting selectors.
//! Triggering it from any thread marks it ready and unblocks every selector
//! it is registered with; the selector observes the flag, resets it, and
//! runs the registered handler.

use std::sync::Arc;
use vstd::prelude::*;
use vstd::rwlock::RwLock;

use crate::context::Context;
use crate::error::ErrorKind;
use crate::queue::AnyContent;
use crate::wake::WakerRegistry;

verus! {

/// The shared half of a guard condition: the ready flag and the waiters.
pub struct GuardInner {
    pub(crate) triggered: RwLock<bool, AnyContent>,
    /// The selectors to unblock when the guard fires.
    pub(crate) wakers: WakerRegistry,
}

impl GuardInner {
    /// A fresh, untriggered guard state.
    pub fn new() -> Self {
        GuardInner { triggered: RwLock::new(false, Ghost(AnyContent)), wakers: WakerRegistry::new() }
    }

    /// Mark the guard ready.
    pub fn set_triggered(&self) {
        let (_, handle) = self.triggered.acquire_write();
        handle.release_write(true);
    }

    /// Whether the guard is ready at this instant.
    pub fn peek_triggered(&self) -> bool {
        let handle = self.triggered.acquire_read();
        let r = *handle.borrow();
        handle.release_read();
        r
    }

    /// Observe and reset the ready flag in one step.
    pub fn take_triggered(&self) -> bool {
        let (was, handle) = self.triggered.acquire_write();
        handle.release_write(false);
        was
    }
}

/// A triggerable wake source rooted in a context.
#[derive(Clone)]
pub struct GuardCondition {
    /// The shared flag and waiter registry.
    pub inner: Arc<GuardInner>,
    /// This guard's identity inside selectors, fresh within its context.
    pub(crate) id: u64,
    /// The identity of the context the guard was created under.
    pub(crate) context_id: u64,
}

impl GuardCondition {
    /// The identity selectors register this guard under.
    pub closed spec fn reg_id(self) -> u64 {
        self.id
    }

    /// The identity of the context this guard belongs to.
    pub closed spec fn ctx_id(self) -> u64 {
        self.context_id
    }

    /// The registration identity, as a value.
    pub fn reg_id_value(&self) -> (r: u64)
        ensures
            r == self.reg_id(),
    {
        self.id
    }

    /// The identity of this guard's context, as a value.
    pub fn context_id_value(&self) -> (r: u64)
        ensures
            r == self.ctx_id(),
    {
        self.context_id
    }

    /// A fresh guard condition on the given context.
    pub fn new(context: &Arc<Context>) -> (g: GuardCondition)
        ensures
            g.ctx_id() == context.ctx_id(),
    {
        let id = context.fresh_id();
        GuardCondition {
            inner: Arc::new(GuardInner::new()),
            id,
            context_id: context.id_value(),
        }
    }

    /// Mark the guard ready and unblock every selector it is registered
    /// with.
    pub fn trigger(&self) -> (r: Result<(), ErrorKind>)
        ensures
            r is Ok,
    {
        self.inner.set_triggered();
        self.inner.wakers.wake_all();
        Ok(())
    }
}

} // verus!
