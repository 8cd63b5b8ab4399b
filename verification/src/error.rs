//! The error taxonomy of the crate.

use vstd::prelude::*;

verus! {

/// Every error kind the core surfaces.
///
/// `Timeout` is produced only by the blocking wait and is absorbed by
/// `Selector::wait`; `WouldBlock` and the `RetryLater` variant of
/// [`RecvResult`] mark an empty read and are not errors at the API level.
#[derive(Clone, Copy, Debug, PartialEq, Eq, Structural)]
pub enum ErrorKind {
    /// Lifecycle misuse: a second initialisation.
    AlreadyInit,
    /// Lifecycle misuse: use before initialisation.
    NotInit,
    /// The runtime refused an operation's argument.
    InvalidArgument,
    /// The runtime could not allocate.
    BadAlloc,
    /// The blocking wait ran out of time before anything became ready.
    Timeout,
    /// A receive failed transiently.
    TakeFailed,
    /// A publish failed transiently.
    PublishFailed,
    /// A service exchange failed transiently.
    ServiceCallFailed,
    /// An empty read; retry later.
    WouldBlock,
    /// The halt flag was set while waiting.
    Signaled,
    /// The endpoint was built on a different context than the selector.
    ContextMismatch,
}

/// What a non-blocking receive yields: one value, "nothing yet", or an error.
pub enum RecvResult<T> {
    /// One value arrived.
    Received(T),
    /// Nothing is queued right now; this is not an error.
    RetryLater,
    /// The receive failed.
    Failed(ErrorKind),
}

/// What a handler tells the selector after one invocation: stay registered,
/// or have this registration removed.
#[derive(Clone, Copy, Debug, PartialEq, Eq, Structural)]
pub enum CallbackResult {
    /// Keep the registration.
    Keep,
    /// Drop the registration.
    Remove,
}

} // verus!
