//! The trusted façade to the process's runtime facilities.
//!
//! Everything the library needs from the operating system lives here, behind
//! small wrappers whose contracts Verus believes: the wall clock, the
//! blocking wake channel a selector parks on, and the process-wide topic
//! directory that pairs publishers with subscribers.  Nothing here decides
//! anything; every result is handed to verified code, which states what
//! holds of whatever came back.

use core::any::Any;
use std::collections::HashMap;
use std::collections::hash_map::Entry;
use std::sync::Arc;
use std::sync::Mutex;
use std::sync::mpsc::{Receiver, Sender};
use std::time::SystemTime;
use vstd::prelude::*;

verus! {

#[verifier::external_type_specification]
#[verifier::external_body]
#[verifier::reject_recursive_types(T)]
/// The sending half of the standard asynchronous channel.
pub struct ExSender<T>(Sender<T>);

#[verifier::external_type_specification]
#[verifier::external_body]
#[verifier::reject_recursive_types(T)]
/// The receiving half of the standard asynchronous channel.
pub struct ExReceiver<T>(Receiver<T>);

/// Relies on std::sync::mpsc::channel: a connected, unbounded
/// sender/receiver pair.
#[verifier::external_body]
pub(crate) fn wake_channel() -> (Sender<u64>, Receiver<u64>) {
    std::sync::mpsc::channel()
}

/// Relies on std::sync::mpsc::Sender::send: queues the value for the
/// receiver; fails only when the receiver is gone, which the caller
/// treats the same as a delivered wake.
#[verifier::external_body]
pub(crate) fn wake_send(tx: &Sender<u64>, id: u64) {
    let _ = tx.send(id);
}

/// Relies on std::sync::mpsc::Sender::clone: another sending half of the
/// same channel.
#[verifier::external_body]
pub(crate) fn wake_clone(tx: &Sender<u64>) -> Sender<u64> {
    tx.clone()
}

/// Relies on std::sync::mpsc::Receiver::recv: blocks until a value or
/// disconnection arrives; `None` stands for disconnection.
#[verifier::external_body]
pub(crate) fn wake_recv(rx: &Receiver<u64>) -> Option<u64> {
    rx.recv().ok()
}

/// Relies on std::sync::mpsc::Receiver::recv_timeout: blocks for at most
/// the given number of nanoseconds; `None` on timeout or disconnection.
#[verifier::external_body]
pub(crate) fn wake_recv_timeout(rx: &Receiver<u64>, nanos: u64) -> Option<u64> {
    rx.recv_timeout(core::time::Duration::from_nanos(nanos)).ok()
}

/// Relies on std::sync::mpsc::Receiver::try_recv: returns a queued value
/// without blocking; `None` when the channel is empty or disconnected.
#[verifier::external_body]
pub(crate) fn wake_try_recv(rx: &Receiver<u64>) -> Option<u64> {
    rx.try_recv().ok()
}

/// Relies on std::time::SystemTime::now: the wall clock, converted to
/// whole nanoseconds since the epoch in 64 bits; zero for clocks set
/// before the epoch.
#[verifier::external_body]
pub(crate) fn now_nanos() -> u64 {
    SystemTime::now().duration_since(SystemTime::UNIX_EPOCH).map_or(0, |d| d.as_nanos() as u64)
}

/// Relies on std::sync::Arc::clone: another handle to the same allocation,
/// hence to the same value.
#[verifier::external_body]
pub(crate) fn arc_dup<T>(a: &Arc<T>) -> (r: Arc<T>)
    ensures
        r == *a,
{
    a.clone()
}

/// The process-side registry that pairs endpoints created under the same
/// name: the stand-in for the middleware's discovery.  It maps a name to
/// the first shared value stored under it; the values are the typed
/// exchanges of `topic` and `service`.
#[verifier::external_body]
pub struct Directory {
    inner: Mutex<HashMap<String, Box<dyn Any + Send + Sync>>>,
}

/// Relies on std::collections::HashMap::new inside a fresh mutex: an empty
/// directory.
#[verifier::external_body]
pub(crate) fn directory_new() -> Directory {
    Directory { inner: Mutex::new(HashMap::new()) }
}

/// Relies on std::collections::HashMap::entry and core::any::Any::
/// downcast_ref: hands every caller of one name the value the first caller
/// stored there, or `fresh` when the name is new or was first used at
/// another type.
#[verifier::external_body]
pub(crate) fn directory_share<E: Send + Sync + 'static>(
    d: &Directory,
    key: &String,
    fresh: Arc<E>,
) -> Arc<E> {
    let mut g = d.inner.lock().unwrap_or_else(|e| e.into_inner());
    match g.entry(key.clone()) {
        Entry::Occupied(o) => o.get().downcast_ref::<Arc<E>>().cloned().unwrap_or(fresh),
        Entry::Vacant(v) => {
            v.insert(Box::new(fresh.clone()));
            fresh
        },
    }
}

} // verus!
