//! The context: one initialised instance of the messaging runtime.
//!
//! Nodes, guard conditions and selectors are rooted in a context and carry
//! its identity; a selector refuses endpoints of a foreign context.  The
//! context also owns the halt flag and the registry of shutdown guards: a
//! halt request sets the flag and triggers every registered guard, so every
//! blocked selector wakes and reports `Signaled`.

use std::sync::Arc;
use vstd::prelude::*;
use vstd::rwlock::RwLock;

use crate::error::ErrorKind;
use crate::guard_condition::{GuardCondition, GuardInner};
use crate::node::{Node, NodeOptions, is_valid_name, is_valid_namespace};
use vstd::string::StringSliceAdditionalSpecFns;
use crate::selector::Selector;
use crate::queue::AnyContent;
use crate::runtime::{Directory, directory_new, now_nanos, arc_dup};

verus! {

/// An initialised runtime instance.
pub struct Context {
    /// This context's identity: endpoints remember it, selectors compare it.
    pub(crate) id: u64,
    pub(crate) counter: RwLock<u64, AnyContent>,
    pub(crate) halt: RwLock<bool, AnyContent>,
    pub(crate) shutdown_guards: RwLock<Vec<Arc<GuardInner>>, AnyContent>,
    /// Pairs publishers and subscribers by topic name.
    pub(crate) topics: Directory,
    /// Pairs clients and servers by service name.
    pub(crate) services: Directory,
}

impl Context {
    /// The context's identity.
    pub closed spec fn ctx_id(self) -> u64 {
        self.id
    }

    /// A fresh context.  Its identity is drawn from the clock at
    /// creation, after waiting out the current clock reading, so contexts
    /// created one after another on one thread read distinct instants.
    /// The crate keeps no process-wide state, so identities of contexts
    /// created on different threads in the same nanosecond can collide.
    pub fn new() -> (r: Result<Arc<Context>, ErrorKind>)
        ensures
            r is Ok,
    {
        let first = now_nanos();
        let mut id = now_nanos();
        let mut fuel: u64 = 1000000;
        while id == first && fuel > 0
            decreases fuel,
        {
            id = now_nanos();
            fuel = fuel - 1;
        }
        Ok(
            Arc::new(
                Context {
                    id,
                    counter: RwLock::new(1u64, Ghost(AnyContent)),
                    halt: RwLock::new(false, Ghost(AnyContent)),
                    shutdown_guards: RwLock::new(Vec::new(), Ghost(AnyContent)),
                    topics: directory_new(),
                    services: directory_new(),
                },
            ),
        )
    }

    /// The identity as a value.
    pub fn id_value(&self) -> (r: u64)
        ensures
            r == self.ctx_id(),
    {
        self.id
    }

    /// Draw an identity no earlier draw on this context returned.
    pub fn fresh_id(&self) -> u64 {
        let (v, handle) = self.counter.acquire_write();
        let next = if v < u64::MAX {
            v + 1
        } else {
            v
        };
        handle.release_write(next);
        v
    }

    /// Whether a halt was requested.
    pub fn is_halt(&self) -> bool {
        let handle = self.halt.acquire_read();
        let r = *handle.borrow();
        handle.release_read();
        r
    }

    /// Request a halt: set the flag and trigger every registered shutdown
    /// guard, so that every blocked selector wakes and reports `Signaled`.
    pub fn halt_request(&self) {
        let (_, handle) = self.halt.acquire_write();
        handle.release_write(true);
        let guards = self.shutdown_guards.acquire_read();
        let v = guards.borrow();
        let n = v.len();
        let mut i: usize = 0;
        while i < n
            invariant
                i <= n,
                n == v@.len(),
            decreases n - i,
        {
            v[i].set_triggered();
            v[i].wakers.wake_all();
            i = i + 1;
        }
        guards.release_read();
    }

    /// A named node rooted in this context; created exactly when the name
    /// is a valid node name and the namespace, when given, a valid
    /// namespace, else refused with `InvalidArgument`.
    pub fn create_node(
        self: &Arc<Context>,
        name: &str,
        namespace: Option<&str>,
        options: NodeOptions,
    ) -> (r: Result<Arc<Node>, ErrorKind>)
        ensures
            r is Ok <==> is_valid_name(name.spec_bytes()) && (match namespace {
                Some(ns) => is_valid_namespace(ns.spec_bytes()),
                None => true,
            }),
            r is Err ==> r == Result::<Arc<Node>, ErrorKind>::Err(ErrorKind::InvalidArgument),
            r matches Ok(n) ==> {
                &&& n.ctx_id() == self.ctx_id()
                &&& n.name_bytes() == name.spec_bytes()
                &&& n.namespace_bytes() == (match namespace {
                    Some(ns) => ns.spec_bytes(),
                    None => Seq::<u8>::empty(),
                })
            },
    {
        Node::new(arc_dup(self), name, namespace, options)
    }

    /// A fresh guard condition rooted in this context.
    pub fn create_guard(self: &Arc<Context>) -> (r: GuardCondition)
        ensures
            r.ctx_id() == self.ctx_id(),
    {
        GuardCondition::new(self)
    }

    /// A selector bound to this context.
    pub fn create_selector(self: &Arc<Context>) -> (r: Result<Selector, ErrorKind>)
        ensures
            r is Ok,
            r matches Ok(s) ==> {
                &&& s.wf()
                &&& s.ctx_id() == self.ctx_id()
                &&& s.subs() == Seq::<(u64, bool)>::empty()
                &&& s.srvs() == Seq::<(u64, bool)>::empty()
                &&& s.clis() == Seq::<(u64, bool)>::empty()
                &&& s.gds().len() == 1
                &&& s.gds()[0].1 == false
                &&& s.timer_delays().len() == 0
            },
    {
        Selector::new(arc_dup(self))
    }

    /// Put a guard on the shutdown registry.
    pub(crate) fn register_shutdown_guard(&self, g: &Arc<GuardInner>) {
        let (mut v, handle) = self.shutdown_guards.acquire_write();
        v.push(arc_dup(g));
        handle.release_write(v);
    }
}

} // verus!
