//! Typed streaming endpoints: publishers and subscribers.
//!
//! Publishers and subscribers created under one context and one topic name
//! meet in a shared [`TopicExchange`], handed out by the context's topic
//! directory.  A subscriber owns a message queue; `Publisher::send` pushes a
//! copy of the message into every attached queue and wakes every selector
//! registered on it.

use std::sync::Arc;
use std::sync::mpsc::Sender;
use vstd::prelude::*;
use vstd::string::StringSliceAdditionalSpecFns;
use vstd::rwlock::RwLock;

use crate::error::{ErrorKind, RecvResult};
use crate::node::Node;
use crate::qos::{self, Profile};
use crate::queue::{AnyContent, MsgQueue};
use crate::runtime::{arc_dup, directory_share};
use crate::wake::WakerRegistry;

verus! {

/// A subscriber as the exchange sees it: its queue, its waiters, its
/// identity.
pub struct SubscriptionRecord<T> {
    pub(crate) queue: Arc<MsgQueue<T>>,
    pub(crate) wakers: Arc<WakerRegistry>,
    pub(crate) id: u64,
}

/// The meeting point of one topic: every subscription attached under its
/// name.
pub struct TopicExchange<T> {
    pub(crate) subs: RwLock<Vec<SubscriptionRecord<T>>, AnyContent>,
}

impl<T> TopicExchange<T> {
    /// An exchange with no subscriptions.
    pub(crate) fn new() -> Self {
        TopicExchange { subs: RwLock::new(Vec::new(), Ghost(AnyContent)) }
    }

    /// Attach one subscription.
    pub(crate) fn attach(&self, rec: SubscriptionRecord<T>) {
        let (mut v, handle) = self.subs.acquire_write();
        v.push(rec);
        handle.release_write(v);
    }

    /// Copy the message into every attached queue and wake its waiters.
    pub(crate) fn deliver(&self, msg: &T) where T: Clone {
        let handle = self.subs.acquire_read();
        let v = handle.borrow();
        let n = v.len();
        let mut i: usize = 0;
        while i < n
            invariant
                i <= n,
                n == v@.len(),
            decreases n - i,
        {
            v[i].queue.push(msg.clone());
            v[i].wakers.wake_all();
            i = i + 1;
        }
        handle.release_read();
    }
}

/// A typed outbound endpoint on one topic.
pub struct Publisher<T> {
    pub(crate) node: Arc<Node>,
    pub(crate) context_id: u64,
    pub(crate) topic: String,
    pub(crate) qos: Profile,
    pub(crate) exchange: Arc<TopicExchange<T>>,
}

impl<T> Publisher<T> {
    /// The identity of the context this publisher belongs to.
    pub closed spec fn ctx_id(self) -> u64 {
        self.context_id
    }

    /// The topic name the publisher was created under, as bytes.
    pub closed spec fn topic_bytes(self) -> Seq<u8> {
        vstd::utf8::encode_utf8(self.topic@)
    }

    /// The quality of service the publisher was created with.
    pub closed spec fn qos_spec(self) -> Profile {
        self.qos
    }

    /// A publisher attached to the topic's exchange; `None` for the
    /// quality of service picks the named default.
    pub(crate) fn new(node: &Arc<Node>, topic_name: &str, qos: Option<Profile>) -> (r: Result<
        Publisher<T>,
        ErrorKind,
    >)
        where T: Send + Sync + 'static
        ensures
            r is Ok,
            r matches Ok(p) ==> {
                &&& p.ctx_id() == node.ctx_id()
                &&& p.topic_bytes() == topic_name.spec_bytes()
                &&& p.qos_spec() == (match qos {
                    Some(q) => q,
                    None => qos::spec_default_profile(),
                })
            },
    {
        let profile = match qos {
            Some(q) => q,
            None => Profile::new(),
        };
        let key: String = topic_name.to_owned();
        let exchange = directory_share(&node.context.topics, &key, Arc::new(TopicExchange::new()));
        Ok(
            Publisher {
                node: arc_dup(node),
                context_id: node.context_id_value(),
                topic: key,
                qos: profile,
                exchange,
            },
        )
    }

    /// Copy the message to every subscriber of the topic and wake every
    /// selector waiting on one of them.
    pub fn send(&self, msg: &T) -> (r: Result<(), ErrorKind>) where T: Clone
        ensures
            r is Ok,
    {
        self.exchange.deliver(msg);
        Ok(())
    }
}

/// A typed inbound endpoint on one topic.
pub struct Subscriber<T> {
    pub(crate) node: Arc<Node>,
    pub(crate) context_id: u64,
    pub(crate) topic: String,
    pub(crate) qos: Profile,
    pub(crate) id: u64,
    pub(crate) queue: Arc<MsgQueue<T>>,
    pub(crate) wakers: Arc<WakerRegistry>,
}

impl<T> Subscriber<T> {
    /// The identity of the context this subscriber belongs to.
    pub closed spec fn ctx_id(self) -> u64 {
        self.context_id
    }

    /// The identity a selector registers this subscriber under.
    pub closed spec fn reg_id(self) -> u64 {
        self.id
    }

    /// The quality of service the subscriber was created with.
    pub closed spec fn qos_spec(self) -> Profile {
        self.qos
    }

    /// The topic name the subscriber was created under, as bytes.
    pub closed spec fn topic_bytes(self) -> Seq<u8> {
        vstd::utf8::encode_utf8(self.topic@)
    }

    /// The identity of this subscriber's context, as a value.
    pub fn context_id_value(&self) -> (r: u64)
        ensures
            r == self.ctx_id(),
    {
        self.context_id
    }

    /// The registration identity, as a value.
    pub fn reg_id_value(&self) -> (r: u64)
        ensures
            r == self.reg_id(),
    {
        self.id
    }

    /// A subscriber attached to the topic's exchange; `None` for the
    /// quality of service picks the named default.
    pub(crate) fn new(node: &Arc<Node>, topic_name: &str, qos: Option<Profile>) -> (r: Result<
        Subscriber<T>,
        ErrorKind,
    >)
        where T: Send + Sync + 'static
        ensures
            r is Ok,
            r matches Ok(s) ==> {
                &&& s.ctx_id() == node.ctx_id()
                &&& s.topic_bytes() == topic_name.spec_bytes()
                &&& s.qos_spec() == (match qos {
                    Some(q) => q,
                    None => qos::spec_default_profile(),
                })
            },
    {
        let profile = match qos {
            Some(q) => q,
            None => Profile::new(),
        };
        let key: String = topic_name.to_owned();
        let exchange = directory_share(&node.context.topics, &key, Arc::new(TopicExchange::new()));
        let queue = Arc::new(MsgQueue::new());
        let wakers = Arc::new(WakerRegistry::new());
        let id = node.context.fresh_id();
        exchange.attach(
            SubscriptionRecord { queue: arc_dup(&queue), wakers: arc_dup(&wakers), id },
        );
        Ok(
            Subscriber {
                node: arc_dup(node),
                context_id: node.context_id_value(),
                topic: key,
                qos: profile,
                id,
                queue,
                wakers,
            },
        )
    }

    /// One queued message, `RetryLater` when nothing is queued.  Never
    /// blocks, and never fails: this transport has no transient receive
    /// errors.
    pub fn try_recv(&self) -> (r: RecvResult<T>)
        ensures
            !(r is Failed),
    {
        match self.queue.pop() {
            Some(m) => RecvResult::Received(m),
            None => RecvResult::RetryLater,
        }
    }

    /// Whether a message is queued at this instant.
    pub fn has_pending(&self) -> bool {
        self.queue.has_pending()
    }

    /// Leave a wake sender with this subscription: whoever next makes it
    /// ready sends `id` down the channel.  Used by asynchronous adapters
    /// that park a task instead of a selector.
    pub fn add_waker(&self, id: u64, tx: &Sender<u64>) {
        self.wakers.add(id, tx);
    }

    /// Drop every wake sender left under `id`.
    pub fn remove_waker(&self, id: u64) {
        self.wakers.remove(id);
    }
}

} // verus!
