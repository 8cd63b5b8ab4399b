//! Typed request/reply endpoints: servers, clients, and reply handles.
//!
//! Clients and servers created under one context and one service name meet
//! in a shared [`ServiceExchange`].  A request carries its reply queue with
//! it, so the server's reply handle needs no registry: answering pushes the
//! response straight back to the asking client and wakes its selectors.

use std::sync::Arc;
use std::sync::mpsc::Sender;
use vstd::prelude::*;
use vstd::string::StringSliceAdditionalSpecFns;
use vstd::rwlock::RwLock;

use crate::error::{ErrorKind, RecvResult};
use crate::node::Node;
use crate::qos::{self, Profile};
use crate::queue::{AnyContent, MsgQueue};
use crate::runtime::{arc_dup, directory_share};
use crate::wake::WakerRegistry;

verus! {

/// What identifies one request among those a server answers.
#[derive(Clone, Copy, Debug, PartialEq, Eq, Structural)]
pub struct Header {
    /// The asking client's identity.
    pub client_id: u64,
    /// The request's sequence number at that client.
    pub sequence_number: u64,
}

/// A response on its way back: the payload and the request's header.
pub struct ResponseEnvelope<Resp> {
    /// The response payload.
    pub response: Resp,
    /// The header of the request being answered.
    pub header: Header,
}

/// A request on its way out: the payload, its header, and the way back.
pub struct RequestEnvelope<Req, Resp> {
    /// The request payload.
    pub request: Req,
    /// The request's identity.
    pub header: Header,
    pub(crate) reply_to: Arc<MsgQueue<ResponseEnvelope<Resp>>>,
    pub(crate) reply_wakers: Arc<WakerRegistry>,
}

/// A server as the exchange sees it.
pub struct ServerRecord<Req, Resp> {
    pub(crate) queue: Arc<MsgQueue<RequestEnvelope<Req, Resp>>>,
    pub(crate) wakers: Arc<WakerRegistry>,
    pub(crate) id: u64,
}

/// The meeting point of one service: every server attached under its name.
pub struct ServiceExchange<Req, Resp> {
    pub(crate) servers: RwLock<Vec<ServerRecord<Req, Resp>>, AnyContent>,
}

impl<Req, Resp> ServiceExchange<Req, Resp> {
    /// An exchange with no servers.
    pub(crate) fn new() -> Self {
        ServiceExchange { servers: RwLock::new(Vec::new(), Ghost(AnyContent)) }
    }

    /// Attach one server.
    pub(crate) fn attach(&self, rec: ServerRecord<Req, Resp>) {
        let (mut v, handle) = self.servers.acquire_write();
        v.push(rec);
        handle.release_write(v);
    }

    /// Queue the request at the first attached server and wake its
    /// selectors; `false` when no server is attached and the request is
    /// dropped.
    pub(crate) fn send_request(&self, env: RequestEnvelope<Req, Resp>) -> bool {
        let handle = self.servers.acquire_read();
        let v = handle.borrow();
        let delivered = if v.len() > 0 {
            v[0].queue.push(env);
            v[0].wakers.wake_all();
            true
        } else {
            false
        };
        handle.release_read();
        delivered
    }
}

/// The one-shot handle a server answers one request with.
pub struct ServerSend<Resp> {
    /// The header of the request being answered.
    pub header: Header,
    pub(crate) reply_to: Arc<MsgQueue<ResponseEnvelope<Resp>>>,
    pub(crate) reply_wakers: Arc<WakerRegistry>,
}

impl<Resp> ServerSend<Resp> {
    /// The header of the request this handle answers.
    pub closed spec fn header_spec(self) -> Header {
        self.header
    }

    /// Send the response back to the asking client and wake its selectors.
    pub fn send(self, response: Resp) -> (r: Result<(), ErrorKind>)
        ensures
            r is Ok,
    {
        self.reply_to.push(ResponseEnvelope { response, header: self.header });
        self.reply_wakers.wake_all();
        Ok(())
    }
}

/// A typed reply endpoint on one service.
pub struct Server<Req, Resp> {
    pub(crate) node: Arc<Node>,
    pub(crate) context_id: u64,
    pub(crate) service: String,
    pub(crate) qos: Profile,
    pub(crate) id: u64,
    pub(crate) queue: Arc<MsgQueue<RequestEnvelope<Req, Resp>>>,
    pub(crate) wakers: Arc<WakerRegistry>,
}

impl<Req, Resp> Server<Req, Resp> {
    /// The identity of the context this server belongs to.
    pub closed spec fn ctx_id(self) -> u64 {
        self.context_id
    }

    /// The service name the server was created under, as bytes.
    pub closed spec fn service_bytes(self) -> Seq<u8> {
        vstd::utf8::encode_utf8(self.service@)
    }

    /// The identity a selector registers this server under.
    pub closed spec fn reg_id(self) -> u64 {
        self.id
    }

    /// The identity of this server's context, as a value.
    pub fn context_id_value(&self) -> (r: u64)
        ensures
            r == self.ctx_id(),
    {
        self.context_id
    }

    /// The registration identity, as a value.
    pub fn reg_id_value(&self) -> (r: u64)
        ensures
            r == self.reg_id(),
    {
        self.id
    }

    /// A server attached to the service's exchange.
    pub(crate) fn new(node: &Arc<Node>, service_name: &str, qos: Option<Profile>) -> (r: Result<
        Server<Req, Resp>,
        ErrorKind,
    >)
        where Req: Send + Sync + 'static, Resp: Send + Sync + 'static
        ensures
            r is Ok,
            r matches Ok(s) ==> {
                &&& s.ctx_id() == node.ctx_id()
                &&& s.service_bytes() == service_name.spec_bytes()
            },
    {
        let profile = match qos {
            Some(q) => q,
            None => Profile::services_default(),
        };
        let key: String = service_name.to_owned();
        let exchange = directory_share(
            &node.context.services,
            &key,
            Arc::new(ServiceExchange::new()),
        );
        let queue = Arc::new(MsgQueue::new());
        let wakers = Arc::new(WakerRegistry::new());
        let id = node.context.fresh_id();
        exchange.attach(ServerRecord { queue: arc_dup(&queue), wakers: arc_dup(&wakers), id });
        Ok(
            Server {
                node: arc_dup(node),
                context_id: node.context_id_value(),
                service: key,
                qos: profile,
                id,
                queue,
                wakers,
            },
        )
    }

    /// One queued request, as a reply handle, the payload and its header;
    /// `RetryLater` when nothing is queued.  Never blocks, and never
    /// fails: this transport has no transient receive errors.  The reply
    /// handle answers exactly the request it came with: it carries the
    /// same header.
    pub fn try_recv_with_header(&self) -> (r: RecvResult<(ServerSend<Resp>, Req, Header)>)
        ensures
            !(r is Failed),
            r matches RecvResult::Received(t) ==> t.0.header_spec() == t.2,
    {
        match self.queue.pop() {
            Some(env) => {
                let RequestEnvelope { request, header, reply_to, reply_wakers } = env;
                RecvResult::Received((ServerSend { header, reply_to, reply_wakers }, request, header))
            },
            None => RecvResult::RetryLater,
        }
    }

    /// Whether a request is queued at this instant.
    pub fn has_pending(&self) -> bool {
        self.queue.has_pending()
    }

    /// Leave a wake sender with this server's request queue: whoever
    /// next queues a request sends `id` down the channel.  Used by
    /// asynchronous adapters that park a task instead of a selector.
    pub fn add_waker(&self, id: u64, tx: &Sender<u64>) {
        self.wakers.add(id, tx);
    }

    /// Drop every wake sender left under `id`.
    pub fn remove_waker(&self, id: u64) {
        self.wakers.remove(id);
    }
}

/// A typed request endpoint on one service.
pub struct Client<Req, Resp> {
    pub(crate) node: Arc<Node>,
    pub(crate) context_id: u64,
    pub(crate) service: String,
    pub(crate) qos: Profile,
    pub(crate) id: u64,
    pub(crate) resp_queue: Arc<MsgQueue<ResponseEnvelope<Resp>>>,
    pub(crate) resp_wakers: Arc<WakerRegistry>,
    pub(crate) exchange: Arc<ServiceExchange<Req, Resp>>,
    pub(crate) seq: u64,
}

impl<Req, Resp> Client<Req, Resp> {
    /// The identity of the context this client belongs to.
    pub closed spec fn ctx_id(self) -> u64 {
        self.context_id
    }

    /// The service name the client was created under, as bytes.
    pub closed spec fn service_bytes(self) -> Seq<u8> {
        vstd::utf8::encode_utf8(self.service@)
    }

    /// The identity a selector registers this client under.
    pub closed spec fn reg_id(self) -> u64 {
        self.id
    }

    /// The sequence number the next request will carry.
    pub closed spec fn next_seq(self) -> u64 {
        self.seq
    }

    /// The identity of this client's context, as a value.
    pub fn context_id_value(&self) -> (r: u64)
        ensures
            r == self.ctx_id(),
    {
        self.context_id
    }

    /// The registration identity, as a value.
    pub fn reg_id_value(&self) -> (r: u64)
        ensures
            r == self.reg_id(),
    {
        self.id
    }

    /// A client attached to the service's exchange.
    pub(crate) fn new(node: &Arc<Node>, service_name: &str, qos: Option<Profile>) -> (r: Result<
        Client<Req, Resp>,
        ErrorKind,
    >)
        where Req: Send + Sync + 'static, Resp: Send + Sync + 'static
        ensures
            r is Ok,
            r matches Ok(c) ==> {
                &&& c.ctx_id() == node.ctx_id()
                &&& c.service_bytes() == service_name.spec_bytes()
            },
    {
        let profile = match qos {
            Some(q) => q,
            None => Profile::services_default(),
        };
        let key: String = service_name.to_owned();
        let exchange = directory_share(
            &node.context.services,
            &key,
            Arc::new(ServiceExchange::new()),
        );
        Ok(
            Client {
                node: arc_dup(node),
                context_id: node.context_id_value(),
                service: key,
                qos: profile,
                id: node.context.fresh_id(),
                resp_queue: Arc::new(MsgQueue::new()),
                resp_wakers: Arc::new(WakerRegistry::new()),
                exchange,
                seq: 0,
            },
        )
    }

    /// Hand the request to the service's first server.  `Ok` carries the
    /// header the response will come back under; `ServiceCallFailed` means
    /// no server is attached and the request was dropped.
    pub fn send_request(&mut self, request: Req) -> (r: Result<Header, ErrorKind>)
        ensures
            final(self).next_seq() == (if old(self).next_seq() < u64::MAX {
                (old(self).next_seq() + 1) as u64
            } else {
                0u64
            }),
            r matches Ok(h) ==> h.sequence_number == old(self).next_seq(),
            r matches Err(e) ==> e == ErrorKind::ServiceCallFailed,
    {
        let header = Header { client_id: self.id, sequence_number: self.seq };
        self.seq = if self.seq < u64::MAX {
            self.seq + 1
        } else {
            0
        };
        let env = RequestEnvelope {
            request,
            header,
            reply_to: arc_dup(&self.resp_queue),
            reply_wakers: arc_dup(&self.resp_wakers),
        };
        if self.exchange.send_request(env) {
            Ok(header)
        } else {
            Err(ErrorKind::ServiceCallFailed)
        }
    }

    /// One queued response with its header; `RetryLater` when nothing is
    /// queued.  Never blocks, and never fails: this transport has no
    /// transient receive errors.
    pub fn try_recv(&self) -> (r: RecvResult<(Resp, Header)>)
        ensures
            !(r is Failed),
    {
        match self.resp_queue.pop() {
            Some(env) => RecvResult::Received((env.response, env.header)),
            None => RecvResult::RetryLater,
        }
    }

    /// Whether a response is queued at this instant.
    pub fn has_pending(&self) -> bool {
        self.resp_queue.has_pending()
    }

    /// Leave a wake sender with this client's response queue: whoever
    /// next answers it sends `id` down the channel.  Used by asynchronous
    /// adapters that park a task instead of a selector.
    pub fn add_waker(&self, id: u64, tx: &Sender<u64>) {
        self.resp_wakers.add(id, tx);
    }

    /// Drop every wake sender left under `id`.
    pub fn remove_waker(&self, id: u64) {
        self.resp_wakers.remove(id);
    }
}

} // verus!
