//! Nodes: named participants in a context, and the factory for endpoints.

use std::sync::Arc;
use vstd::prelude::*;
use vstd::string::StringSliceAdditionalSpecFns;

use crate::context::Context;
use crate::error::ErrorKind;
use crate::qos;
use crate::service::{Client, Server};
use crate::topic::{Publisher, Subscriber};

verus! {

/// `'a'`, `'z'`, `'A'`, `'Z'`, `'0'`, `'9'`, `'_'` and `'/'` as byte values.
pub const LOWER_A: u8 = 97;
/// See `LOWER_A`.
pub const LOWER_Z: u8 = 122;
/// See `LOWER_A`.
pub const UPPER_A: u8 = 65;
/// See `LOWER_A`.
pub const UPPER_Z: u8 = 90;
/// See `LOWER_A`.
pub const DIGIT_0: u8 = 48;
/// See `LOWER_A`.
pub const DIGIT_9: u8 = 57;
/// See `LOWER_A`.
pub const UNDERSCORE: u8 = 95;
/// See `LOWER_A`.
pub const SLASH: u8 = 47;

/// Whether the byte may appear in a node name.
pub open spec fn is_name_byte(b: u8) -> bool {
    (LOWER_A <= b <= LOWER_Z) || (UPPER_A <= b <= UPPER_Z) || (DIGIT_0 <= b <= DIGIT_9) || b == UNDERSCORE
}

/// A valid node name: nonempty, made of letters, digits and underscores,
/// not starting with a digit.
pub open spec fn is_valid_name(s: Seq<u8>) -> bool {
    &&& s.len() > 0
    &&& !(DIGIT_0 <= s[0] <= DIGIT_9)
    &&& forall|i: int| 0 <= i < s.len() ==> is_name_byte(#[trigger] s[i])
}

/// A valid namespace: empty, or starting with a slash and made of name
/// bytes and slashes.
pub open spec fn is_valid_namespace(s: Seq<u8>) -> bool {
    s.len() == 0 || {
        &&& s[0] == SLASH
        &&& forall|i: int| 0 <= i < s.len() ==> is_name_byte(#[trigger] s[i]) || s[i] == SLASH
    }
}

/// Decide `is_valid_name` on a byte slice.
pub fn check_name(s: &[u8]) -> (r: bool)
    ensures
        r == is_valid_name(s@),
{
    if s.len() == 0 {
        return false;
    }
    if DIGIT_0 <= s[0] && s[0] <= DIGIT_9 {
        return false;
    }
    let n = s.len();
    let mut i: usize = 0;
    while i < n
        invariant
            n == s@.len(),
            i <= n,
            forall|k: int| 0 <= k < i ==> is_name_byte(#[trigger] s@[k]),
        decreases n - i,
    {
        let b = s[i];
        let ok = (LOWER_A <= b && b <= LOWER_Z) || (UPPER_A <= b && b <= UPPER_Z) || (
        DIGIT_0 <= b && b <= DIGIT_9) || b == UNDERSCORE;
        if !ok {
            return false;
        }
        i = i + 1;
    }
    true
}

/// Decide `is_valid_namespace` on a byte slice.
pub fn check_namespace(s: &[u8]) -> (r: bool)
    ensures
        r == is_valid_namespace(s@),
{
    if s.len() == 0 {
        return true;
    }
    if s[0] != SLASH {
        return false;
    }
    let n = s.len();
    let mut i: usize = 0;
    while i < n
        invariant
            n == s@.len(),
            i <= n,
            forall|k: int| 0 <= k < i ==> is_name_byte(#[trigger] s@[k]) || s@[k] == SLASH,
        decreases n - i,
    {
        let b = s[i];
        let ok = (LOWER_A <= b && b <= LOWER_Z) || (UPPER_A <= b && b <= UPPER_Z) || (
        DIGIT_0 <= b && b <= DIGIT_9) || b == UNDERSCORE || b == SLASH;
        if !ok {
            return false;
        }
        i = i + 1;
    }
    true
}

/// Options a node is created with.
#[derive(Clone, Copy, Debug, PartialEq, Eq, Structural)]
pub struct NodeOptions {
    /// Whether the node reads process-wide argument remappings.
    pub use_global_arguments: bool,
    /// Whether the node mirrors its log output onto a topic.
    pub enable_rosout: bool,
}

impl NodeOptions {
    /// The defaults: global arguments and log mirroring on.
    pub fn new() -> (r: Self)
        ensures
            r.use_global_arguments,
            r.enable_rosout,
    {
        NodeOptions { use_global_arguments: true, enable_rosout: true }
    }
}

impl Default for NodeOptions {
    /// Same as `NodeOptions::new`.
    fn default() -> (r: Self)
        ensures
            r.use_global_arguments,
            r.enable_rosout,
    {
        NodeOptions::new()
    }
}

/// A named participant in a context.
pub struct Node {
    /// The context the node was created under.
    pub(crate) context: Arc<Context>,
    /// That context's identity, for cheap comparison.
    pub(crate) context_id: u64,
    pub(crate) name: String,
    pub(crate) namespace: String,
    pub(crate) options: NodeOptions,
}

impl Node {
    /// The identity of the context this node belongs to.
    pub closed spec fn ctx_id(self) -> u64 {
        self.context_id
    }

    /// The node's name, as bytes.
    pub closed spec fn name_bytes(self) -> Seq<u8> {
        vstd::utf8::encode_utf8(self.name@)
    }

    /// The node's namespace, as bytes.
    pub closed spec fn namespace_bytes(self) -> Seq<u8> {
        vstd::utf8::encode_utf8(self.namespace@)
    }

    /// The identity of this node's context, as a value.
    pub fn context_id_value(&self) -> (r: u64)
        ensures
            r == self.ctx_id(),
    {
        self.context_id
    }

    /// A new node on the given context.  The name must be a valid node
    /// name and the namespace, when given, a valid namespace; otherwise
    /// nothing is created and `InvalidArgument` comes back.
    pub fn new(
        context: Arc<Context>,
        name: &str,
        namespace: Option<&str>,
        options: NodeOptions,
    ) -> (r: Result<Arc<Node>, ErrorKind>)
        ensures
            r is Ok <==> is_valid_name(name.spec_bytes()) && (match namespace {
                Some(ns) => is_valid_namespace(ns.spec_bytes()),
                None => true,
            }),
            r is Err ==> r == Result::<Arc<Node>, ErrorKind>::Err(ErrorKind::InvalidArgument),
            r matches Ok(node) ==> {
                &&& node.ctx_id() == context.ctx_id()
                &&& node.name_bytes() == name.spec_bytes()
                &&& node.namespace_bytes() == (match namespace {
                    Some(ns) => ns.spec_bytes(),
                    None => Seq::<u8>::empty(),
                })
            },
    {
        if !check_name(name.as_bytes()) {
            return Err(ErrorKind::InvalidArgument);
        }
        let ns: String = match namespace {
            Some(s) => {
                if !check_namespace(s.as_bytes()) {
                    return Err(ErrorKind::InvalidArgument);
                }
                s.to_owned()
            },
            None => String::new(),
        };
        let context_id = context.id_value();
        Ok(
            Arc::new(
                Node { context, context_id, name: name.to_owned(), namespace: ns, options },
            ),
        )
    }

    /// A typed publisher on the given topic; `None` for the quality of
    /// service picks the named default.
    pub fn create_publisher<T: Send + Sync + 'static>(
        self: &Arc<Node>,
        topic_name: &str,
        qos: Option<qos::Profile>,
    ) -> (r: Result<Publisher<T>, ErrorKind>)
        ensures
            r is Ok,
            r matches Ok(p) ==> {
                &&& p.ctx_id() == self.ctx_id()
                &&& p.topic_bytes() == topic_name.spec_bytes()
                &&& p.qos_spec() == (match qos {
                    Some(q) => q,
                    None => crate::qos::spec_default_profile(),
                })
            },
    {
        Publisher::new(self, topic_name, qos)
    }

    /// A typed subscriber on the given topic; `None` for the quality of
    /// service picks the named default.
    pub fn create_subscriber<T: Send + Sync + 'static>(
        self: &Arc<Node>,
        topic_name: &str,
        qos: Option<qos::Profile>,
    ) -> (r: Result<Subscriber<T>, ErrorKind>)
        ensures
            r is Ok,
            r matches Ok(s) ==> {
                &&& s.ctx_id() == self.ctx_id()
                &&& s.topic_bytes() == topic_name.spec_bytes()
                &&& s.qos_spec() == (match qos {
                    Some(q) => q,
                    None => crate::qos::spec_default_profile(),
                })
            },
    {
        Subscriber::new(self, topic_name, qos)
    }

    /// A typed service server on the given service name.
    pub fn create_server<T1: Send + Sync + 'static, T2: Send + Sync + 'static>(
        self: &Arc<Node>,
        service_name: &str,
        qos: Option<qos::Profile>,
    ) -> (r: Result<Server<T1, T2>, ErrorKind>)
        ensures
            r is Ok,
            r matches Ok(s) ==> {
                &&& s.ctx_id() == self.ctx_id()
                &&& s.service_bytes() == service_name.spec_bytes()
            },
    {
        Server::new(self, service_name, qos)
    }

    /// A typed service client on the given service name.
    pub fn create_client<T1: Send + Sync + 'static, T2: Send + Sync + 'static>(
        self: &Arc<Node>,
        service_name: &str,
        qos: Option<qos::Profile>,
    ) -> (r: Result<Client<T1, T2>, ErrorKind>)
        ensures
            r is Ok,
            r matches Ok(c) ==> {
                &&& c.ctx_id() == self.ctx_id()
                &&& c.service_bytes() == service_name.spec_bytes()
            },
    {
        Client::new(self, service_name, qos)
    }
}

} // verus!
