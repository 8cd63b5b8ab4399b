//! The selector: a single-threaded event demultiplexer.
//!
//! A selector registers subscribers, service servers, service clients,
//! guard conditions and software timers, each under a fresh identity, and
//! blocks on its wake channel until one of them is ready or the nearest
//! timer is due.  One call to [`Selector::wait`] then fires due timers
//! first and fans readiness out in a fixed order — subscriptions, servers,
//! clients, guards — removing every registration whose handler asked to be
//! removed or that was registered one-shot.
//!
//! A selector belongs to one thread; it is built on one context and
//! refuses endpoints of any other.

use std::sync::Arc;
use std::sync::mpsc::{Receiver, Sender};
use vstd::prelude::*;

use crate::context::Context;
use crate::delta_list::{DeltaList, insert_pos, inserted_delays, psum};
use crate::error::{CallbackResult, RecvResult, ErrorKind};
use crate::guard_condition::{GuardCondition, GuardInner};
use crate::queue::MsgQueue;
use crate::runtime::{
    arc_dup,
    now_nanos,
    wake_channel,
    wake_recv,
    wake_recv_timeout,
    wake_try_recv,
};
use crate::service::{Client, Header, ResponseEnvelope, Server};
use crate::topic::Subscriber;

verus! {

/// The soft time budget, in nanoseconds, one handler may spend draining
/// its source before yielding to the other sources.
pub const HANDLER_BUDGET_NANOS: u64 = 10000000;

/// The most messages one handler drains in one dispatch.
pub const DRAIN_LIMIT: u64 = 4096;

/// The most stale wake hints cleared per wait.
pub const STALE_WAKE_LIMIT: u64 = 65536;

/// The largest timeout the blocking wait takes: the signed 64-bit
/// nanosecond range.
pub const MAX_WAIT_NANOS: u64 = 0x7fff_ffff_ffff_ffff;

/// A callback run when its source fires; the result says whether the
/// registration stays.
pub trait Handler {
    /// One invocation.
    fn call(&mut self) -> CallbackResult;
}

/// A callback run once per received message.
pub trait SubscriberCallback<T> {
    /// One message.
    fn on_message(&mut self, message: T);
}

/// A callback run once per received request; its result is sent back as
/// the response.
pub trait ServiceCallback<Req, Resp> {
    /// One request.
    fn on_request(&mut self, request: Req, header: Header) -> Resp;
}

/// A registered wait source: a readiness test and one dispatch step.
pub trait WaitSource {
    /// Whether the source has something to hand out right now.
    fn is_ready(&self) -> bool;

    /// Run the source's handler once; the result says whether the
    /// registration stays.
    fn invoke(&mut self) -> CallbackResult;
}

/// The wait source of a registered subscriber: drains the queue into the
/// user callback, within the soft budget.
#[verifier::reject_recursive_types(T)]
struct SubscriptionSource<T> {
    sub: Subscriber<T>,
    handler: Option<Box<dyn SubscriberCallback<T>>>,
}

impl<T> WaitSource for SubscriptionSource<T> {
    fn is_ready(&self) -> bool {
        self.sub.has_pending()
    }

    fn invoke(&mut self) -> CallbackResult {
        let start = now_nanos();
        let mut fuel: u64 = DRAIN_LIMIT;
        while fuel > 0
            decreases fuel,
        {
            match self.sub.try_recv() {
                RecvResult::Received(m) => {
                    match &mut self.handler {
                        Some(h) => h.on_message(m),
                        None => {},
                    }
                },
                RecvResult::RetryLater => {
                    return CallbackResult::Keep;
                },
                RecvResult::Failed(_) => {
                    return CallbackResult::Remove;
                },
            }
            let t = now_nanos();
            if t >= start && t - start > HANDLER_BUDGET_NANOS {
                return CallbackResult::Keep;
            }
            fuel = fuel - 1;
        }
        CallbackResult::Keep
    }
}

/// The wait source of a registered server: answers queued requests
/// through the user callback, within the soft budget.
#[verifier::reject_recursive_types(Req)]
#[verifier::reject_recursive_types(Resp)]
struct ServerSource<Req, Resp> {
    server: Server<Req, Resp>,
    handler: Option<Box<dyn ServiceCallback<Req, Resp>>>,
}

impl<Req, Resp> WaitSource for ServerSource<Req, Resp> {
    fn is_ready(&self) -> bool {
        self.server.has_pending()
    }

    fn invoke(&mut self) -> CallbackResult {
        let start = now_nanos();
        let mut fuel: u64 = DRAIN_LIMIT;
        while fuel > 0
            decreases fuel,
        {
            match self.server.try_recv_with_header() {
                RecvResult::Received((reply, request, header)) => {
                    match &mut self.handler {
                        Some(h) => {
                            let response = h.on_request(request, header);
                            match reply.send(response) {
                                Ok(()) => {},
                                Err(_) => {
                                    return CallbackResult::Remove;
                                },
                            }
                        },
                        None => {},
                    }
                },
                RecvResult::RetryLater => {
                    return CallbackResult::Keep;
                },
                RecvResult::Failed(_) => {
                    return CallbackResult::Remove;
                },
            }
            let t = now_nanos();
            if t >= start && t - start > HANDLER_BUDGET_NANOS {
                return CallbackResult::Keep;
            }
            fuel = fuel - 1;
        }
        CallbackResult::Keep
    }
}

/// The wait source of a registered client: readiness of the response
/// queue; the user pulls responses from the client itself.
#[verifier::reject_recursive_types(Resp)]
struct ClientSource<Resp> {
    queue: Arc<MsgQueue<ResponseEnvelope<Resp>>>,
    handler: Option<Box<dyn Handler>>,
}

impl<Resp> WaitSource for ClientSource<Resp> {
    fn is_ready(&self) -> bool {
        self.queue.has_pending()
    }

    fn invoke(&mut self) -> CallbackResult {
        match &mut self.handler {
            Some(h) => h.call(),
            None => CallbackResult::Keep,
        }
    }
}

/// The wait source of a registered guard condition: ready while the
/// trigger flag stands; invoking resets the flag.
struct GuardSource {
    guard: Arc<GuardInner>,
    handler: Option<Box<dyn Handler>>,
}

impl WaitSource for GuardSource {
    fn is_ready(&self) -> bool {
        self.guard.peek_triggered()
    }

    fn invoke(&mut self) -> CallbackResult {
        self.guard.take_triggered();
        match &mut self.handler {
            Some(h) => h.call(),
            None => CallbackResult::Keep,
        }
    }
}

/// One registration: an identity, the one-shot flag, and the source.
pub struct ConditionEntry {
    pub(crate) id: u64,
    pub(crate) is_once: bool,
    pub(crate) source: Box<dyn WaitSource>,
}

impl ConditionEntry {
    /// What the contracts see of a registration: its identity and its
    /// one-shot flag.
    pub closed spec fn model(self) -> (u64, bool) {
        (self.id, self.is_once)
    }

    /// A registration of the given identity, one-shot flag and source.
    pub fn new(id: u64, is_once: bool, source: Box<dyn WaitSource>) -> (e: ConditionEntry)
        ensures
            e.model() == (id, is_once),
    {
        ConditionEntry { id, is_once, source }
    }
}

/// The models of a registration list, in order.
pub open spec fn entry_models(es: Seq<ConditionEntry>) -> Seq<(u64, bool)> {
    es.map_values(|e: ConditionEntry| e.model())
}

/// No identity appears twice.
pub open spec fn unique_ids(ms: Seq<(u64, bool)>) -> bool {
    forall|i: int, j: int| 0 <= i < j < ms.len() ==> ms[i].0 != ms[j].0
}

/// Whether some entry carries the identity.
pub open spec fn has_id(ms: Seq<(u64, bool)>, id: u64) -> bool {
    exists|i: int| 0 <= i < ms.len() && (#[trigger] ms[i]).0 == id
}

/// The position of the identity's entry.
pub open spec fn index_of_id(ms: Seq<(u64, bool)>, id: u64) -> int {
    choose|i: int| 0 <= i < ms.len() && (#[trigger] ms[i]).0 == id
}

/// A registration list after registering an identity: replaced in place
/// when already present, appended otherwise.
pub open spec fn upserted(ms: Seq<(u64, bool)>, p: (u64, bool)) -> Seq<(u64, bool)> {
    if has_id(ms, p.0) {
        ms.update(index_of_id(ms, p.0), p)
    } else {
        ms.push(p)
    }
}

/// A registration list after dropping a set of identities, order kept.
pub open spec fn without_ids(ms: Seq<(u64, bool)>, rm: Set<u64>) -> Seq<(u64, bool)>
    decreases ms.len(),
{
    if ms.len() == 0 {
        ms
    } else {
        let rest = without_ids(ms.drop_last(), rm);
        if rm.contains(ms.last().0) {
            rest
        } else {
            rest.push(ms.last())
        }
    }
}

/// A registration list after dropping one identity.
pub open spec fn removed_id(ms: Seq<(u64, bool)>, id: u64) -> Seq<(u64, bool)> {
    without_ids(ms, Set::empty().insert(id))
}

/// Whether `post` is `pre` with some identities dropped, order kept.
pub open spec fn removed_only(pre: Seq<(u64, bool)>, post: Seq<(u64, bool)>) -> bool {
    exists|rm: Set<u64>| post == without_ids(pre, rm)
}

/// Whether the firings `fs` and removals `rm` turn the registration list
/// `pre` into `post` as one dispatch round does: removals keep the rest
/// in order, every firing is of a registered identity, a fired entry is
/// removed exactly when it was one-shot or its verdict was `Remove`, and
/// nothing is removed that did not fire.
pub open spec fn dispatch_witness(
    pre: Seq<(u64, bool)>,
    post: Seq<(u64, bool)>,
    fs: Seq<(u64, CallbackResult)>,
    rm: Seq<u64>,
) -> bool {
    &&& post == without_ids(pre, rm.to_set())
    &&& forall|jj: int| 0 <= jj < fs.len() ==> has_id(pre, (#[trigger] fs[jj]).0)
    &&& forall|jj: int|
        0 <= jj < fs.len() ==> {
            let f = #[trigger] fs[jj];
            rm.contains(f.0) <==> (once_of(pre, f.0) || f.1 == CallbackResult::Remove)
        }
    &&& forall|id: u64| rm.contains(id) ==> fired_ids(fs).contains(id)
}

/// Whether `post` can come out of dispatching `pre`: some round of
/// firings whose verdicts decide every removal.
pub open spec fn dispatch_post(pre: Seq<(u64, bool)>, post: Seq<(u64, bool)>) -> bool {
    exists|fs: Seq<(u64, CallbackResult)>, rm: Seq<u64>|
        #[trigger] dispatch_witness(pre, post, fs, rm)
}

/// Register an entry: replace the one of the same identity, else append.
#[verifier::loop_isolation(false)]
pub(crate) fn upsert_entry(entries: &mut Vec<ConditionEntry>, e: ConditionEntry)
    requires
        unique_ids(entry_models(old(entries)@)),
    ensures
        entry_models(final(entries)@) == upserted(entry_models(old(entries)@), e.model()),
        unique_ids(entry_models(final(entries)@)),
{
    let ghost ms = entry_models(entries@);
    let id = e.id;
    let n = entries.len();
    let mut i: usize = 0;
    while i < n
        invariant
            entries@.len() == n,
            ms == entry_models(entries@),
            unique_ids(ms),
            ms.len() == n,
            0 <= i <= n,
            id == e.model().0,
            forall|k: int| 0 <= k < i ==> (#[trigger] ms[k]).0 != id,
        decreases n - i,
    {
        if entries[i].id == id {
            proof {
                assert(ms[i as int].0 == id);
                assert(has_id(ms, id));
                let j = index_of_id(ms, id);
                assert(0 <= j < ms.len() && ms[j].0 == id);
                assert(j == i as int);
            }
            entries.set(i, e);
            proof {
                assert(entry_models(entries@) =~= ms.update(i as int, e.model()));
                assert forall|a: int, b: int|
                    0 <= a < b < entry_models(entries@).len() implies entry_models(entries@)[a].0
                    != entry_models(entries@)[b].0 by {
                    assert(ms[a].0 != ms[b].0);
                }
            }
            return ;
        }
        i = i + 1;
    }
    proof {
        assert forall|k: int| 0 <= k < ms.len() implies (#[trigger] ms[k]).0 != id by {}
        assert(!has_id(ms, id));
    }
    entries.push(e);
    proof {
        assert(entry_models(entries@) =~= ms.push(e.model()));
        assert forall|a: int, b: int|
            0 <= a < b < entry_models(entries@).len() implies entry_models(entries@)[a].0
            != entry_models(entries@)[b].0 by {
            if b < ms.len() {
                assert(ms[a].0 != ms[b].0);
            } else {
                assert(entry_models(entries@)[b] == e.model());
                assert(ms[a].0 != id);
            }
        }
    }
}

/// Dropping an absent identity changes nothing.
proof fn lemma_without_absent(ms: Seq<(u64, bool)>, id: u64, rm: Set<u64>)
    requires
        !has_id(ms, id),
    ensures
        without_ids(ms, rm.insert(id)) == without_ids(ms, rm),
    decreases ms.len(),
{
    if ms.len() > 0 {
        assert forall|i: int| 0 <= i < ms.drop_last().len() implies (#[trigger] ms.drop_last()[i]).0
            != id by {
            assert(ms[i].0 != id);
        }
        lemma_without_absent(ms.drop_last(), id, rm);
        assert(ms.last().0 != id) by {
            assert(ms[ms.len() - 1].0 != id);
        }
    }
}

/// Dropping nothing changes nothing.
proof fn lemma_without_empty(ms: Seq<(u64, bool)>)
    ensures
        without_ids(ms, Set::empty()) == ms,
    decreases ms.len(),
{
    if ms.len() > 0 {
        lemma_without_empty(ms.drop_last());
        assert(without_ids(ms, Set::empty()) =~= ms);
    }
}

/// Dropping identities keeps the rest unique.
proof fn lemma_without_unique(ms: Seq<(u64, bool)>, rm: Set<u64>)
    requires
        unique_ids(ms),
    ensures
        unique_ids(without_ids(ms, rm)),
        forall|i: int|
            0 <= i < without_ids(ms, rm).len() ==> has_id(ms, (#[trigger] without_ids(ms, rm)[i]).0),
    decreases ms.len(),
{
    if ms.len() > 0 {
        assert forall|a: int, b: int|
            0 <= a < b < ms.drop_last().len() implies (#[trigger] ms.drop_last()[a]).0
            != (#[trigger] ms.drop_last()[b]).0 by {
            assert(ms[a].0 != ms[b].0);
        }
        lemma_without_unique(ms.drop_last(), rm);
        let rest = without_ids(ms.drop_last(), rm);
        assert forall|i: int| 0 <= i < rest.len() implies has_id(ms, (#[trigger] rest[i]).0) by {
            assert(has_id(ms.drop_last(), rest[i].0));
            let w = choose|k: int|
                0 <= k < ms.drop_last().len() && (#[trigger] ms.drop_last()[k]).0 == rest[i].0;
            assert(ms[w].0 == rest[i].0);
        }
        if !rm.contains(ms.last().0) {
            assert forall|a: int, b: int|
                0 <= a < b < without_ids(ms, rm).len() implies (#[trigger] without_ids(ms, rm)[a]).0
                != (#[trigger] without_ids(ms, rm)[b]).0 by {
                if b < rest.len() {
                } else {
                    assert(without_ids(ms, rm)[b] == ms.last());
                    assert(has_id(ms.drop_last(), rest[a].0));
                    let w = choose|k: int|
                        0 <= k < ms.drop_last().len() && (#[trigger] ms.drop_last()[k]).0
                            == rest[a].0;
                    assert(ms[w].0 == rest[a].0);
                    assert(ms[w].0 != ms[ms.len() - 1].0);
                }
            }
        }
    }
}

/// Remove the entry of the given identity, if present.
#[verifier::loop_isolation(false)]
pub(crate) fn remove_entry(entries: &mut Vec<ConditionEntry>, id: u64)
    requires
        unique_ids(entry_models(old(entries)@)),
    ensures
        entry_models(final(entries)@) == removed_id(entry_models(old(entries)@), id),
        unique_ids(entry_models(final(entries)@)),
{
    let ghost ms = entry_models(entries@);
    let ghost rm = Set::empty().insert(id);
    let n = entries.len();
    let mut i: usize = 0;
    while i < n
        invariant
            entries@.len() == n,
            ms == entry_models(entries@),
            unique_ids(ms),
            ms.len() == n,
            0 <= i <= n,
            forall|k: int| 0 <= k < i ==> (#[trigger] ms[k]).0 != id,
        decreases n - i,
    {
        if entries[i].id == id {
            proof {
                assert(ms[i as int] == entries@[i as int].model());
                assert(ms[i as int].0 == id);
            }
            entries.remove(i);
            proof {
                lemma_remove_at(ms, i as int, id);
                assert(entry_models(entries@) =~= ms.remove(i as int));
                lemma_without_unique(ms, rm);
            }
            return ;
        }
        i = i + 1;
    }
    proof {
        assert forall|k: int| 0 <= k < ms.len() implies (#[trigger] ms[k]).0 != id by {}
        assert(!has_id(ms, id));
        lemma_without_absent(ms, id, Set::empty());
        lemma_without_empty(ms);
    }
}

/// Removing the one entry of an identity is dropping that identity.
proof fn lemma_remove_at(ms: Seq<(u64, bool)>, i: int, id: u64)
    requires
        unique_ids(ms),
        0 <= i < ms.len(),
        ms[i].0 == id,
        forall|k: int| 0 <= k < i ==> (#[trigger] ms[k]).0 != id,
    ensures
        ms.remove(i) == removed_id(ms, id),
    decreases ms.len(),
{
    let rm = Set::empty().insert(id);
    if i == ms.len() - 1 {
        assert(ms.drop_last() =~= ms.remove(i));
        assert forall|k: int| 0 <= k < ms.drop_last().len() implies (#[trigger] ms.drop_last()[k]).0
            != id by {
            assert(ms[k].0 != ms[i].0);
        }
        assert(!has_id(ms.drop_last(), id));
        lemma_without_absent(ms.drop_last(), id, Set::empty());
        lemma_without_empty(ms.drop_last());
        assert(without_ids(ms, rm) == without_ids(ms.drop_last(), rm));
    } else {
        assert forall|a: int, b: int|
            0 <= a < b < ms.drop_last().len() implies (#[trigger] ms.drop_last()[a]).0
            != (#[trigger] ms.drop_last()[b]).0 by {
            assert(ms[a].0 != ms[b].0);
        }
        lemma_remove_at(ms.drop_last(), i, id);
        assert(ms.last().0 != id) by {
            assert(ms[ms.len() - 1].0 != ms[i].0);
        }
        assert(without_ids(ms, rm) == without_ids(ms.drop_last(), rm).push(ms.last()));
        assert(ms.remove(i) =~= ms.drop_last().remove(i).push(ms.last()));
    }
}

/// Dispatch one registration class: for each ready entry, in order, run
/// its handler once; drop it when the handler said `Remove` or it was
/// registered one-shot.  Returns the identities fired and the identities
/// removed.  Every entry registered one-shot that fired is absent on
/// return.
/// Membership in a sequence extended by one element.
proof fn lemma_push_contains(s: Seq<u64>, x: u64, a: u64)
    ensures
        s.push(x).contains(a) <==> (s.contains(a) || a == x),
{
    if s.contains(a) {
        let w = choose|k: int| 0 <= k < s.len() && s[k] == a;
        assert(s.push(x)[w] == a);
    }
    if a == x {
        assert(s.push(x)[s.len() as int] == a);
    }
    if s.push(x).contains(a) {
        let w = choose|k: int| 0 <= k < s.push(x).len() && s.push(x)[k] == a;
        if w < s.len() {
            assert(s[w] == a);
        }
    }
}

/// The identities of a fired list, in firing order.
pub open spec fn fired_ids(fs: Seq<(u64, CallbackResult)>) -> Seq<u64> {
    fs.map_values(|p: (u64, CallbackResult)| p.0)
}

/// The one-shot flag of the entry registered under `id`.
pub open spec fn once_of(ms: Seq<(u64, bool)>, id: u64) -> bool {
    ms[index_of_id(ms, id)].1
}

/// Appending a firing appends its identity.
proof fn lemma_fired_push(
    pre: Seq<(u64, CallbackResult)>,
    cur: Seq<(u64, CallbackResult)>,
    x: (u64, CallbackResult),
)
    requires
        cur == pre.push(x),
    ensures
        fired_ids(cur) == fired_ids(pre).push(x.0),
        cur.len() == pre.len() + 1,
        cur[pre.len() as int] == x,
        forall|jj: int| 0 <= jj < pre.len() ==> #[trigger] cur[jj] == pre[jj],
{
    assert(cur[pre.len() as int] == x);
    assert(fired_ids(cur) =~= fired_ids(pre).push(x.0));
}

#[verifier::loop_isolation(false)]
#[verifier::rlimit(100)]
/// Dispatch one registration class: for each ready entry, in order, run
/// its handler once and record its verdict; drop the entry exactly when
/// the verdict was `Remove` or it was registered one-shot.  Returns the
/// firings — identity and verdict, in order — and the identities
/// removed: exactly the fired one-shot entries and the fired entries
/// whose verdict was `Remove`, and no others.
pub fn dispatch_entries(entries: &mut Vec<ConditionEntry>) -> (r: (
    Vec<(u64, CallbackResult)>,
    Vec<u64>,
))
    requires
        unique_ids(entry_models(old(entries)@)),
    ensures
        entry_models(final(entries)@) == without_ids(
            entry_models(old(entries)@),
            r.1@.to_set(),
        ),
        unique_ids(entry_models(final(entries)@)),
        forall|jj: int|
            0 <= jj < r.0@.len() ==> has_id(entry_models(old(entries)@), (#[trigger] r.0@[jj]).0),
        forall|a: int, b: int| 0 <= a < b < r.0@.len() ==> r.0@[a].0 != r.0@[b].0,
        forall|jj: int|
            0 <= jj < r.0@.len() ==> {
                let f = #[trigger] r.0@[jj];
                r.1@.contains(f.0) <==> (once_of(entry_models(old(entries)@), f.0) || f.1
                    == CallbackResult::Remove)
            },
        forall|id: u64| r.1@.contains(id) ==> fired_ids(r.0@).contains(id),
        forall|k: int|
            0 <= k < entry_models(old(entries)@).len() ==> {
                let p = #[trigger] entry_models(old(entries)@)[k];
                p.1 && fired_ids(r.0@).contains(p.0) ==> r.1@.contains(p.0)
            },
{
    let ghost es0 = entries@;
    let ghost ms = entry_models(es0);
    let mut fired: Vec<(u64, CallbackResult)> = Vec::new();
    let mut removed: Vec<u64> = Vec::new();
    let n = entries.len();
    let mut j: usize = 0;
    let mut i: usize = 0;
    proof {
        lemma_without_empty(Seq::<(u64, bool)>::empty());
        assert(ms.take(0) =~= Seq::<(u64, bool)>::empty());
        assert(entries@.take(0) =~= Seq::<ConditionEntry>::empty());
        assert(entry_models(entries@.take(0)) =~= Seq::<(u64, bool)>::empty());
        assert(without_ids(ms.take(0), removed@.to_set()) =~= entry_models(entries@.take(0)));
        assert(entries@ =~= entries@.take(0).add(es0.skip(0)));
        assert(fired_ids(fired@) =~= Seq::<u64>::empty());
    }
    while j < n
        invariant
            n == ms.len(),
            ms == entry_models(es0),
            es0.len() == n,
            unique_ids(ms),
            0 <= j <= n,
            0 <= i <= j,
            entries@.len() == i + (n - j),
            entries@ == entries@.take(i as int).add(es0.skip(j as int)),
            without_ids(ms.take(j as int), removed@.to_set()) == entry_models(
                entries@.take(i as int),
            ),
            forall|id: u64| removed@.contains(id) ==> fired_ids(fired@).contains(id),
            forall|jj: int|
                0 <= jj < fired@.len() ==> has_id(ms.take(j as int), (#[trigger] fired@[jj]).0),
            forall|a: int, b: int| 0 <= a < b < fired@.len() ==> fired@[a].0 != fired@[b].0,
            forall|jj: int|
                0 <= jj < fired@.len() ==> {
                    let f = #[trigger] fired@[jj];
                    removed@.contains(f.0) <==> (once_of(ms, f.0) || f.1
                        == CallbackResult::Remove)
                },
            forall|k: int|
                0 <= k < j ==> {
                    let p = #[trigger] ms[k];
                    p.1 && fired_ids(fired@).contains(p.0) ==> removed@.contains(p.0)
                },
        decreases n - j,
    {
        let ghost pre = entries@;
        let ghost kept = entries@.take(i as int);
        let ghost cur = ms[j as int];
        let ghost fired0 = fired@;
        let ghost removed0 = removed@;
        proof {
            assert(pre[i as int] == es0.skip(j as int)[0]);
            assert(es0.skip(j as int)[0] == es0[j as int]);
            assert(entry_models(es0)[j as int] == es0[j as int].model());
            assert(pre[i as int].model() == cur);
            // cur's identity is new to the processed prefix
            assert forall|jj: int| 0 <= jj < fired0.len() implies (#[trigger] fired0[jj]).0
                != cur.0 by {
                assert(has_id(ms.take(j as int), fired0[jj].0));
                let w = choose|k: int|
                    0 <= k < ms.take(j as int).len() && (#[trigger] ms.take(j as int)[k]).0
                        == fired0[jj].0;
                assert(ms[w].0 == fired0[jj].0);
                assert(ms[w].0 != ms[j as int].0);
            }
            assert(!fired_ids(fired0).contains(cur.0)) by {
                if fired_ids(fired0).contains(cur.0) {
                    let w = choose|k: int|
                        0 <= k < fired_ids(fired0).len() && fired_ids(fired0)[k] == cur.0;
                    assert(fired0[w].0 == cur.0);
                }
            }
            assert(!removed0.contains(cur.0));
        }
        let ready = entries[i].source.is_ready();
        if ready {
            let res;
            {
                let ent = &mut entries[i];
                res = ent.source.invoke();
            }
            proof {
                // only the source of position i may have changed
                assert(entries@.len() == pre.len());
                assert(entries@[i as int].model() == cur);
                assert forall|k: int| 0 <= k < pre.len() && k != i implies entries@[k]
                    == pre[k] by {}
                assert(entries@.take(i as int) =~= kept);
                assert(entries@.skip(i as int + 1) =~= pre.skip(i as int + 1));
            }
            let id = entries[i].id;
            let once = entries[i].is_once;
            fired.push((id, res));
            proof {
                assert(id == cur.0);
                assert(once == cur.1);
                lemma_fired_push(fired0, fired@, (id, res));
                // the registered one-shot flag is the current entry's
                assert(ms[j as int].0 == id);
                assert(has_id(ms, id)) by {
                    assert(ms[j as int].0 == id);
                }
                let w = index_of_id(ms, id);
                assert(0 <= w < ms.len() && ms[w].0 == id);
                assert(w == j as int);
                assert(once_of(ms, id) == cur.1);
                assert(ms.take(j as int + 1) =~= ms.take(j as int).push(cur));
                assert(ms.take(j as int + 1).drop_last() =~= ms.take(j as int));
                assert(has_id(ms.take(j as int + 1), cur.0)) by {
                    assert(ms.take(j as int + 1)[j as int].0 == cur.0);
                }
                assert forall|jj: int| 0 <= jj < fired@.len() implies has_id(
                    ms.take(j as int + 1),
                    (#[trigger] fired@[jj]).0,
                ) by {
                    if jj < fired0.len() {
                        assert(fired@[jj] == fired0[jj]);
                        assert(has_id(ms.take(j as int), fired0[jj].0));
                        let w2 = choose|k: int|
                            0 <= k < ms.take(j as int).len() && (#[trigger] ms.take(
                                j as int,
                            )[k]).0 == fired0[jj].0;
                        assert(ms.take(j as int + 1)[w2].0 == fired0[jj].0);
                    } else {
                        assert(fired@[jj] == (id, res));
                    }
                }
            }
            if once || res == CallbackResult::Remove {
                entries.remove(i);
                removed.push(id);
                proof {
                    assert(entries@ =~= kept.add(es0.skip(j as int + 1)));
                    assert(entries@.take(i as int) =~= kept);
                    let rm1 = removed@.to_set();
                    assert(removed@ =~= removed0.push(cur.0));
                    assert forall|a: u64| #[trigger] removed@.contains(a) implies removed0.contains(
                        a,
                    ) || a == cur.0 by {
                        lemma_push_contains(removed0, cur.0, a);
                    }
                    assert forall|a: u64| removed0.contains(a) || a == cur.0 implies #[trigger] removed@.contains(
                        a,
                    ) by {
                        lemma_push_contains(removed0, cur.0, a);
                    }
                    assert(removed@.contains(cur.0)) by {
                        assert(removed@[removed@.len() - 1] == cur.0);
                    }
                    assert(rm1.contains(cur.0));
                    assert forall|k: int| 0 <= k < ms.take(j as int).len() implies (
                    #[trigger] ms.take(j as int)[k]).0 != cur.0 by {
                        assert(ms[k].0 != ms[j as int].0);
                    }
                    assert(!has_id(ms.take(j as int), cur.0));
                    let rm0 = removed0.to_set();
                    assert(rm1 =~= rm0.insert(cur.0));
                    lemma_without_absent(ms.take(j as int), cur.0, rm0);
                    assert(without_ids(ms.take(j as int + 1), rm1) == without_ids(
                        ms.take(j as int),
                        rm1,
                    ));
                    assert(without_ids(ms.take(j as int), rm1) == without_ids(
                        ms.take(j as int),
                        rm0,
                    ));
                    assert(without_ids(ms.take(j as int), rm0) == entry_models(kept));
                    // the verdict decides removal, entry by entry
                    assert forall|jj: int| 0 <= jj < fired@.len() implies {
                        let f = #[trigger] fired@[jj];
                        removed@.contains(f.0) <==> (once_of(ms, f.0) || f.1
                            == CallbackResult::Remove)
                    } by {
                        let f = fired@[jj];
                        if jj < fired0.len() {
                            assert(f == fired0[jj]);
                            assert(f.0 != cur.0);
                        } else {
                            assert(f == (id, res));
                        }
                    }
                    assert forall|k: int| 0 <= k < j + 1 implies {
                        let p = #[trigger] ms[k];
                        p.1 && fired_ids(fired@).contains(p.0) ==> removed@.contains(p.0)
                    } by {
                        let p = ms[k];
                        if p.1 && fired_ids(fired@).contains(p.0) {
                            if k < j {
                                assert(p.0 != cur.0) by {
                                    assert(ms[k].0 != ms[j as int].0);
                                }
                                lemma_push_contains(fired_ids(fired0), cur.0, p.0);
                                assert(fired_ids(fired0).contains(p.0));
                                assert(removed0.contains(p.0));
                            }
                        }
                    }
                    assert forall|a: u64| #[trigger] removed@.contains(a) implies fired_ids(
                        fired@,
                    ).contains(a) by {
                        lemma_push_contains(fired_ids(fired0), cur.0, a);
                        if removed0.contains(a) {
                            assert(fired_ids(fired0).contains(a));
                        } else {
                            assert(a == cur.0);
                        }
                    }
                }
            } else {
                i = i + 1;
                proof {
                    assert(entries@.take(i as int) =~= kept.push(entries@[i as int - 1]));
                    assert(entry_models(entries@.take(i as int)) =~= entry_models(kept).push(
                        cur,
                    ));
                    let rm = removed@.to_set();
                    assert(removed@ == removed0);
                    assert(!rm.contains(cur.0));
                    assert(without_ids(ms.take(j as int + 1), rm) == without_ids(
                        ms.take(j as int),
                        rm,
                    ).push(cur));
                    assert(entries@ =~= entries@.take(i as int).add(es0.skip(j as int + 1)));
                    // the kept entry's verdict was Keep and it was not one-shot
                    assert forall|jj: int| 0 <= jj < fired@.len() implies {
                        let f = #[trigger] fired@[jj];
                        removed@.contains(f.0) <==> (once_of(ms, f.0) || f.1
                            == CallbackResult::Remove)
                    } by {
                        let f = fired@[jj];
                        if jj < fired0.len() {
                            assert(f == fired0[jj]);
                        } else {
                            assert(f == (id, res));
                            assert(!removed@.contains(cur.0));
                            assert(once_of(ms, id) == cur.1);
                        }
                    }
                    assert forall|k: int| 0 <= k < j + 1 implies {
                        let p = #[trigger] ms[k];
                        p.1 && fired_ids(fired@).contains(p.0) ==> removed@.contains(p.0)
                    } by {
                        let p = ms[k];
                        if p.1 && fired_ids(fired@).contains(p.0) {
                            if k < j {
                                assert(p.0 != cur.0) by {
                                    assert(ms[k].0 != ms[j as int].0);
                                }
                                lemma_push_contains(fired_ids(fired0), cur.0, p.0);
                                assert(fired_ids(fired0).contains(p.0));
                            } else {
                                assert(p == cur);
                                assert(!cur.1);
                            }
                        }
                    }
                    assert forall|a: u64| #[trigger] removed@.contains(a) implies fired_ids(
                        fired@,
                    ).contains(a) by {
                        assert(removed0.contains(a));
                        lemma_push_contains(fired_ids(fired0), cur.0, a);
                        assert(fired_ids(fired0).contains(a));
                    }
                }
            }
        } else {
            i = i + 1;
            proof {
                assert(entries@.take(i as int) =~= kept.push(entries@[i as int - 1]));
                assert(entry_models(entries@.take(i as int)) =~= entry_models(kept).push(cur));
                let rm = removed@.to_set();
                assert(ms.take(j as int + 1) =~= ms.take(j as int).push(cur));
                assert(ms.take(j as int + 1).drop_last() =~= ms.take(j as int));
                assert(!rm.contains(cur.0)) by {
                    if rm.contains(cur.0) {
                        assert(removed@.contains(cur.0));
                        assert(fired_ids(fired@).contains(cur.0));
                    }
                }
                assert(without_ids(ms.take(j as int + 1), rm) == without_ids(
                    ms.take(j as int),
                    rm,
                ).push(cur));
                assert(entries@ =~= entries@.take(i as int).add(es0.skip(j as int + 1)));
                assert forall|jj: int| 0 <= jj < fired@.len() implies has_id(
                    ms.take(j as int + 1),
                    (#[trigger] fired@[jj]).0,
                ) by {
                    assert(has_id(ms.take(j as int), fired@[jj].0));
                    let w = choose|k: int|
                        0 <= k < ms.take(j as int).len() && (#[trigger] ms.take(j as int)[k]).0
                            == fired@[jj].0;
                    assert(ms.take(j as int + 1)[w].0 == fired@[jj].0);
                }
                assert forall|k: int| 0 <= k < j + 1 implies {
                    let p = #[trigger] ms[k];
                    p.1 && fired_ids(fired@).contains(p.0) ==> removed@.contains(p.0)
                } by {
                    let p = ms[k];
                    if p.1 && fired_ids(fired@).contains(p.0) {
                        if k == j {
                            let w = choose|q: int|
                                0 <= q < fired_ids(fired@).len() && fired_ids(fired@)[q]
                                    == cur.0;
                            assert(fired@[w].0 == cur.0);
                        }
                    }
                }
            }
        }
        j = j + 1;
    }
    proof {
        assert(ms.take(n as int) =~= ms);
        assert(es0.skip(n as int) =~= Seq::<ConditionEntry>::empty());
        assert(entries@.take(i as int) =~= entries@);
        lemma_without_unique(ms, removed@.to_set());
        assert forall|jj: int| 0 <= jj < fired@.len() implies has_id(
            ms,
            (#[trigger] fired@[jj]).0,
        ) by {
            assert(has_id(ms.take(n as int), fired@[jj].0));
            let w = choose|k: int|
                0 <= k < ms.take(n as int).len() && (#[trigger] ms.take(n as int)[k]).0
                    == fired@[jj].0;
            assert(ms[w].0 == fired@[jj].0);
        }
    }
    (fired, removed)
}

/// The kinds of a timer item sequence, in order.
pub open spec fn kinds_of(s: Seq<TimerEntry>) -> Seq<TimerType> {
    s.map_values(|e: TimerEntry| e.kind_spec())
}

/// Mapping to kinds commutes with insertion.
proof fn lemma_kinds_insert(s: Seq<TimerEntry>, i: int, e: TimerEntry)
    requires
        0 <= i <= s.len(),
    ensures
        kinds_of(s.insert(i, e)) =~= kinds_of(s).insert(i, e.kind_spec()),
{
    let a = kinds_of(s.insert(i, e));
    let b = kinds_of(s).insert(i, e.kind_spec());
    s.insert_ensures(i, e);
    kinds_of(s).insert_ensures(i, e.kind_spec());
    assert forall|k: int| 0 <= k < a.len() implies a[k] == b[k] by {
        if k < i {
            assert(s.insert(i, e)[k] == s[k]);
            assert(b[k] == kinds_of(s)[k]);
        } else if k == i {
            assert(s.insert(i, e)[k] == e);
            assert(b[k] == e.kind_spec());
        } else {
            assert(s.insert(i, e)[(k - 1) + 1] == s[k - 1]);
            assert(b[(k - 1) + 1] == kinds_of(s)[k - 1]);
        }
    }
}

/// A pending timer as the contracts see it: one-shot, or periodic with
/// its reload period in nanoseconds.
#[derive(Clone, Copy, Debug, PartialEq, Eq, Structural)]
pub enum TimerType {
    /// Fires once and is gone.
    OneShot,
    /// Re-arms itself with the carried period after every firing.
    WallTimer(u64),
}

/// A pending timer: its kind and its handler.
pub struct TimerEntry {
    pub(crate) kind: TimerType,
    pub(crate) handler: Box<dyn Handler>,
}

impl TimerEntry {
    /// The timer's kind.
    pub closed spec fn kind_spec(self) -> TimerType {
        self.kind
    }
}

/// The single-threaded event demultiplexer.
pub struct Selector {
    pub(crate) timer: DeltaList<TimerEntry>,
    pub(crate) base_time: u64,
    pub(crate) wake_tx: Sender<u64>,
    pub(crate) wake_rx: Receiver<u64>,
    pub(crate) signal_cond: GuardCondition,
    pub(crate) subscriptions: Vec<ConditionEntry>,
    pub(crate) services: Vec<ConditionEntry>,
    pub(crate) clients: Vec<ConditionEntry>,
    pub(crate) guards: Vec<ConditionEntry>,
    pub(crate) context: Arc<Context>,
    pub(crate) context_id: u64,
}

impl Selector {
    /// The registered subscriptions: identity and one-shot flag, in
    /// registration order.
    pub closed spec fn subs(self) -> Seq<(u64, bool)> {
        entry_models(self.subscriptions@)
    }

    /// The registered servers.
    pub closed spec fn srvs(self) -> Seq<(u64, bool)> {
        entry_models(self.services@)
    }

    /// The registered clients.
    pub closed spec fn clis(self) -> Seq<(u64, bool)> {
        entry_models(self.clients@)
    }

    /// The registered guard conditions.
    pub closed spec fn gds(self) -> Seq<(u64, bool)> {
        entry_models(self.guards@)
    }

    /// The pending timers' relative delays, nearest first.
    pub closed spec fn timer_delays(self) -> Seq<u64> {
        self.timer.delay_seq()
    }

    /// The pending timers' kinds, nearest first.
    pub closed spec fn timer_kinds(self) -> Seq<TimerType> {
        kinds_of(self.timer.item_seq())
    }

    /// The instant, in nanoseconds, the head timer's delay counts from.
    pub closed spec fn base(self) -> u64 {
        self.base_time
    }

    /// The identity of the context the selector was built on.
    pub closed spec fn ctx_id(self) -> u64 {
        self.context_id
    }

    /// The timer wheel is well-formed and identities are unique within
    /// each registration class.
    pub closed spec fn wf(self) -> bool {
        &&& self.timer.wf()
        &&& unique_ids(self.subs())
        &&& unique_ids(self.srvs())
        &&& unique_ids(self.clis())
        &&& unique_ids(self.gds())
    }

    /// A selector bound to the given context, with its private shutdown
    /// guard already registered: a halt request on the context wakes it.
    pub fn new(context: Arc<Context>) -> (r: Result<Selector, ErrorKind>)
        ensures
            r is Ok,
            r matches Ok(s) ==> {
                &&& s.wf()
                &&& s.ctx_id() == context.ctx_id()
                &&& s.subs() == Seq::<(u64, bool)>::empty()
                &&& s.srvs() == Seq::<(u64, bool)>::empty()
                &&& s.clis() == Seq::<(u64, bool)>::empty()
                &&& s.gds().len() == 1
                &&& s.gds()[0].1 == false
                &&& s.timer_delays().len() == 0
            },
    {
        let (tx, rx) = wake_channel();
        let cond = GuardCondition::new(&context);
        context.register_shutdown_guard(&cond.inner);
        let now = now_nanos();
        let mut s = Selector {
            timer: DeltaList::new(),
            base_time: now,
            wake_tx: tx,
            wake_rx: rx,
            signal_cond: cond.clone(),
            subscriptions: Vec::new(),
            services: Vec::new(),
            clients: Vec::new(),
            guards: Vec::new(),
            context_id: context.id_value(),
            context,
        };
        s.add_guard_condition(&cond, None);
        Ok(s)
    }

    /// Register a guard condition; its handler, when given, runs whenever
    /// the guard fired.  Re-registering a guard replaces its handler.
    pub fn add_guard_condition(&mut self, cond: &GuardCondition, handler: Option<
        Box<dyn Handler>,
    >)
        requires
            old(self).wf(),
        ensures
            final(self).wf(),
            final(self).gds() == upserted(old(self).gds(), (cond.reg_id(), false)),
            final(self).subs() == old(self).subs(),
            final(self).srvs() == old(self).srvs(),
            final(self).clis() == old(self).clis(),
            final(self).timer_delays() == old(self).timer_delays(),
            final(self).timer_kinds() == old(self).timer_kinds(),
            final(self).base() == old(self).base(),
            final(self).ctx_id() == old(self).ctx_id(),
    {
        let id = cond.reg_id_value();
        cond.inner.wakers.add(id, &self.wake_tx);
        let source = GuardSource { guard: arc_dup(&cond.inner), handler };
        upsert_entry(&mut self.guards, ConditionEntry::new(id, false, Box::new(source)));
    }

    /// Register a subscriber with a callback.  Refused — `false`, and the
    /// selector untouched — when the subscriber was built on another
    /// context.  With `is_once` the registration is dropped after its
    /// first firing.
    pub fn add_subscriber<T: Send + Sync + 'static>(
        &mut self,
        subscriber: Subscriber<T>,
        handler: Box<dyn SubscriberCallback<T>>,
        is_once: bool,
    ) -> (r: bool)
        requires
            old(self).wf(),
        ensures
            final(self).wf(),
            r == (subscriber.ctx_id() == old(self).ctx_id()),
            r ==> final(self).subs() == upserted(
                old(self).subs(),
                (subscriber.reg_id(), is_once),
            ),
            !r ==> final(self).subs() == old(self).subs(),
            final(self).srvs() == old(self).srvs(),
            final(self).clis() == old(self).clis(),
            final(self).gds() == old(self).gds(),
            final(self).timer_delays() == old(self).timer_delays(),
            final(self).timer_kinds() == old(self).timer_kinds(),
            final(self).base() == old(self).base(),
            final(self).ctx_id() == old(self).ctx_id(),
    {
        if subscriber.context_id_value() != self.context_id {
            return false;
        }
        let id = subscriber.reg_id_value();
        subscriber.wakers.add(id, &self.wake_tx);
        let source = SubscriptionSource { sub: subscriber, handler: Some(handler) };
        upsert_entry(&mut self.subscriptions, ConditionEntry::new(id, is_once, Box::new(source)));
        true
    }

    /// Drop a subscriber's registration and its wake entry.
    pub fn remove_subscriber<T>(&mut self, subscriber: &Subscriber<T>)
        requires
            old(self).wf(),
        ensures
            final(self).wf(),
            final(self).subs() == removed_id(old(self).subs(), subscriber.reg_id()),
            final(self).srvs() == old(self).srvs(),
            final(self).clis() == old(self).clis(),
            final(self).gds() == old(self).gds(),
            final(self).timer_delays() == old(self).timer_delays(),
            final(self).timer_kinds() == old(self).timer_kinds(),
            final(self).base() == old(self).base(),
            final(self).ctx_id() == old(self).ctx_id(),
    {
        let id = subscriber.reg_id_value();
        subscriber.wakers.remove(id);
        remove_entry(&mut self.subscriptions, id);
    }

    /// Drop the subscription registered under the given identity — take
    /// the identity from `Subscriber::reg_id_value` before handing the
    /// subscriber to `add_subscriber`.  The subscription's wake entry
    /// stays behind; a stale wake is only a hint and is ignored.
    pub fn remove_subscription(&mut self, id: u64)
        requires
            old(self).wf(),
        ensures
            final(self).wf(),
            final(self).subs() == removed_id(old(self).subs(), id),
            final(self).srvs() == old(self).srvs(),
            final(self).clis() == old(self).clis(),
            final(self).gds() == old(self).gds(),
            final(self).timer_delays() == old(self).timer_delays(),
            final(self).timer_kinds() == old(self).timer_kinds(),
            final(self).base() == old(self).base(),
            final(self).ctx_id() == old(self).ctx_id(),
    {
        remove_entry(&mut self.subscriptions, id);
    }

    /// Register a server with a callback that answers each request.
    /// Refused — `false`, and the selector untouched — when the server was
    /// built on another context.
    pub fn add_server<Req: Send + Sync + 'static, Resp: Send + Sync + 'static>(
        &mut self,
        server: Server<Req, Resp>,
        handler: Box<dyn ServiceCallback<Req, Resp>>,
        is_once: bool,
    ) -> (r: bool)
        requires
            old(self).wf(),
        ensures
            final(self).wf(),
            r == (server.ctx_id() == old(self).ctx_id()),
            r ==> final(self).srvs() == upserted(old(self).srvs(), (server.reg_id(), is_once)),
            !r ==> final(self).srvs() == old(self).srvs(),
            final(self).subs() == old(self).subs(),
            final(self).clis() == old(self).clis(),
            final(self).gds() == old(self).gds(),
            final(self).timer_delays() == old(self).timer_delays(),
            final(self).timer_kinds() == old(self).timer_kinds(),
            final(self).base() == old(self).base(),
            final(self).ctx_id() == old(self).ctx_id(),
    {
        if server.context_id_value() != self.context_id {
            return false;
        }
        let id = server.reg_id_value();
        server.wakers.add(id, &self.wake_tx);
        let source = ServerSource { server, handler: Some(handler) };
        upsert_entry(&mut self.services, ConditionEntry::new(id, is_once, Box::new(source)));
        true
    }

    /// Drop a server's registration and its wake entry.
    pub fn remove_server<Req, Resp>(&mut self, server: &Server<Req, Resp>)
        requires
            old(self).wf(),
        ensures
            final(self).wf(),
            final(self).srvs() == removed_id(old(self).srvs(), server.reg_id()),
            final(self).subs() == old(self).subs(),
            final(self).clis() == old(self).clis(),
            final(self).gds() == old(self).gds(),
            final(self).timer_delays() == old(self).timer_delays(),
            final(self).timer_kinds() == old(self).timer_kinds(),
            final(self).base() == old(self).base(),
            final(self).ctx_id() == old(self).ctx_id(),
    {
        let id = server.reg_id_value();
        server.wakers.remove(id);
        remove_entry(&mut self.services, id);
    }

    /// Drop the server registered under the given identity — take the
    /// identity from `Server::reg_id_value` before handing the server to
    /// `add_server`.  The server's wake entry stays behind; a stale wake
    /// is only a hint and is ignored.
    pub fn remove_service(&mut self, id: u64)
        requires
            old(self).wf(),
        ensures
            final(self).wf(),
            final(self).srvs() == removed_id(old(self).srvs(), id),
            final(self).subs() == old(self).subs(),
            final(self).clis() == old(self).clis(),
            final(self).gds() == old(self).gds(),
            final(self).timer_delays() == old(self).timer_delays(),
            final(self).timer_kinds() == old(self).timer_kinds(),
            final(self).base() == old(self).base(),
            final(self).ctx_id() == old(self).ctx_id(),
    {
        remove_entry(&mut self.services, id);
    }

    /// Register a client for response readiness.  The handler, when
    /// given, runs whenever a response is queued; the user pulls it from
    /// the client.  Refused when the client was built on another context.
    pub fn add_client<Req: Send + Sync + 'static, Resp: Send + Sync + 'static>(
        &mut self,
        client: &Client<Req, Resp>,
        handler: Option<Box<dyn Handler>>,
        is_once: bool,
    ) -> (r: bool)
        requires
            old(self).wf(),
        ensures
            final(self).wf(),
            r == (client.ctx_id() == old(self).ctx_id()),
            r ==> final(self).clis() == upserted(old(self).clis(), (client.reg_id(), is_once)),
            !r ==> final(self).clis() == old(self).clis(),
            final(self).subs() == old(self).subs(),
            final(self).srvs() == old(self).srvs(),
            final(self).gds() == old(self).gds(),
            final(self).timer_delays() == old(self).timer_delays(),
            final(self).timer_kinds() == old(self).timer_kinds(),
            final(self).base() == old(self).base(),
            final(self).ctx_id() == old(self).ctx_id(),
    {
        if client.context_id_value() != self.context_id {
            return false;
        }
        let id = client.reg_id_value();
        client.resp_wakers.add(id, &self.wake_tx);
        let source = ClientSource::<Resp> {
            queue: arc_dup(&client.resp_queue),
            handler,
        };
        upsert_entry(&mut self.clients, ConditionEntry::new(id, is_once, Box::new(source)));
        true
    }

    /// Drop a client's registration and its wake entry.
    pub fn remove_client<Req, Resp>(&mut self, client: &Client<Req, Resp>)
        requires
            old(self).wf(),
        ensures
            final(self).wf(),
            final(self).clis() == removed_id(old(self).clis(), client.reg_id()),
            final(self).subs() == old(self).subs(),
            final(self).srvs() == old(self).srvs(),
            final(self).gds() == old(self).gds(),
            final(self).timer_delays() == old(self).timer_delays(),
            final(self).timer_kinds() == old(self).timer_kinds(),
            final(self).base() == old(self).base(),
            final(self).ctx_id() == old(self).ctx_id(),
    {
        let id = client.reg_id_value();
        client.resp_wakers.remove(id);
        remove_entry(&mut self.clients, id);
    }
}


/// The timeout handed to the blocking wait when the nearest timer is
/// `head` nanoseconds after `base` and the clock reads `now`: zero when
/// the deadline has passed, else the gap, clamped into the signed 64-bit
/// nanosecond range.
pub open spec fn spec_timeout(base: u64, head: u64, now: u64) -> u64 {
    if base + head <= now {
        0u64
    } else if base + head - now <= MAX_WAIT_NANOS {
        (base + head - now) as u64
    } else {
        MAX_WAIT_NANOS
    }
}

/// The timer state — relative delays, kinds, base instant — after one
/// registration at delay `t` from `now`: the relative deadline is
/// measured from `now`; when the clock stands before the base instant,
/// the whole list is first pushed back and the base re-anchored, so no
/// pending deadline moves.
pub open spec fn timer_added(
    delays: Seq<u64>,
    kinds: Seq<TimerType>,
    base: u64,
    now: u64,
    t: u64,
    kind: TimerType,
) -> (Seq<u64>, Seq<TimerType>, u64) {
    if delays.len() == 0 {
        (seq![t], seq![kind], now)
    } else if now >= base {
        let delta = if now - base + t <= u64::MAX {
            (now - base + t) as u64
        } else {
            u64::MAX
        };
        (
            inserted_delays(delays, delta as int),
            kinds.insert(insert_pos(delays, delta as int), kind),
            base,
        )
    } else {
        let head0 = delays[0];
        let bumped = if head0 + (base - now) <= u64::MAX {
            (head0 + (base - now)) as u64
        } else {
            u64::MAX
        };
        let adj = delays.update(0, bumped);
        (inserted_delays(adj, t as int), kinds.insert(insert_pos(adj, t as int), kind), now)
    }
}

/// How one registration of a timer changes the selector: the timer state
/// moves to `timer_added`, everything else stays.
pub open spec fn timer_add_post(
    pre: Selector,
    post: Selector,
    now: u64,
    t: u64,
    kind: TimerType,
) -> bool {
    &&& post.subs() == pre.subs()
    &&& post.srvs() == pre.srvs()
    &&& post.clis() == pre.clis()
    &&& post.gds() == pre.gds()
    &&& post.ctx_id() == pre.ctx_id()
    &&& ({
        let after = timer_added(
            pre.timer_delays(),
            pre.timer_kinds(),
            pre.base(),
            now,
            t,
            kind,
        );
        &&& post.timer_delays() == after.0
        &&& post.timer_kinds() == after.1
        &&& post.base() == after.2
    })
}

/// A periodic timer's reload period; one-shot timers have none.
pub open spec fn period_of(k: TimerType) -> u64 {
    match k {
        TimerType::WallTimer(p) => p,
        TimerType::OneShot => 0u64,
    }
}

/// The periodic kinds of a kind sequence, in order.
pub open spec fn wall_kinds(ks: Seq<TimerType>) -> Seq<TimerType>
    decreases ks.len(),
{
    if ks.len() == 0 {
        ks
    } else {
        let rest = wall_kinds(ks.drop_last());
        if ks.last() is WallTimer {
            rest.push(ks.last())
        } else {
            rest
        }
    }
}

/// The kinds of a reload list, in order.
pub open spec fn reload_kinds(rs: Seq<(u64, TimerEntry)>) -> Seq<TimerType> {
    rs.map_values(|r: (u64, TimerEntry)| r.1.kind_spec())
}

/// Appending a periodic entry to a reload list appends its kind.
proof fn lemma_reload_push(
    pre: Seq<(u64, TimerEntry)>,
    cur: Seq<(u64, TimerEntry)>,
    p: u64,
    e: TimerEntry,
    kind: TimerType,
)
    requires
        cur == pre.push((p, e)),
        e.kind_spec() == kind,
        kind == TimerType::WallTimer(p),
        forall|i: int|
            0 <= i < pre.len() ==> (#[trigger] pre[i]).1.kind_spec() == TimerType::WallTimer(
                pre[i].0,
            ),
    ensures
        reload_kinds(cur) == reload_kinds(pre).push(kind),
        forall|i: int|
            0 <= i < cur.len() ==> (#[trigger] cur[i]).1.kind_spec() == TimerType::WallTimer(
                cur[i].0,
            ),
{
    assert(cur[pre.len() as int] == (p, e));
    assert forall|i: int| 0 <= i < cur.len() implies (#[trigger] cur[i]).1.kind_spec()
        == TimerType::WallTimer(cur[i].0) by {
        if i < pre.len() {
            assert(cur[i] == pre[i]);
        } else {
            assert(cur[i] == (p, e));
        }
    }
    assert(reload_kinds(cur) =~= reload_kinds(pre).push(kind));
}

/// The timer state after re-arming each given periodic kind, in order,
/// one period after `now`.
pub open spec fn rearmed(
    delays: Seq<u64>,
    kinds: Seq<TimerType>,
    base: u64,
    now: u64,
    reloads: Seq<TimerType>,
) -> (Seq<u64>, Seq<TimerType>, u64)
    decreases reloads.len(),
{
    if reloads.len() == 0 {
        (delays, kinds, base)
    } else {
        let s = timer_added(delays, kinds, base, now, period_of(reloads[0]), reloads[0]);
        rearmed(s.0, s.1, s.2, now, reloads.drop_first())
    }
}

impl Selector {
    /// Schedule a timer entry `t` nanoseconds after `now`.
    fn insert_timer_entry(&mut self, now: u64, t: u64, entry: TimerEntry)
        requires
            old(self).wf(),
        ensures
            final(self).wf(),
            timer_add_post(*old(self), *final(self), now, t, entry.kind_spec()),
    {
        let ghost pre_items = self.timer.item_seq();
        let ghost e0 = entry;
        proof {
            crate::delta_list::lemma_wf_len(old(self).timer);
        }
        if self.timer.is_empty() {
            self.base_time = now;
            self.timer.insert(t, entry);
            proof {
                assert(pre_items =~= Seq::<TimerEntry>::empty());
                assert(insert_pos(Seq::<u64>::empty(), t as int) == 0);
                assert(self.timer.delay_seq() =~= seq![t]);
                assert(self.timer.item_seq() =~= pre_items.insert(0, e0));
                lemma_kinds_insert(pre_items, 0, e0);
                assert(kinds_of(pre_items) =~= Seq::<TimerType>::empty());
                assert(self.timer_kinds() =~= seq![e0.kind_spec()]);
            }
        } else if now >= self.base_time {
            let gap = now - self.base_time;
            let delta = if t <= u64::MAX - gap {
                gap + t
            } else {
                u64::MAX
            };
            let ghost pos = insert_pos(self.timer.delay_seq(), delta as int);
            self.timer.insert(delta, entry);
            proof {
                crate::delta_list::lemma_insert_pos_range::<TimerEntry>(
                    old(self).timer.delay_seq(),
                    delta as int,
                );
                lemma_kinds_insert(pre_items, pos, e0);
            }
        } else {
            let back = self.base_time - now;
            self.timer.add_front_delay(back);
            self.base_time = now;
            let ghost adj = self.timer.delay_seq();
            let ghost pos = insert_pos(adj, t as int);
            self.timer.insert(t, entry);
            proof {
                let pre = *old(self);
                let head0 = pre.timer_delays()[0];
                let bumped = if head0 + (pre.base() - now) <= u64::MAX {
                    (head0 + (pre.base() - now)) as u64
                } else {
                    u64::MAX
                };
                assert(adj =~= pre.timer_delays().update(0, bumped));
                crate::delta_list::lemma_insert_pos_range::<TimerEntry>(adj, t as int);
                lemma_kinds_insert(pre_items, pos, e0);
            }
        }
    }

    /// Schedule a one-shot timer entry at delay `t` from `now`, as a value
    /// the contracts can follow exactly.
    pub fn add_timer_at(&mut self, now: u64, t: u64, handler: Box<dyn Handler>)
        requires
            old(self).wf(),
        ensures
            final(self).wf(),
            timer_add_post(*old(self), *final(self), now, t, TimerType::OneShot),
    {
        self.insert_timer_entry(now, t, TimerEntry { kind: TimerType::OneShot, handler });
    }

    /// Schedule a handler to run once, `t` nanoseconds from now.
    pub fn add_timer(&mut self, t: u64, handler: Box<dyn Handler>)
        requires
            old(self).wf(),
        ensures
            final(self).wf(),
            exists|now: u64|
                #[trigger] timer_add_post(*old(self), *final(self), now, t, TimerType::OneShot),
    {
        let now = now_nanos();
        self.add_timer_at(now, t, handler);
    }

    /// Schedule a handler to run every `t` nanoseconds: after each firing
    /// the timer re-arms itself with the same period.
    pub fn add_wall_timer(&mut self, t: u64, handler: Box<dyn Handler>)
        requires
            old(self).wf(),
        ensures
            final(self).wf(),
            exists|now: u64|
                #[trigger] timer_add_post(
                    *old(self),
                    *final(self),
                    now,
                    t,
                    TimerType::WallTimer(t),
                ),
    {
        let now = now_nanos();
        self.insert_timer_entry(now, t, TimerEntry { kind: TimerType::WallTimer(t), handler });
    }

    /// How many subscriptions are registered.
    pub fn subscription_count(&self) -> (r: usize)
        requires
            self.wf(),
        ensures
            r == self.subs().len(),
    {
        self.subscriptions.len()
    }

    /// How many servers are registered.
    pub fn server_count(&self) -> (r: usize)
        requires
            self.wf(),
        ensures
            r == self.srvs().len(),
    {
        self.services.len()
    }

    /// How many clients are registered.
    pub fn client_count(&self) -> (r: usize)
        requires
            self.wf(),
        ensures
            r == self.clis().len(),
    {
        self.clients.len()
    }

    /// How many guard conditions are registered.
    pub fn guard_count(&self) -> (r: usize)
        requires
            self.wf(),
        ensures
            r == self.gds().len(),
    {
        self.guards.len()
    }

    /// How many timers are pending.
    pub fn timer_len(&self) -> (r: usize)
        requires
            self.wf(),
        ensures
            r == self.timer_delays().len(),
    {
        self.timer.len()
    }

    /// The timeout the blocking wait gets when the clock reads `now`:
    /// nothing — block until woken — exactly when no timer is pending.
    pub fn compute_timeout(&self, now: u64) -> (r: Option<u64>)
        requires
            self.wf(),
        ensures
            (r is None) <==> self.timer_delays().len() == 0,
            self.timer_delays().len() > 0 ==> r == Some(
                spec_timeout(self.base(), self.timer_delays()[0], now),
            ),
    {
        match self.timer.front_delta() {
            None => None,
            Some(head) => {
                if self.base_time <= now {
                    let elapsed = now - self.base_time;
                    if head <= elapsed {
                        Some(0)
                    } else {
                        let t = head - elapsed;
                        Some(
                            if t > MAX_WAIT_NANOS {
                                MAX_WAIT_NANOS
                            } else {
                                t
                            },
                        )
                    }
                } else {
                    let gap = self.base_time - now;
                    let t = if head <= u64::MAX - gap {
                        head + gap
                    } else {
                        u64::MAX
                    };
                    Some(
                        if t > MAX_WAIT_NANOS {
                            MAX_WAIT_NANOS
                        } else {
                            t
                        },
                    )
                }
            },
        }
    }

    /// Whether any registered source is ready at this instant.
    fn any_ready(&self) -> bool {
        let mut i: usize = 0;
        let n1 = self.subscriptions.len();
        while i < n1
            invariant
                i <= n1,
                n1 == self.subscriptions@.len(),
            decreases n1 - i,
        {
            if self.subscriptions[i].source.is_ready() {
                return true;
            }
            i = i + 1;
        }
        let n2 = self.services.len();
        i = 0;
        while i < n2
            invariant
                i <= n2,
                n2 == self.services@.len(),
            decreases n2 - i,
        {
            if self.services[i].source.is_ready() {
                return true;
            }
            i = i + 1;
        }
        let n3 = self.clients.len();
        i = 0;
        while i < n3
            invariant
                i <= n3,
                n3 == self.clients@.len(),
            decreases n3 - i,
        {
            if self.clients[i].source.is_ready() {
                return true;
            }
            i = i + 1;
        }
        let n4 = self.guards.len();
        i = 0;
        while i < n4
            invariant
                i <= n4,
                n4 == self.guards@.len(),
            decreases n4 - i,
        {
            if self.guards[i].source.is_ready() {
                return true;
            }
            i = i + 1;
        }
        false
    }

    /// Clear wake hints left over from earlier rounds.
    fn drain_stale(&self) {
        let mut fuel: u64 = STALE_WAKE_LIMIT;
        while fuel > 0
            decreases fuel,
        {
            match wake_try_recv(&self.wake_rx) {
                Some(_) => {},
                None => {
                    return ;
                },
            }
            fuel = fuel - 1;
        }
    }

    /// Block until a wake arrives or the nearest timer is due; `Signaled`
    /// when a halt was requested before or during the wait.  With no timer
    /// pending and nothing ready, this blocks until a wake arrives.
    fn wait_block(&self) -> (r: Result<(), ErrorKind>)
        requires
            self.wf(),
        ensures
            r matches Err(e) ==> e == ErrorKind::Signaled,
    {
        if self.context.is_halt() {
            return Err(ErrorKind::Signaled);
        }
        if !self.any_ready() {
            let now = now_nanos();
            match self.compute_timeout(now) {
                None => {
                    wake_recv(&self.wake_rx);
                },
                Some(ns) => {
                    if ns > 0 {
                        wake_recv_timeout(&self.wake_rx, ns);
                    }
                },
            }
        }
        self.drain_stale();
        if self.context.is_halt() {
            return Err(ErrorKind::Signaled);
        }
        Ok(())
    }

    /// Fire every due timer: pop it, advance the base instant by its
    /// delay — which keeps every other deadline in place — and run its
    /// handler once; afterwards each fired periodic timer is re-armed one
    /// period after `now`, in firing order, and one-shot timers are gone.
    /// Returns how many timers fired: exactly the leading entries whose
    /// deadlines lay at or before `now` — every due timer fires, and no
    /// timer fires before its deadline.  The final timer state is pinned:
    /// the old list minus the fired prefix, re-based, with the fired
    /// periodic kinds re-armed (`rearmed`).
    pub fn notify_timer(&mut self, now: u64) -> (fired: usize)
        requires
            old(self).wf(),
        ensures
            fired <= old(self).timer_delays().len(),
            forall|k: int|
                0 <= k < fired ==> old(self).base() + #[trigger] psum(
                    old(self).timer_delays(),
                    k + 1,
                ) <= now,
            fired < old(self).timer_delays().len() ==> old(self).base() + psum(
                old(self).timer_delays(),
                fired as int + 1,
            ) > now,
            ({
                let m = fired as int;
                let after = rearmed(
                    old(self).timer_delays().skip(m),
                    old(self).timer_kinds().skip(m),
                    (old(self).base() + psum(old(self).timer_delays(), m)) as u64,
                    now,
                    wall_kinds(old(self).timer_kinds().take(m)),
                );
                &&& final(self).timer_delays() == after.0
                &&& final(self).timer_kinds() == after.1
                &&& final(self).base() == after.2
            }),
            final(self).wf(),
            final(self).subs() == old(self).subs(),
            final(self).srvs() == old(self).srvs(),
            final(self).clis() == old(self).clis(),
            final(self).gds() == old(self).gds(),
            final(self).ctx_id() == old(self).ctx_id(),
            old(self).timer_delays().len() == 0 ==> {
                &&& final(self).timer_delays() == old(self).timer_delays()
                &&& final(self).timer_kinds() == old(self).timer_kinds()
                &&& final(self).base() == old(self).base()
            },
            old(self).timer_delays().len() > 0 && old(self).base() + old(self).timer_delays()[0]
                > now ==> {
                &&& final(self).timer_delays() == old(self).timer_delays()
                &&& final(self).timer_kinds() == old(self).timer_kinds()
                &&& final(self).base() == old(self).base()
            },
            final(self).base() >= old(self).base(),
            final(self).timer_delays().len() > 0 ==> final(self).base()
                + final(self).timer_delays()[0] >= now,
    {
        let mut reload: Vec<(u64, TimerEntry)> = Vec::new();
        let mut fired_count: usize = 0;
        let total = self.timer.len();
        proof {
            assert(old(self).timer_delays().skip(0) =~= old(self).timer_delays());
            assert(old(self).timer_kinds().skip(0) =~= old(self).timer_kinds());
            assert(old(self).timer_kinds().take(0) =~= Seq::<TimerType>::empty());
            assert(reload_kinds(reload@) =~= Seq::<TimerType>::empty());
        }
        loop
            invariant
                old(self).wf(),
                total == old(self).timer_delays().len(),
                fired_count <= total,
                self.wf(),
                self.subs() == old(self).subs(),
                self.srvs() == old(self).srvs(),
                self.clis() == old(self).clis(),
                self.gds() == old(self).gds(),
                self.ctx_id() == old(self).ctx_id(),
                self.timer_delays() == old(self).timer_delays().skip(fired_count as int),
                self.timer_kinds() == old(self).timer_kinds().skip(fired_count as int),
                self.base() == old(self).base() + psum(
                    old(self).timer_delays(),
                    fired_count as int,
                ),
                reload_kinds(reload@) == wall_kinds(
                    old(self).timer_kinds().take(fired_count as int),
                ),
                forall|i: int|
                    0 <= i < reload@.len() ==> (#[trigger] reload@[i]).1.kind_spec()
                        == TimerType::WallTimer(reload@[i].0),
                forall|k: int|
                    0 <= k < fired_count ==> old(self).base() + #[trigger] psum(
                        old(self).timer_delays(),
                        k + 1,
                    ) <= now,
                self.base() >= old(self).base(),
                self.base() <= now || self.base() == old(self).base(),
            ensures
                self.wf(),
                self.subs() == old(self).subs(),
                self.srvs() == old(self).srvs(),
                self.clis() == old(self).clis(),
                self.gds() == old(self).gds(),
                self.ctx_id() == old(self).ctx_id(),
                fired_count <= total,
                self.timer_delays() == old(self).timer_delays().skip(fired_count as int),
                self.timer_kinds() == old(self).timer_kinds().skip(fired_count as int),
                self.base() == old(self).base() + psum(
                    old(self).timer_delays(),
                    fired_count as int,
                ),
                reload_kinds(reload@) == wall_kinds(
                    old(self).timer_kinds().take(fired_count as int),
                ),
                forall|i: int|
                    0 <= i < reload@.len() ==> (#[trigger] reload@[i]).1.kind_spec()
                        == TimerType::WallTimer(reload@[i].0),
                forall|k: int|
                    0 <= k < fired_count ==> old(self).base() + #[trigger] psum(
                        old(self).timer_delays(),
                        k + 1,
                    ) <= now,
                fired_count < total ==> old(self).base() + psum(
                    old(self).timer_delays(),
                    fired_count as int + 1,
                ) > now,
                self.base() >= old(self).base(),
                self.base() <= now || self.base() == old(self).base(),
                self.timer_delays().len() == 0 || self.base() + self.timer_delays()[0] > now,
            decreases self.timer_delays().len(),
        {
            let due = match self.timer.front_delta() {
                None => false,
                Some(d) => self.base_time <= now && d <= now - self.base_time,
            };
            if !due {
                proof {
                    if fired_count < total {
                        let dl0 = old(self).timer_delays();
                        let m = fired_count as int;
                        assert(dl0.skip(m)[0] == dl0[m]);
                        crate::delta_list::lemma_psum_step(dl0, m);
                    }
                }
                break ;
            }
            let ghost m = fired_count as int;
            let ghost dl0 = old(self).timer_delays();
            let ghost k0 = old(self).timer_kinds();
            let ghost pre_timer = self.timer;
            let ghost pre_kinds = self.timer_kinds();
            let ghost pre_items = self.timer.item_seq();
            let ghost reload_pre = reload@;
            match self.timer.pop() {
                None => {
                    break ;
                },
                Some((delay, entry)) => {
                    proof {
                        assert(dl0.skip(m)[0] == dl0[m]);
                        crate::delta_list::lemma_psum_step(dl0, m);
                        assert(dl0.skip(m).drop_first() =~= dl0.skip(m + 1));
                        // the popped entry's kind is the fired one
                        crate::delta_list::lemma_wf_len(old(self).timer);
                        crate::delta_list::lemma_wf_len(pre_timer);
                        assert(k0.len() == dl0.len());
                        assert(pre_items.len() == dl0.skip(m).len());
                        assert(entry == pre_items[0]);
                        assert(pre_kinds[0] == pre_items[0].kind_spec());
                        assert(entry.kind_spec() == k0[m]) by {
                            assert(k0.skip(m)[0] == k0[m]);
                        }
                        // the kind tail steps with the pop
                        assert(self.timer_kinds() =~= pre_kinds.drop_first());
                        assert(pre_kinds.drop_first() =~= k0.skip(m + 1)) by {
                            assert(k0.skip(m).drop_first() =~= k0.skip(m + 1));
                        }
                    }
                    self.base_time = self.base_time + delay;
                    fired_count = fired_count + 1;
                    let ghost fired_kind = entry.kind_spec();
                    let TimerEntry { kind, handler } = entry;
                    proof {
                        assert(kind == fired_kind);
                        assert(fired_kind == k0[m]);
                        assert(k0.take(m + 1) =~= k0.take(m).push(k0[m]));
                        assert(k0.take(m + 1).drop_last() =~= k0.take(m));
                        assert(k0.take(m + 1).last() == k0[m]);
                    }
                    let mut h = handler;
                    h.call();
                    match kind {
                        TimerType::WallTimer(period) => {
                            let rearm = TimerEntry { kind, handler: h };
                            let ghost e2 = rearm;
                            reload.push((period, rearm));
                            proof {
                                assert(k0[m] == kind);
                                assert(wall_kinds(k0.take(m + 1)) == wall_kinds(
                                    k0.take(m),
                                ).push(kind));
                                assert(reload@ == reload_pre.push((period, e2)));
                                lemma_reload_push(reload_pre, reload@, period, e2, kind);
                            }
                        },
                        TimerType::OneShot => {
                            proof {
                                assert(k0[m] == kind);
                                assert(!(k0.take(m + 1).last() is WallTimer));
                                assert(wall_kinds(k0.take(m + 1)) == wall_kinds(k0.take(m)));
                            }
                        },
                    }
                },
            }
        }
        proof {
            if fired_count == 0 {
                assert(old(self).timer_delays().skip(0) =~= old(self).timer_delays());
                assert(old(self).timer_kinds().skip(0) =~= old(self).timer_kinds());
                assert(psum(old(self).timer_delays(), 0) == 0);
            }
            if old(self).timer_delays().len() > 0 && old(self).base() + old(
                self,
            ).timer_delays()[0] > now {
                assert(fired_count == 0) by {
                    if fired_count > 0 {
                        crate::delta_list::lemma_psum_step(old(self).timer_delays(), 0);
                        assert(old(self).base() + psum(old(self).timer_delays(), 1) <= now);
                    }
                }
            }
        }
        let ghost m_f = fired_count as int;
        let ghost dl1 = self.timer_delays();
        let ghost k1 = self.timer_kinds();
        let ghost b1 = self.base();
        let ghost rk0 = reload_kinds(reload@);
        while reload.len() > 0
            invariant
                self.wf(),
                self.subs() == old(self).subs(),
                self.srvs() == old(self).srvs(),
                self.clis() == old(self).clis(),
                self.gds() == old(self).gds(),
                self.ctx_id() == old(self).ctx_id(),
                rearmed(
                    self.timer_delays(),
                    self.timer_kinds(),
                    self.base(),
                    now,
                    reload_kinds(reload@),
                ) == rearmed(dl1, k1, b1, now, rk0),
                forall|i: int|
                    0 <= i < reload@.len() ==> (#[trigger] reload@[i]).1.kind_spec()
                        == TimerType::WallTimer(reload@[i].0),
                self.timer_delays().len() == 0 || self.base() + self.timer_delays()[0] >= now,
                old(self).timer_delays().len() == 0 ==> {
                    &&& self.timer_delays() == old(self).timer_delays()
                    &&& self.timer_kinds() == old(self).timer_kinds()
                    &&& self.base() == old(self).base()
                    &&& reload@.len() == 0
                },
                old(self).timer_delays().len() > 0 && old(self).base() + old(
                    self,
                ).timer_delays()[0] > now ==> {
                    &&& self.timer_delays() == old(self).timer_delays()
                    &&& self.timer_kinds() == old(self).timer_kinds()
                    &&& self.base() == old(self).base()
                    &&& reload@.len() == 0
                },
                self.base() >= old(self).base(),
                self.base() <= now || self.base() == old(self).base(),
            decreases reload@.len(),
        {
            let ghost reload_pre = reload@;
            let (period, entry) = reload.remove(0);
            proof {
                assert(reload_pre[0].1.kind_spec() == TimerType::WallTimer(reload_pre[0].0));
                assert(entry.kind_spec() == TimerType::WallTimer(period));
                assert(period_of(entry.kind_spec()) == period);
                assert(reload_kinds(reload@) =~= reload_kinds(reload_pre).drop_first());
                assert(reload_kinds(reload_pre)[0] == entry.kind_spec());
            }
            let ghost pre = *self;
            self.insert_timer_entry(now, period, entry);
            proof {
                let rkp = reload_kinds(reload_pre);
                let st = timer_added(
                    pre.timer_delays(),
                    pre.timer_kinds(),
                    pre.base(),
                    now,
                    period_of(rkp[0]),
                    rkp[0],
                );
                assert(st.0 == self.timer_delays());
                assert(st.1 == self.timer_kinds());
                assert(st.2 == self.base());
                assert(rearmed(pre.timer_delays(), pre.timer_kinds(), pre.base(), now, rkp)
                    == rearmed(
                    self.timer_delays(),
                    self.timer_kinds(),
                    self.base(),
                    now,
                    rkp.drop_first(),
                ));
                if pre.timer_delays().len() == 0 {
                    assert(self.base() == now);
                    assert(self.timer_delays() == seq![period]);
                    assert(self.base() + self.timer_delays()[0] >= now);
                } else if now >= pre.base() {
                    assert(self.base() == pre.base());
                    let delta = if now - pre.base() + period <= u64::MAX {
                        (now - pre.base() + period) as u64
                    } else {
                        u64::MAX
                    };
                    assert(delta >= now - pre.base());
                    let dl = pre.timer_delays();
                    assert(self.timer_delays() == inserted_delays(dl, delta as int));
                    if delta as int >= dl[0] {
                        assert(inserted_delays(dl, delta as int)[0] == dl[0]);
                        assert(pre.base() + dl[0] >= now);
                    } else {
                        assert(inserted_delays(dl, delta as int)[0] == delta);
                    }
                    assert(self.base() + self.timer_delays()[0] >= now);
                } else {
                    assert(self.base() == now);
                    let dl = pre.timer_delays().update(
                        0,
                        if pre.timer_delays()[0] + (pre.base() - now) <= u64::MAX {
                            (pre.timer_delays()[0] + (pre.base() - now)) as u64
                        } else {
                            u64::MAX
                        },
                    );
                    assert(self.timer_delays() == inserted_delays(dl, period as int));
                    if period as int >= dl[0] {
                        assert(inserted_delays(dl, period as int)[0] == dl[0]);
                    } else {
                        assert(inserted_delays(dl, period as int)[0] == period);
                    }
                    assert(self.base() + self.timer_delays()[0] >= now);
                }
            }
        }
        proof {
            assert(reload_kinds(reload@) =~= Seq::<TimerType>::empty());
        }
        fired_count
    }

    /// Wait for readiness and dispatch: block until a source is ready, a
    /// timer is due or a halt arrives; then fire due timers first and fan
    /// out readiness over subscriptions, servers, clients and guards, in
    /// that order, dropping every registration that asked to be removed or
    /// was registered one-shot.  `Signaled` reports a halt; the selector
    /// stays usable.
    pub fn wait(&mut self) -> (r: Result<(), ErrorKind>)
        requires
            old(self).wf(),
        ensures
            final(self).wf(),
            final(self).ctx_id() == old(self).ctx_id(),
            r matches Err(e) ==> e == ErrorKind::Signaled,
            final(self).base() >= old(self).base(),
            removed_only(old(self).subs(), final(self).subs()),
            removed_only(old(self).srvs(), final(self).srvs()),
            removed_only(old(self).clis(), final(self).clis()),
            removed_only(old(self).gds(), final(self).gds()),
            r is Ok ==> {
                &&& dispatch_post(old(self).subs(), final(self).subs())
                &&& dispatch_post(old(self).srvs(), final(self).srvs())
                &&& dispatch_post(old(self).clis(), final(self).clis())
                &&& dispatch_post(old(self).gds(), final(self).gds())
            },
    {
        proof {
            lemma_without_empty(old(self).subs());
            lemma_without_empty(old(self).srvs());
            lemma_without_empty(old(self).clis());
            lemma_without_empty(old(self).gds());
        }
        match self.wait_block() {
            Err(e) => {
                return Err(e);
            },
            Ok(()) => {},
        }
        let now = now_nanos();
        self.notify_timer(now);
        let sub_round = dispatch_entries(&mut self.subscriptions);
        let srv_round = dispatch_entries(&mut self.services);
        let cli_round = dispatch_entries(&mut self.clients);
        let gd_round = dispatch_entries(&mut self.guards);
        proof {
            assert(dispatch_witness(
                old(self).subs(),
                self.subs(),
                sub_round.0@,
                sub_round.1@,
            ));
            assert(dispatch_witness(
                old(self).srvs(),
                self.srvs(),
                srv_round.0@,
                srv_round.1@,
            ));
            assert(dispatch_witness(
                old(self).clis(),
                self.clis(),
                cli_round.0@,
                cli_round.1@,
            ));
            assert(dispatch_witness(old(self).gds(), self.gds(), gd_round.0@, gd_round.1@));
        }
        Ok(())
    }
}

/// What one non-blocking receive outcome means for an awaiting task:
/// complete with the value, complete with the error, or register for a
/// wake and go pending.
pub enum PollDecision<T> {
    /// A value arrived: complete with it.
    Ready(T),
    /// The receive failed: complete with the error.
    Fail(ErrorKind),
    /// Nothing yet: register for a wake and go pending.
    Park,
}

/// The asynchronous adapter's poll decision: a received value completes
/// the future, an empty read parks it for a wake, a failure completes it
/// with the error.
pub fn poll_step<T>(r: RecvResult<T>) -> (d: PollDecision<T>)
    ensures
        r matches RecvResult::Received(v) ==> d == PollDecision::Ready(v),
        r is RetryLater ==> d is Park,
        r matches RecvResult::Failed(e) ==> d == PollDecision::<T>::Fail(e),
{
    match r {
        RecvResult::Received(v) => PollDecision::Ready(v),
        RecvResult::RetryLater => PollDecision::Park,
        RecvResult::Failed(e) => PollDecision::Fail(e),
    }
}

/// Registering a fresh endpoint and then unregistering it restores the
/// registration list exactly as it was.
pub proof fn lemma_register_unregister(ms: Seq<(u64, bool)>, id: u64, once: bool)
    requires
        unique_ids(ms),
        !has_id(ms, id),
    ensures
        removed_id(upserted(ms, (id, once)), id) == ms,
{
    let p = (id, once);
    assert(upserted(ms, p) == ms.push(p));
    let rm = Set::<u64>::empty().insert(id);
    assert(ms.push(p).drop_last() =~= ms);
    assert(ms.push(p).last() == p);
    assert(without_ids(ms.push(p), rm) == without_ids(ms, rm));
    lemma_without_absent(ms, id, Set::empty());
    lemma_without_empty(ms);
}

/// Over any run of firings of one periodic timer in which every firing
/// happens no earlier than its deadline — `notify_timer` fires only due
/// entries — and every re-arming puts the next deadline one period after
/// the firing or later — `lemma_periodic_rearm_no_early` — the `k`-th
/// firing happens no earlier than `k` whole periods after the first
/// deadline.
pub proof fn lemma_periodic_no_early_run(deadlines: Seq<int>, fires: Seq<int>, p: int, k: int)
    requires
        deadlines.len() == fires.len(),
        forall|i: int| 0 <= i < fires.len() ==> #[trigger] fires[i] >= deadlines[i],
        forall|i: int| 1 <= i < deadlines.len() ==> #[trigger] deadlines[i] >= fires[i - 1] + p,
        0 <= k < fires.len(),
        p >= 0,
    ensures
        fires[k] >= deadlines[0] + k * p,
    decreases k,
{
    if k == 0 {
        assert(fires[0] >= deadlines[0]);
    } else {
        lemma_periodic_no_early_run(deadlines, fires, p, k - 1);
        assert(fires[k] >= deadlines[k]);
        assert(deadlines[k] >= fires[k - 1] + p);
        assert(fires[k - 1] >= deadlines[0] + (k - 1) * p);
        assert(deadlines[0] + (k - 1) * p + p == deadlines[0] + k * p) by (nonlinear_arith);
    }
}

/// One timer registration leaves every pending entry's absolute
/// deadline in place: for each old prefix length `k` there is a new
/// prefix length whose sum gives the same deadline.  Exact as long as no
/// delay saturates.
pub proof fn lemma_timer_added_deadlines(
    delays: Seq<u64>,
    kinds: Seq<TimerType>,
    base: u64,
    now: u64,
    t: u64,
    kind: TimerType,
    k: int,
)
    requires
        1 <= k <= delays.len(),
        now >= base ==> now - base + t <= u64::MAX,
        now < base ==> delays[0] + (base - now) <= u64::MAX,
    ensures
        ({
            let after = timer_added(delays, kinds, base, now, t, kind);
            exists|k2: int|
                1 <= k2 <= after.0.len() && after.2 + #[trigger] psum(after.0, k2) == base
                    + psum(delays, k)
        }),
{
    let after = timer_added(delays, kinds, base, now, t, kind);
    if now >= base {
        let delta = (now - base + t) as u64;
        let pos = insert_pos(delays, delta as int);
        crate::delta_list::lemma_insert_pos_range::<u64>(delays, delta as int);
        crate::delta_list::lemma_inserted_len(delays, delta as int);
        crate::delta_list::lemma_insert_deadlines(delays, delta as int);
        assert(after.0 == inserted_delays(delays, delta as int));
        assert(after.2 == base);
        if k <= pos {
            assert(psum(after.0, k) == psum(delays, k));
            assert(1 <= k <= after.0.len() && after.2 + psum(after.0, k) == base + psum(
                delays,
                k,
            ));
        } else {
            assert(pos + 1 < k + 1 <= delays.len() + 1);
            assert(psum(after.0, k + 1) == psum(delays, k));
            assert(1 <= k + 1 <= after.0.len() && after.2 + psum(after.0, k + 1) == base
                + psum(delays, k));
        }
    } else {
        let gap = (base - now) as u64;
        let bumped = (delays[0] + gap) as u64;
        let adj = delays.update(0, bumped);
        lemma_rebase_deadlines(delays, base, now, k);
        let pos = insert_pos(adj, t as int);
        crate::delta_list::lemma_insert_pos_range::<u64>(adj, t as int);
        crate::delta_list::lemma_inserted_len(adj, t as int);
        crate::delta_list::lemma_insert_deadlines(adj, t as int);
        assert(after.0 == inserted_delays(adj, t as int));
        assert(after.2 == now);
        assert(now + psum(adj, k) == base + psum(delays, k));
        if k <= pos {
            assert(psum(after.0, k) == psum(adj, k));
            assert(1 <= k <= after.0.len() && after.2 + psum(after.0, k) == base + psum(
                delays,
                k,
            ));
        } else {
            assert(pos + 1 < k + 1 <= adj.len() + 1);
            assert(psum(after.0, k + 1) == psum(adj, k));
            assert(1 <= k + 1 <= after.0.len() && after.2 + psum(after.0, k + 1) == base
                + psum(delays, k));
        }
    }
}

/// Re-arming a whole round of periodic timers leaves every pending
/// entry's absolute deadline in place: for each old prefix length `k`
/// there is a prefix length of the re-armed list whose sum gives the
/// same deadline.  Exact as long as no re-armed delay saturates.
pub proof fn lemma_rearmed_deadlines(
    delays: Seq<u64>,
    kinds: Seq<TimerType>,
    base: u64,
    now: u64,
    reloads: Seq<TimerType>,
    k: int,
)
    requires
        base <= now,
        1 <= k <= delays.len(),
        forall|i: int|
            0 <= i < reloads.len() ==> now - base + period_of(#[trigger] reloads[i])
                <= u64::MAX,
    ensures
        ({
            let after = rearmed(delays, kinds, base, now, reloads);
            exists|k2: int|
                1 <= k2 <= after.0.len() && after.2 + #[trigger] psum(after.0, k2) == base
                    + psum(delays, k)
        }),
    decreases reloads.len(),
{
    let after = rearmed(delays, kinds, base, now, reloads);
    if reloads.len() == 0 {
        assert(after.0 == delays && after.2 == base);
        assert(1 <= k <= after.0.len() && after.2 + psum(after.0, k) == base + psum(delays, k));
    } else {
        let p = period_of(reloads[0]);
        let st = timer_added(delays, kinds, base, now, p, reloads[0]);
        lemma_timer_added_deadlines(delays, kinds, base, now, p, reloads[0], k);
        let k2 = choose|k2: int|
            1 <= k2 <= st.0.len() && st.2 + #[trigger] psum(st.0, k2) == base + psum(delays, k);
        assert(st.2 == base || st.2 == now);
        assert(base <= st.2 <= now);
        assert forall|i: int| 0 <= i < reloads.drop_first().len() implies now - st.2
            + period_of(#[trigger] reloads.drop_first()[i]) <= u64::MAX by {
            assert(reloads.drop_first()[i] == reloads[i + 1]);
            assert(now - base + period_of(reloads[i + 1]) <= u64::MAX);
        }
        lemma_rearmed_deadlines(st.0, st.1, st.2, now, reloads.drop_first(), k2);
        let k3 = choose|k3: int|
            1 <= k3 <= rearmed(st.0, st.1, st.2, now, reloads.drop_first()).0.len() && rearmed(
                st.0,
                st.1,
                st.2,
                now,
                reloads.drop_first(),
            ).2 + #[trigger] psum(
                rearmed(st.0, st.1, st.2, now, reloads.drop_first()).0,
                k3,
            ) == st.2 + psum(st.0, k2);
        assert(after == rearmed(st.0, st.1, st.2, now, reloads.drop_first()));
        assert(1 <= k3 <= after.0.len() && after.2 + psum(after.0, k3) == base + psum(
            delays,
            k,
        ));
    }
}

/// When the clock stands before the base instant, `timer_added` pushes
/// the head delay by the gap and re-anchors the base at the clock: every
/// pending entry keeps its absolute deadline, as long as the bumped head
/// stays representable.
pub proof fn lemma_rebase_deadlines(dl: Seq<u64>, base: u64, now: u64, k: int)
    requires
        dl.len() > 0,
        now < base,
        dl[0] + (base - now) <= u64::MAX,
        1 <= k <= dl.len(),
    ensures
        now + psum(dl.update(0, (dl[0] + (base - now)) as u64), k) == base + psum(dl, k),
{
    let gap = (base - now) as u64;
    let adj = dl.update(0, (dl[0] + gap) as u64);
    assert(adj.drop_first() =~= dl.drop_first());
    assert(psum(adj, k) == adj[0] + psum(adj.drop_first(), k - 1));
    assert(psum(dl, k) == dl[0] + psum(dl.drop_first(), k - 1));
}

/// Re-arming a periodic timer never hurries it: when a firing's absolute
/// deadline `base + psum(..)` lay at or before `now` and the timer is
/// re-armed `period` after `now`, the new entry's absolute deadline lies
/// at least one period after the fired one.
pub proof fn lemma_periodic_rearm_no_early(
    delays: Seq<u64>,
    base: u64,
    now: u64,
    period: u64,
    fired_deadline: int,
)
    requires
        fired_deadline <= now,
        base <= now,
        now - base + period <= u64::MAX,
    ensures
        ({
            let delta = (now - base + period) as u64;
            base + psum(
                inserted_delays(delays, delta as int),
                insert_pos(delays, delta as int) + 1,
            ) >= fired_deadline + period
        }),
{
    let delta = (now - base + period) as u64;
    crate::delta_list::lemma_insert_deadlines(delays, delta as int);
    assert(psum(
        inserted_delays(delays, delta as int),
        insert_pos(delays, delta as int) + 1,
    ) == delta);
}

} // verus!
