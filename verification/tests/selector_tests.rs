use std::cell::RefCell;
use std::rc::Rc;
use std::time::Instant;

use safe_drive::context::Context;
use safe_drive::error::{CallbackResult, ErrorKind, RecvResult};
use safe_drive::msg::UInt16;
use safe_drive::node::NodeOptions;
use safe_drive::selector::{
    dispatch_entries, poll_step, ConditionEntry, Handler, PollDecision, ServiceCallback,
    SubscriberCallback, WaitSource,
};
use safe_drive::service::Header;

struct CountingHandler {
    count: Rc<RefCell<u32>>,
}

impl Handler for CountingHandler {
    fn call(&mut self) -> CallbackResult {
        *self.count.borrow_mut() += 1;
        CallbackResult::Keep
    }
}

struct RecordingSubscriber {
    log: Rc<RefCell<Vec<u16>>>,
}

impl SubscriberCallback<UInt16> for RecordingSubscriber {
    fn on_message(&mut self, message: UInt16) {
        self.log.borrow_mut().push(message.data);
    }
}

struct AddOneServer;

impl ServiceCallback<UInt16, UInt16> for AddOneServer {
    fn on_request(&mut self, request: UInt16, _header: Header) -> UInt16 {
        UInt16 { data: request.data.wrapping_add(1) }
    }
}

struct FlagSource {
    ready: Rc<RefCell<bool>>,
    fires: Rc<RefCell<u32>>,
    verdict: CallbackResult,
}

impl WaitSource for FlagSource {
    fn is_ready(&self) -> bool {
        *self.ready.borrow()
    }

    fn invoke(&mut self) -> CallbackResult {
        *self.fires.borrow_mut() += 1;
        *self.ready.borrow_mut() = false;
        self.verdict
    }
}

/// A guard triggered before the wait wakes the selector and runs its
/// handler exactly once.
#[test]
fn guard_wake_runs_handler_once() {
    let ctx = Context::new().unwrap();
    let guard = ctx.create_guard();
    let mut selector = ctx.create_selector().unwrap();
    let count = Rc::new(RefCell::new(0u32));
    selector.add_guard_condition(
        &guard,
        Some(Box::new(CountingHandler { count: count.clone() })),
    );
    guard.trigger().unwrap();
    selector.wait().unwrap();
    assert_eq!(*count.borrow(), 1);
    // Not triggered again: make it ready once more to check the wait
    // returns, then confirm a single further firing.
    guard.trigger().unwrap();
    selector.wait().unwrap();
    assert_eq!(*count.borrow(), 2);
}

/// A subscriber built on another context is refused and the selector is
/// untouched; one on the right context is accepted.
#[test]
fn context_mismatch_rejected() {
    let ctx_a = Context::new().unwrap();
    let node_a = ctx_a.create_node("talker_a", None, NodeOptions::new()).unwrap();
    let ctx_b = Context::new().unwrap();
    let node_b = ctx_b.create_node("talker_b", None, NodeOptions::new()).unwrap();
    assert_ne!(ctx_a.id_value(), ctx_b.id_value());

    let mut selector = ctx_a.create_selector().unwrap();
    let before = selector.subscription_count();

    let foreign = node_b.create_subscriber::<UInt16>("chat", None).unwrap();
    let log = Rc::new(RefCell::new(Vec::new()));
    let accepted = selector.add_subscriber(
        foreign,
        Box::new(RecordingSubscriber { log: log.clone() }),
        false,
    );
    assert!(!accepted);
    assert_eq!(selector.subscription_count(), before);

    let local = node_a.create_subscriber::<UInt16>("chat", None).unwrap();
    let accepted = selector.add_subscriber(
        local,
        Box::new(RecordingSubscriber { log }),
        false,
    );
    assert!(accepted);
    assert_eq!(selector.subscription_count(), before + 1);
}

/// Registering an endpoint and then unregistering it restores the
/// selector's registrations; removing one never registered changes
/// nothing.
#[test]
fn register_unregister_restores_state() {
    let ctx = Context::new().unwrap();
    let node = ctx.create_node("talker", None, NodeOptions::new()).unwrap();
    let mut selector = ctx.create_selector().unwrap();
    let client = node.create_client::<UInt16, UInt16>("svc", None).unwrap();
    let before = selector.client_count();
    assert!(selector.add_client(&client, None, false));
    assert_eq!(selector.client_count(), before + 1);
    selector.remove_client(&client);
    assert_eq!(selector.client_count(), before);

    // Removing a subscriber that was never registered changes nothing.
    let sub = node.create_subscriber::<UInt16>("chat", None).unwrap();
    let subs_before = selector.subscription_count();
    selector.remove_subscriber(&sub);
    assert_eq!(selector.subscription_count(), subs_before);

    // A registered subscription is removable by the identity taken
    // before registration.
    let sub2 = node.create_subscriber::<UInt16>("chat", None).unwrap();
    let sub2_id = sub2.reg_id_value();
    let log = Rc::new(RefCell::new(Vec::new()));
    assert!(selector.add_subscriber(sub2, Box::new(RecordingSubscriber { log }), false));
    assert_eq!(selector.subscription_count(), subs_before + 1);
    selector.remove_subscription(sub2_id);
    assert_eq!(selector.subscription_count(), subs_before);
}

/// Messages published before the wait are delivered in order to the
/// registered callback.
#[test]
fn subscriber_delivery_in_order() {
    let ctx = Context::new().unwrap();
    let node_pub = ctx.create_node("chat_pub", None, NodeOptions::new()).unwrap();
    let node_sub = ctx.create_node("chat_sub", None, NodeOptions::new()).unwrap();
    let publisher = node_pub.create_publisher::<UInt16>("chat", None).unwrap();
    let subscriber = node_sub.create_subscriber::<UInt16>("chat", None).unwrap();

    let mut selector = ctx.create_selector().unwrap();
    let log = Rc::new(RefCell::new(Vec::new()));
    assert!(selector.add_subscriber(
        subscriber,
        Box::new(RecordingSubscriber { log: log.clone() }),
        false,
    ));

    publisher.send(&UInt16 { data: 0 }).unwrap();
    publisher.send(&UInt16 { data: 1 }).unwrap();
    publisher.send(&UInt16 { data: 2 }).unwrap();
    selector.wait().unwrap();
    assert_eq!(*log.borrow(), vec![0, 1, 2]);
}

/// A one-shot subscription registration is gone after its first firing.
#[test]
fn one_shot_subscriber_removed() {
    let ctx = Context::new().unwrap();
    let node = ctx.create_node("chat_node", None, NodeOptions::new()).unwrap();
    let publisher = node.create_publisher::<UInt16>("chat", None).unwrap();
    let subscriber = node.create_subscriber::<UInt16>("chat", None).unwrap();
    let mut selector = ctx.create_selector().unwrap();
    let before = selector.subscription_count();
    let log = Rc::new(RefCell::new(Vec::new()));
    assert!(selector.add_subscriber(
        subscriber,
        Box::new(RecordingSubscriber { log: log.clone() }),
        true,
    ));
    publisher.send(&UInt16 { data: 7 }).unwrap();
    selector.wait().unwrap();
    assert_eq!(*log.borrow(), vec![7]);
    assert_eq!(selector.subscription_count(), before);
}

/// A halt request makes the next wait report `Signaled`.
#[test]
fn halt_makes_wait_signaled() {
    let ctx = Context::new().unwrap();
    let mut selector = ctx.create_selector().unwrap();
    ctx.halt_request();
    let started = Instant::now();
    let r = selector.wait();
    assert!(started.elapsed().as_secs() < 1);
    assert!(matches!(r, Err(ErrorKind::Signaled)));
}

/// A served request comes back to the client with its header.
#[test]
fn service_round_trip() {
    let ctx = Context::new().unwrap();
    let node_srv = ctx.create_node("adder_srv", None, NodeOptions::new()).unwrap();
    let node_cli = ctx.create_node("adder_cli", None, NodeOptions::new()).unwrap();
    let server = node_srv.create_server::<UInt16, UInt16>("add_one", None).unwrap();
    let mut client = node_cli.create_client::<UInt16, UInt16>("add_one", None).unwrap();

    let mut selector = ctx.create_selector().unwrap();
    assert!(selector.add_server(server, Box::new(AddOneServer), false));

    let header = client.send_request(UInt16 { data: 41 }).unwrap();
    selector.wait().unwrap();
    match client.try_recv() {
        RecvResult::Received((resp, resp_header)) => {
            assert_eq!(resp.data, 42);
            assert_eq!(resp_header, header);
        },
        _ => panic!("no response arrived"),
    }
}

/// A client request without any attached server fails with
/// `ServiceCallFailed`.
#[test]
fn request_without_server_fails() {
    let ctx = Context::new().unwrap();
    let node = ctx.create_node("lonely_cli", None, NodeOptions::new()).unwrap();
    let mut client = node.create_client::<UInt16, UInt16>("nobody_home", None).unwrap();
    let r = client.send_request(UInt16 { data: 1 });
    assert!(matches!(r, Err(ErrorKind::ServiceCallFailed)));
}

/// Dispatch fires ready entries in order and removes one-shot entries
/// and entries whose handler said `Remove`.
#[test]
fn dispatch_removes_one_shot_and_remove_verdicts() {
    let mut entries: Vec<ConditionEntry> = Vec::new();
    let ready = Rc::new(RefCell::new(true));
    let fires_a = Rc::new(RefCell::new(0u32));
    let fires_b = Rc::new(RefCell::new(0u32));
    let fires_c = Rc::new(RefCell::new(0u32));
    entries.push(ConditionEntry::new(
        1,
        true,
        Box::new(FlagSource {
            ready: Rc::new(RefCell::new(true)),
            fires: fires_a.clone(),
            verdict: CallbackResult::Keep,
        }),
    ));
    entries.push(ConditionEntry::new(
        2,
        false,
        Box::new(FlagSource {
            ready: Rc::new(RefCell::new(true)),
            fires: fires_b.clone(),
            verdict: CallbackResult::Remove,
        }),
    ));
    entries.push(ConditionEntry::new(
        3,
        false,
        Box::new(FlagSource { ready: ready.clone(), fires: fires_c.clone(), verdict: CallbackResult::Keep }),
    ));
    let (fired, removed) = dispatch_entries(&mut entries);
    // All three were ready: 1 is one-shot, 2 asked to be removed, 3 stays.
    assert_eq!(
        fired,
        vec![
            (1, CallbackResult::Keep),
            (2, CallbackResult::Remove),
            (3, CallbackResult::Keep),
        ],
    );
    assert_eq!(removed, vec![1, 2]);
    assert_eq!(entries.len(), 1);
    assert_eq!((*fires_a.borrow(), *fires_b.borrow(), *fires_c.borrow()), (1, 1, 1));
    // Nothing ready now: nothing fires.
    let (fired, removed) = dispatch_entries(&mut entries);
    assert!(fired.is_empty());
    assert!(removed.is_empty());
    assert_eq!(*fires_c.borrow(), 1);
}

/// One receive outcome maps to exactly one poll decision.
#[test]
fn poll_step_decisions() {
    assert!(matches!(
        poll_step(RecvResult::Received(7u16)),
        PollDecision::Ready(7),
    ));
    assert!(matches!(poll_step(RecvResult::<u16>::RetryLater), PollDecision::Park));
    assert!(matches!(
        poll_step(RecvResult::<u16>::Failed(ErrorKind::TakeFailed)),
        PollDecision::Fail(ErrorKind::TakeFailed),
    ));
}
