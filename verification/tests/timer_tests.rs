use std::cell::RefCell;
use std::rc::Rc;
use std::time::Instant;

use safe_drive::context::Context;
use safe_drive::error::CallbackResult;
use safe_drive::msg::UInt16;
use safe_drive::node::NodeOptions;
use safe_drive::selector::{Handler, SubscriberCallback};

struct Tick {
    count: Rc<RefCell<u32>>,
}

impl Handler for Tick {
    fn call(&mut self) -> CallbackResult {
        *self.count.borrow_mut() += 1;
        CallbackResult::Keep
    }
}

struct Label {
    order: Rc<RefCell<Vec<&'static str>>>,
    name: &'static str,
}

impl Handler for Label {
    fn call(&mut self) -> CallbackResult {
        self.order.borrow_mut().push(self.name);
        CallbackResult::Keep
    }
}

/// With no timer pending the blocking wait gets no timeout at all; with
/// one pending it gets the gap to its deadline, and zero once overdue.
#[test]
fn timeout_follows_nearest_deadline() {
    let ctx = Context::new().unwrap();
    let mut selector = ctx.create_selector().unwrap();
    assert_eq!(selector.compute_timeout(12345), None);
    let count = Rc::new(RefCell::new(0u32));
    selector.add_timer_at(1000, 500, Box::new(Tick { count }));
    assert_eq!(selector.compute_timeout(1200), Some(300));
    assert_eq!(selector.compute_timeout(1500), Some(0));
    assert_eq!(selector.compute_timeout(9999), Some(0));
}

/// A timeout beyond the signed 64-bit nanosecond range is clamped.
#[test]
fn timeout_clamped_to_wait_range() {
    let ctx = Context::new().unwrap();
    let mut selector = ctx.create_selector().unwrap();
    let count = Rc::new(RefCell::new(0u32));
    selector.add_timer_at(0, u64::MAX, Box::new(Tick { count }));
    assert_eq!(
        selector.compute_timeout(0),
        Some(safe_drive::selector::MAX_WAIT_NANOS),
    );
}

/// A one-shot timer fires exactly once and leaves the timer list empty.
#[test]
fn one_shot_timer_fires_once() {
    let ctx = Context::new().unwrap();
    let mut selector = ctx.create_selector().unwrap();
    let count = Rc::new(RefCell::new(0u32));
    selector.add_timer(50_000_000, Box::new(Tick { count: count.clone() }));
    assert_eq!(selector.timer_len(), 1);
    let started = Instant::now();
    while *count.borrow() == 0 && started.elapsed().as_millis() < 2000 {
        selector.wait().unwrap();
    }
    assert_eq!(*count.borrow(), 1);
    assert_eq!(selector.timer_len(), 0);
    assert!(started.elapsed().as_millis() >= 50);
    // A second wait, unblocked by a guard, fires nothing further.
    let guard = ctx.create_guard();
    selector.add_guard_condition(&guard, None);
    guard.trigger().unwrap();
    selector.wait().unwrap();
    assert_eq!(*count.borrow(), 1);
    assert_eq!(selector.timer_len(), 0);
}

/// A periodic timer of period 100 ms reaches ten firings in about one
/// second and stays armed.
#[test]
fn periodic_timer_ten_firings() {
    let ctx = Context::new().unwrap();
    let mut selector = ctx.create_selector().unwrap();
    let count = Rc::new(RefCell::new(0u32));
    selector.add_wall_timer(100_000_000, Box::new(Tick { count: count.clone() }));
    let started = Instant::now();
    let mut rounds = 0u32;
    while *count.borrow() < 10 && rounds < 40 {
        selector.wait().unwrap();
        rounds += 1;
    }
    let elapsed = started.elapsed();
    assert_eq!(*count.borrow(), 10);
    assert!(elapsed.as_millis() >= 1000, "ten periods cannot pass in {elapsed:?}");
    assert!(elapsed.as_millis() <= 2000, "ten periods took too long: {elapsed:?}");
    assert_eq!(selector.timer_len(), 1);
}

/// Two timers fire in deadline order.
#[test]
fn timers_fire_in_deadline_order() {
    let ctx = Context::new().unwrap();
    let mut selector = ctx.create_selector().unwrap();
    let order = Rc::new(RefCell::new(Vec::new()));
    selector.add_timer(80_000_000, Box::new(Label { order: order.clone(), name: "late" }));
    selector.add_timer(20_000_000, Box::new(Label { order: order.clone(), name: "early" }));
    let started = Instant::now();
    while order.borrow().len() < 2 && started.elapsed().as_millis() < 2000 {
        selector.wait().unwrap();
    }
    assert_eq!(*order.borrow(), vec!["early", "late"]);
}

struct TagSub {
    order: Rc<RefCell<Vec<&'static str>>>,
}

impl SubscriberCallback<UInt16> for TagSub {
    fn on_message(&mut self, _message: UInt16) {
        self.order.borrow_mut().push("subscription");
    }
}

/// One wait fires due timers before ready sources, and fans sources out
/// as subscriptions, then guards.
#[test]
fn timers_fire_before_sources() {
    let ctx = Context::new().unwrap();
    let node = ctx.create_node("ordering", None, NodeOptions::new()).unwrap();
    let publisher = node.create_publisher::<UInt16>("chat", None).unwrap();
    let subscriber = node.create_subscriber::<UInt16>("chat", None).unwrap();
    let guard = ctx.create_guard();
    let mut selector = ctx.create_selector().unwrap();

    let order: Rc<RefCell<Vec<&'static str>>> = Rc::new(RefCell::new(Vec::new()));
    selector.add_timer(0, Box::new(Label { order: order.clone(), name: "timer" }));
    assert!(selector.add_subscriber(
        subscriber,
        Box::new(TagSub { order: order.clone() }),
        false,
    ));
    selector.add_guard_condition(
        &guard,
        Some(Box::new(Label { order: order.clone(), name: "guard" })),
    );
    publisher.send(&UInt16 { data: 1 }).unwrap();
    guard.trigger().unwrap();
    selector.wait().unwrap();
    assert_eq!(*order.borrow(), vec!["timer", "subscription", "guard"]);
}
