use event_bus::bus::EventBus;
use event_bus::payload::{Payload, Value};

fn payload_with(key: &str, value: Value) -> Payload {
    let mut p = Payload::new();
    let added = p.push_field(String::from(key), value);
    assert!(added);
    p
}

#[test]
fn single_producer_unsaturated_fifo() {
    let mut bus = EventBus::new(16);
    bus.subscribe(String::from("tick"), 7);
    for n in 0..5i64 {
        bus.publish(String::from("tick"), payload_with("n", Value::Int(n)));
    }
    for n in 0..5i64 {
        let (plan, envelope) = bus.dispatch_next().expect("an envelope must be queued");
        assert_eq!(plan, vec![7u64]);
        assert_eq!(envelope.event, "tick");
        assert_eq!(envelope.payload, payload_with("n", Value::Int(n)));
    }
    assert!(bus.dispatch_next().is_none());
}

#[test]
fn two_subscriptions_fire_in_order() {
    let mut bus = EventBus::new(8);
    bus.subscribe(String::from("e"), 10);
    bus.subscribe(String::from("e"), 20);
    bus.publish(String::from("e"), Payload::new());
    let (plan, envelope) = bus.dispatch_next().expect("an envelope must be queued");
    assert_eq!(plan, vec![10u64, 20u64]);
    assert_eq!(envelope.event, "e");
}

#[test]
fn zero_subscribers_no_error_no_effect() {
    let mut bus = EventBus::new(8);
    bus.subscribe(String::from("known"), 1);
    bus.publish(String::from("nobody"), payload_with("k", Value::Bool(true)));
    let (plan, envelope) = bus.dispatch_next().expect("the envelope is still queued");
    assert!(plan.is_empty());
    assert_eq!(envelope.event, "nobody");
    assert!(bus.dispatch_next().is_none());
}

#[test]
fn saturation_drops_exactly_the_excess() {
    let mut bus = EventBus::new(2);
    bus.subscribe(String::from("a"), 1);
    bus.subscribe(String::from("b"), 2);
    bus.subscribe(String::from("c"), 3);
    bus.publish(String::from("a"), Payload::new());
    bus.publish(String::from("b"), Payload::new());
    bus.publish(String::from("c"), Payload::new());
    assert_eq!(bus.queue_len(), 2);
    let (plan_a, env_a) = bus.dispatch_next().expect("the first envelope fits");
    assert_eq!(env_a.event, "a");
    assert_eq!(plan_a, vec![1u64]);
    let (plan_b, env_b) = bus.dispatch_next().expect("the second envelope fits");
    assert_eq!(env_b.event, "b");
    assert_eq!(plan_b, vec![2u64]);
    assert!(bus.dispatch_next().is_none());
}

#[test]
fn queue_never_exceeds_capacity_and_publish_never_fails() {
    let mut bus = EventBus::new(3);
    for n in 0..10i64 {
        bus.publish(String::from("burst"), payload_with("n", Value::Int(n)));
        assert!(bus.queue_len() <= 3);
    }
    assert_eq!(bus.queue_len(), 3);
    assert_eq!(bus.capacity(), 3);
}

#[test]
fn subscription_during_backlog_is_seen_at_dispatch() {
    let mut bus = EventBus::new(8);
    bus.publish(String::from("e"), Payload::new());
    bus.subscribe(String::from("e"), 42);
    let (plan, _) = bus.dispatch_next().expect("an envelope must be queued");
    assert_eq!(plan, vec![42u64]);
}
