use hiroz::local_bus::{
    is_used, plan_owned, plan_shared, settle, subscribe, subscribe_owned, total_channels,
    with_entry, without_entry, BusRegistry, Channel, Delivery, DeliveryDepth, Entry, OwnedPlan,
    Plan, Sink, MAX_DELIVERY_DEPTH,
};
use std::sync::Arc;

type Bus = Channel<&'static str>;

fn entry(id: u64, key: u64, sink: Sink, name: &'static str) -> Entry<&'static str> {
    Entry {
        id,
        type_key: key,
        sink,
        callback: Arc::new(name),
    }
}

fn names(plan: Plan<&'static str>) -> Vec<&'static str> {
    match plan {
        Plan::Call(callbacks) => callbacks.iter().map(|c| **c).collect(),
        Plan::Done(d) => panic!("expected callbacks, got {d:?}"),
    }
}

#[test]
fn a_publish_reaches_subscribers_of_its_type_in_order() {
    let bus: Arc<Bus> = Arc::new(Channel::new());
    let mut depth = DeliveryDepth::new();
    assert!(matches!(
        bus.publish(1, &mut depth),
        Plan::Done(Delivery::NoTaker)
    ));
    let _a = subscribe(bus.clone(), 0, 1, Arc::new("a"));
    let _b = subscribe(bus.clone(), 1, 2, Arc::new("b"));
    let _c = subscribe(bus.clone(), 2, 1, Arc::new("c"));
    let _d = subscribe_owned(bus.clone(), 3, 1, Arc::new("d"));
    assert_eq!(bus.subscriber_count(), 4);
    assert_eq!(bus.owned_receivers(1), 1);
    assert_eq!(bus.owned_receivers(2), 0);
    assert_eq!(names(bus.publish(1, &mut depth)), vec!["a", "c"]);
    assert_eq!(depth.depth, 1);
    assert_eq!(settle(2, &mut depth), Delivery::Sent(2));
    assert_eq!(depth.depth, 0);
}

#[test]
fn leaving_ends_delivery() {
    let bus: Arc<Bus> = Arc::new(Channel::new());
    let mut depth = DeliveryDepth::new();
    let a = subscribe(bus.clone(), 0, 1, Arc::new("a"));
    let b = subscribe(bus.clone(), 1, 1, Arc::new("b"));
    let in_flight = bus.publish(1, &mut depth);
    let gone = a.unsubscribe();
    assert_eq!(*gone.callback, "a");
    assert_eq!(names(in_flight), vec!["a", "b"]);
    settle(2, &mut depth);
    assert_eq!(names(bus.publish(1, &mut depth)), vec!["b"]);
    b.unsubscribe();
    assert_eq!(bus.subscriber_count(), 0);
}

#[test]
fn nesting_is_bounded() {
    let bus: Arc<Bus> = Arc::new(Channel::new());
    let _a = subscribe(bus.clone(), 0, 1, Arc::new("a"));
    let mut depth = DeliveryDepth::new();
    for i in 0..MAX_DELIVERY_DEPTH {
        assert_eq!(depth.depth, i);
        assert_eq!(names(bus.publish(1, &mut depth)), vec!["a"]);
    }
    assert!(matches!(
        bus.publish(1, &mut depth),
        Plan::Done(Delivery::DepthExceeded)
    ));
    assert_eq!(depth.depth, 8);
    assert_eq!(settle(0, &mut depth), Delivery::NoTaker);
    assert_eq!(names(bus.publish(1, &mut depth)), vec!["a"]);
}

#[test]
fn a_sole_owner_is_given_the_message() {
    let bus: Arc<Bus> = Arc::new(Channel::new());
    let mut depth = DeliveryDepth::new();
    assert!(matches!(
        bus.publish_owned(1, "m".to_string(), &mut depth),
        Err(m) if m == "m"
    ));
    let _o = subscribe_owned(bus.clone(), 0, 1, Arc::new("o"));
    let _x = subscribe(bus.clone(), 1, 2, Arc::new("x"));
    match bus.publish_owned(1, "m".to_string(), &mut depth) {
        Ok(OwnedPlan::Give(callback, m)) => {
            assert_eq!(*callback, "o");
            assert_eq!(m, "m");
        }
        other => panic!("expected a gift, got {other:?}"),
    }
    let mut deep = DeliveryDepth {
        depth: MAX_DELIVERY_DEPTH,
    };
    assert!(matches!(
        bus.publish_owned(1, "m".to_string(), &mut deep),
        Ok(OwnedPlan::Dropped)
    ));
    let _s = subscribe(bus.clone(), 2, 1, Arc::new("s"));
    assert!(bus.publish_owned(1, "m".to_string(), &mut depth).is_err());
}

#[test]
fn lists_are_replaced_as_a_whole() {
    let list = vec![entry(0, 1, Sink::Shared, "a")];
    let more = with_entry(&list, &entry(1, 1, Sink::Owned, "b"));
    assert_eq!(list.len(), 1);
    assert_eq!(more.len(), 2);
    let less = without_entry(&more, 1);
    assert_eq!(less.len(), 1);
    assert_eq!(less[0].id, 0);
    let mut depth = DeliveryDepth::new();
    assert_eq!(names(plan_shared(&more, 1, &mut depth)), vec!["a"]);
    assert!(plan_owned(&more, 1, (), &mut depth).is_err());
}

#[test]
fn channels_are_found_again_and_swept() {
    let mut bus: BusRegistry<&'static str> = BusRegistry::new();
    let first = bus.channel(1, "/a");
    assert!(Arc::ptr_eq(&first, &bus.channel(1, "/a")));
    let other = bus.channel(2, "/a");
    assert!(!Arc::ptr_eq(&first, &other));
    assert_eq!(total_channels(&bus), 2);
    drop(other);
    let _b = bus.channel(1, "/b");
    assert_eq!(bus.total_channels(), 2);
    let sub = subscribe(first.clone(), bus.fresh_id(), 1, Arc::new("a"));
    assert_eq!(bus.subscriber_count(1, "/a"), 1);
    assert_eq!(bus.subscriber_count(1, "/none"), 0);
    drop(first);
    let _c = bus.channel(1, "/c");
    assert_eq!(bus.total_channels(), 3);
    sub.unsubscribe();
    let _d = bus.channel(1, "/d");
    assert_eq!(bus.total_channels(), 3);
    assert_eq!(bus.fresh_id(), 1);
}

#[test]
fn a_channel_is_used_while_somebody_holds_it_or_listens() {
    assert!(!is_used(1, 0));
    assert!(is_used(2, 0));
    assert!(is_used(1, 1));
}
