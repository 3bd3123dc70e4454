use hiroz::entity::{EndpointEntity, EndpointKind, Entity, GidArray, NodeEntity};
use hiroz::qos::QosProfile;
use hiroz::event::{
    set_shared_callback, update_shared_event_status, update_shared_event_status_with_policy,
    EventWaitData, EventsManager, GraphEventManager, GraphGuardCondition, Notice, RmEventHandle,
    ZenohEventStatus, ZenohEventType,
};
use std::sync::atomic::{AtomicUsize, Ordering};
use std::sync::{Arc, Mutex};

type Callback = Box<dyn Fn(i32)>;

struct CountingGc(Arc<AtomicUsize>);

impl GraphGuardCondition for CountingGc {
    fn trigger(&self) {
        self.0.fetch_add(1, Ordering::SeqCst);
    }
}

type Manager = EventsManager<Callback>;
type Graph = GraphEventManager<Callback, CountingGc>;

fn gid(n: u8) -> GidArray {
    let mut g = [0u8; 16];
    g[0] = n;
    g
}

fn callback(f: impl Fn(i32) + 'static) -> Arc<Callback> {
    Arc::new(Box::new(f))
}

fn deliver(notice: Option<Notice<Callback>>) {
    if let Some(n) = notice {
        (n.callback)(n.change);
    }
}

fn endpoint(kind: EndpointKind, topic: &str) -> Entity {
    Entity::Endpoint(EndpointEntity {
        id: 0,
        node: None,
        kind,
        topic: topic.to_string(),
        type_info: None,
        qos: QosProfile::default().to_protocol_qos(),
    })
}

fn node(name: &str) -> Entity {
    Entity::Node(NodeEntity {
        name: name.to_string(),
        namespace: "/".to_string(),
    })
}

#[test]
fn test_events_manager_initial_state() {
    let mgr: Manager = EventsManager::new(gid(1));
    let status = {
        let mut m = mgr;
        m.take_event_status(ZenohEventType::PublicationMatched)
    };
    assert!(!status.changed);
    assert_eq!(status.total_count, 0);
    assert_eq!(status.current_count, 0);
}

#[test]
fn test_update_event_status_fires_callback() {
    let called = Arc::new(Mutex::new(0i32));
    let called_clone = called.clone();

    let mut mgr: Manager = EventsManager::new(gid(2));
    deliver(mgr.set_callback(
        ZenohEventType::SubscriptionMatched,
        callback(move |change| {
            *called_clone.lock().unwrap() += change;
        }),
    ));

    deliver(mgr.update_event_status(ZenohEventType::SubscriptionMatched, 1));
    assert_eq!(*called.lock().unwrap(), 1);

    deliver(mgr.update_event_status(ZenohEventType::SubscriptionMatched, 1));
    assert_eq!(*called.lock().unwrap(), 2);
}

#[test]
fn test_update_without_callback_no_panic() {
    let mut mgr: Manager = EventsManager::new(gid(3));
    deliver(mgr.update_event_status(ZenohEventType::MessageLost, 1));
    let status = mgr.take_event_status(ZenohEventType::MessageLost);
    assert!(status.changed);
    assert_eq!(status.total_count, 1);
}

#[test]
fn test_set_callback_fires_immediately_for_unread_events() {
    let mut mgr: Manager = EventsManager::new(gid(4));
    deliver(mgr.update_event_status(ZenohEventType::PublicationMatched, 3));

    let fired = Arc::new(Mutex::new(0i32));
    let fired_clone = fired.clone();
    deliver(mgr.set_callback(
        ZenohEventType::PublicationMatched,
        callback(move |change| {
            *fired_clone.lock().unwrap() += change;
        }),
    ));

    assert_eq!(*fired.lock().unwrap(), 3);
}

#[test]
fn test_set_callback_replaces_existing() {
    let old_fired = Arc::new(Mutex::new(false));
    let new_fired = Arc::new(Mutex::new(false));

    let old_clone = old_fired.clone();
    let new_clone = new_fired.clone();

    let mut mgr: Manager = EventsManager::new(gid(5));
    deliver(mgr.set_callback(
        ZenohEventType::LivelinessLost,
        callback(move |_| {
            *old_clone.lock().unwrap() = true;
        }),
    ));
    deliver(mgr.set_callback(
        ZenohEventType::LivelinessLost,
        callback(move |_| {
            *new_clone.lock().unwrap() = true;
        }),
    ));

    deliver(mgr.update_event_status(ZenohEventType::LivelinessLost, 1));
    assert!(!*old_fired.lock().unwrap(), "old callback must not fire");
    assert!(*new_fired.lock().unwrap(), "new callback must fire");
}

#[test]
fn test_take_event_status_resets_change_counters() {
    let mut mgr: Manager = EventsManager::new(gid(6));
    deliver(mgr.update_event_status(ZenohEventType::RequestedQosIncompatible, 2));

    let first = mgr.take_event_status(ZenohEventType::RequestedQosIncompatible);
    assert!(first.changed);
    assert_eq!(first.total_count_change, 2);

    let second = mgr.take_event_status(ZenohEventType::RequestedQosIncompatible);
    assert!(!second.changed);
    assert_eq!(second.total_count_change, 0);
    assert_eq!(second.total_count, 2);
}

#[test]
fn test_update_with_policy_sets_last_policy_kind() {
    let mut mgr: Manager = EventsManager::new(gid(7));
    deliver(mgr.update_event_status_with_policy(ZenohEventType::OfferedQosIncompatible, 1, 42));
    let status = mgr.take_event_status(ZenohEventType::OfferedQosIncompatible);
    assert_eq!(status.last_policy_kind, 42);
}

#[test]
fn test_graph_event_manager_register_and_trigger() {
    let mut mgr: Graph = GraphEventManager::new();
    let fired = Arc::new(Mutex::new(0i32));
    let fired_clone = fired.clone();

    mgr.register_event_callback(
        gid(1),
        "/test".to_string(),
        ZenohEventType::SubscriptionMatched,
        callback(move |v| {
            *fired_clone.lock().unwrap() += v;
        }),
    );

    deliver(mgr.trigger_event(&gid(1), ZenohEventType::SubscriptionMatched, 5));
    assert_eq!(*fired.lock().unwrap(), 5);
}

#[test]
fn test_graph_event_manager_unregister_stops_firing() {
    let mut mgr: Graph = GraphEventManager::new();
    let fired = Arc::new(Mutex::new(0i32));
    let fired_clone = fired.clone();

    mgr.register_event_callback(
        gid(2),
        "/test".to_string(),
        ZenohEventType::PublicationMatched,
        callback(move |v| {
            *fired_clone.lock().unwrap() += v;
        }),
    );

    deliver(mgr.trigger_event(&gid(2), ZenohEventType::PublicationMatched, 1));
    assert_eq!(*fired.lock().unwrap(), 1);

    mgr.unregister_entity(&gid(2));
    deliver(mgr.trigger_event(&gid(2), ZenohEventType::PublicationMatched, 1));
    assert_eq!(*fired.lock().unwrap(), 1);
}

#[test]
fn test_graph_event_manager_no_callback_no_panic() {
    let mgr: Graph = GraphEventManager::new();
    let notice = mgr.trigger_event(&gid(99), ZenohEventType::LivelinessChanged, 1);
    assert!(notice.is_none());
}

#[test]
fn test_event_wait_data_set_and_check() {
    let mut w = EventWaitData::new();
    assert!(!w.is_triggered());
    w.set_triggered(true);
    assert!(w.is_triggered());
    w.set_triggered(false);
    assert!(!w.is_triggered());
    assert!(!EventWaitData::default().is_triggered());
}

#[test]
fn test_rmevent_handle_is_ready_and_take() {
    let mgr: Mutex<Manager> = Mutex::new(EventsManager::new(gid(8)));
    let handle = RmEventHandle::new(ZenohEventType::MessageLost);

    assert!(!handle.is_ready(&mgr.lock().unwrap()));

    deliver(
        mgr.lock()
            .unwrap()
            .update_event_status(ZenohEventType::MessageLost, 2),
    );

    assert!(handle.is_ready(&mgr.lock().unwrap()));
    let status = handle.take_event(&mut mgr.lock().unwrap());
    assert_eq!(status.total_count, 2);
    assert!(!handle.is_ready(&mgr.lock().unwrap()));
}

#[test]
fn test_rmevent_handle_set_callback() {
    let mgr: Mutex<Manager> = Mutex::new(EventsManager::new(gid(9)));
    let handle = RmEventHandle::new(ZenohEventType::LivelinessChanged);
    let fired = Arc::new(Mutex::new(0i32));
    let fired_clone = fired.clone();

    deliver(handle.set_callback(
        &mut mgr.lock().unwrap(),
        callback(move |v| {
            *fired_clone.lock().unwrap() += v;
        }),
    ));

    deliver(
        mgr.lock()
            .unwrap()
            .update_event_status(ZenohEventType::LivelinessChanged, 3),
    );
    assert_eq!(*fired.lock().unwrap(), 3);
}

#[test]
fn graph_guard_condition_registration_is_owned_by_the_manager() {
    let mut mgr: Graph = GraphEventManager::new();
    let hits = Arc::new(AtomicUsize::new(0));
    let gc = Arc::new(CountingGc(hits.clone()));
    let weak = Arc::downgrade(&gc);

    mgr.register_graph_guard_condition(gc.clone());
    drop(gc);
    let held = weak
        .upgrade()
        .expect("the manager must keep the registration alive");

    held.trigger();
    assert_eq!(hits.load(Ordering::SeqCst), 1);

    mgr.unregister_graph_guard_condition(&held);
    drop(held);
    assert!(
        weak.upgrade().is_none(),
        "unregister must release the registry's reference"
    );
}

#[test]
fn only_the_very_guard_condition_is_unregistered() {
    let mut mgr: Graph = GraphEventManager::new();
    let hits = Arc::new(AtomicUsize::new(0));
    let first = Arc::new(CountingGc(hits.clone()));
    let twin = Arc::new(CountingGc(hits.clone()));
    for gc in [&first, &twin, &first] {
        mgr.register_graph_guard_condition(gc.clone());
    }
    mgr.unregister_graph_guard_condition(&first);
    assert_eq!(mgr.guard_conditions.len(), 1);
    assert!(Arc::ptr_eq(&mgr.guard_conditions[0], &twin));
    mgr.drop_guard_conditions(&vec![false]);
    assert_eq!(mgr.guard_conditions.len(), 1);
}

#[test]
fn an_unregistered_entity_hears_of_no_change() {
    let mut mgr: Graph = GraphEventManager::new();
    for n in [1, 2] {
        mgr.register_event_callback(
            gid(n),
            "/a".to_string(),
            ZenohEventType::SubscriptionMatched,
            callback(|_| {}),
        );
    }
    mgr.unregister_entity(&gid(1));
    assert!(mgr
        .trigger_event(&gid(1), ZenohEventType::SubscriptionMatched, 1)
        .is_none());
    let publisher = endpoint(EndpointKind::Publisher, "/a");
    assert_eq!(mgr.trigger_graph_change(&publisher, true).notices.len(), 1);
}

#[test]
fn a_graph_change_notifies_the_peers_on_its_topic() {
    let mut mgr: Graph = GraphEventManager::default();
    let hits = Arc::new(AtomicUsize::new(0));
    mgr.register_graph_guard_condition(Arc::new(CountingGc(hits.clone())));
    for (n, topic) in [(1, "/a"), (2, "/b"), (3, "/a")] {
        for t in [
            ZenohEventType::SubscriptionMatched,
            ZenohEventType::PublicationMatched,
        ] {
            mgr.register_event_callback(gid(n), topic.to_string(), t, callback(|_| {}));
        }
    }
    let publisher = endpoint(EndpointKind::Publisher, "/a");
    let owed = mgr.trigger_graph_change(&publisher, true);
    assert_eq!(owed.guard_conditions.len(), 1);
    for gc in &owed.guard_conditions {
        gc.trigger();
    }
    assert_eq!(hits.load(Ordering::SeqCst), 1);
    assert_eq!(owed.notices.len(), 2);
    for n in &owed.notices {
        assert_eq!(n.change, 1);
    }
    let gone = mgr.trigger_graph_change(&publisher, false);
    assert_eq!(gone.notices[0].change, -1);

    let service = endpoint(EndpointKind::Service, "/a");
    assert!(mgr.trigger_graph_change(&service, true).notices.is_empty());
    assert!(mgr
        .trigger_graph_change(&node("n"), true)
        .notices
        .is_empty());
}

#[test]
fn an_incompatible_policy_rides_in_the_upper_half() {
    let mut mgr: Graph = GraphEventManager::new();
    for t in [
        ZenohEventType::RequestedQosIncompatible,
        ZenohEventType::MessageLost,
    ] {
        mgr.register_event_callback(gid(1), "/t".to_string(), t, callback(|_| {}));
    }
    let told = mgr
        .trigger_event_with_policy(&gid(1), ZenohEventType::RequestedQosIncompatible, 3, 2)
        .unwrap();
    assert_eq!(told.change, 0x2_0003);
    let plain = mgr
        .trigger_event_with_policy(&gid(1), ZenohEventType::MessageLost, 3, 2)
        .unwrap();
    assert_eq!(plain.change, 3);
}

#[test]
fn counters_of_disappearing_entities() {
    let mut mgr: Manager = EventsManager::new(gid(1));
    let t = ZenohEventType::SubscriptionMatched;
    for change in [1, 1, -1, -1, -1] {
        deliver(update_shared_event_status(&mut mgr, t, change));
    }
    deliver(update_shared_event_status_with_policy(&mut mgr, t, 1, 0));
    let fired = Arc::new(Mutex::new(0i32));
    let fired_clone = fired.clone();
    deliver(set_shared_callback(
        &mut mgr,
        t,
        callback(move |n| *fired_clone.lock().unwrap() += n),
    ));
    assert_eq!(*fired.lock().unwrap(), 3);
    let s: ZenohEventStatus = mgr.take_event_status(t);
    assert_eq!(s.total_count, 3);
    assert_eq!(s.total_count_change, 0);
    assert_eq!(s.current_count, 1);
    assert_eq!(s.current_count_change, 0);
    assert_eq!(s.clone().last_policy_kind, 0);
    assert_eq!(*mgr.entity_gid(), gid(1));
}
