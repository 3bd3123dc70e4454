use hiroz::dynamic::schema::{DynamicMessage, FieldType, MessageSchema};
use hiroz::dynamic::serialization::cdr::serialize_cdr;
use hiroz::dynamic::type_info::{TypeHash, TypeInfo};
use hiroz::entity::{EndpointEntity, EndpointKind, NodeEntity};
use hiroz::local_bus::{
    subscribe, subscribe_owned, Channel, Delivery, DeliveryDepth, Published, Sink,
    MAX_DELIVERY_DEPTH,
};
use hiroz::protocol;
use hiroz::pubsub::publisher::{
    Memory, PublishError, PublishStep, Route, ZPub, ZPubBuilder,
};
use hiroz::pubsub::subscriber::{RecvError, RecvStep, SubscriberPlan, ZSub, ZSubBuilder};
use hiroz::pubsub::{
    apply_transient_local_pub, apply_transient_local_sub, cache_depth_from_history, wait_ended,
    wait_step, BuildError, CongestionControl, Locality, WaitStep,
};
use hiroz::qos::{
    protocol_qos_to_hiroz_qos, QosDurability, QosDuration, QosHistory, QosLiveliness, QosProfile,
    QosReliability,
};
use hiroz::time::{Duration, ZTime};
use hiroz::topic_name::qualify_topic_name;
use std::sync::Arc;

#[test]
fn test_qualify_absolute_topic_unchanged() {
    let result = qualify_topic_name("/chatter", "/", "node").unwrap();
    assert_eq!(result, "/chatter");
}

#[test]
fn test_qualify_relative_topic_adds_leading_slash() {
    let result = qualify_topic_name("chatter", "/", "node").unwrap();
    assert_eq!(result, "/chatter");
}

#[test]
fn test_qualify_topic_with_namespace() {
    let result = qualify_topic_name("chatter", "/ns", "node").unwrap();
    assert_eq!(result, "/ns/chatter");
}

#[test]
fn test_qualify_topic_nested_ns() {
    let result = qualify_topic_name("/ns/sub/topic", "/", "node").unwrap();
    assert_eq!(result, "/ns/sub/topic");
}

#[test]
fn test_qos_reliability_encoding() {
    let best_effort = QosProfile {
        reliability: QosReliability::BestEffort,
        ..Default::default()
    };
    let proto = best_effort.to_protocol_qos();
    assert_eq!(proto.reliability, protocol::QosReliability::BestEffort);
}

#[test]
fn test_qos_durability_encoding() {
    let transient = QosProfile {
        durability: QosDurability::TransientLocal,
        ..Default::default()
    };
    let proto = transient.to_protocol_qos();
    assert_eq!(proto.durability, protocol::QosDurability::TransientLocal);
}

#[test]
fn test_qos_keep_last_depth_preserved_in_protocol() {
    let qos = QosProfile {
        history: QosHistory::KeepLast(5),
        ..Default::default()
    };
    let proto = qos.to_protocol_qos();
    assert_eq!(proto.history, protocol::QosHistory::KeepLast(5));
}

#[test]
fn test_endpoint_entity_topic_field() {
    let entity = EndpointEntity {
        id: 0,
        node: None,
        kind: EndpointKind::Publisher,
        topic: "/my_topic".to_string(),
        type_info: None,
        qos: QosProfile::default().to_protocol_qos(),
    };
    assert_eq!(entity.topic, "/my_topic");
}

#[test]
fn qualities_of_service_come_back_from_the_wire() {
    let qos = QosProfile {
        reliability: QosReliability::BestEffort,
        durability: QosDurability::TransientLocal,
        history: QosHistory::KeepAll,
        deadline: QosDuration { sec: 1, nsec: 2 },
        lifespan: QosDuration { sec: 3, nsec: 4 },
        liveliness: QosLiveliness::ManualByTopic,
        liveliness_lease_duration: QosDuration { sec: 5, nsec: 6 },
    };
    assert_eq!(protocol_qos_to_hiroz_qos(&qos.to_protocol_qos()), qos);
    let default = QosProfile::default();
    assert_eq!(default.history, QosHistory::KeepLast(10));
    let open = protocol::QosProfile {
        history: protocol::QosHistory::KeepLast(0),
        ..default.to_protocol_qos()
    };
    assert_eq!(
        protocol_qos_to_hiroz_qos(&open).history,
        QosHistory::KeepLast(10)
    );
}

#[test]
fn durable_endpoints_cache_as_their_history_says() {
    assert_eq!(cache_depth_from_history(protocol::QosHistory::KeepLast(7)), 7);
    assert_eq!(cache_depth_from_history(protocol::QosHistory::KeepLast(0)), 42);
    assert_eq!(cache_depth_from_history(protocol::QosHistory::KeepAll), 42);
    let volatile = QosProfile::default().to_protocol_qos();
    assert_eq!(apply_transient_local_pub(&volatile), None);
    assert_eq!(apply_transient_local_sub(&volatile), None);
    let durable = protocol::QosProfile {
        durability: protocol::QosDurability::TransientLocal,
        ..volatile
    };
    let cache = apply_transient_local_pub(&durable).unwrap();
    assert_eq!((cache.max_samples, cache.heartbeat_ms), (10, Some(500)));
    let history = apply_transient_local_sub(&durable).unwrap();
    assert_eq!(history.max_samples, 10);
    assert_eq!(history.query_timeout_ms, u64::MAX);
    assert!(history.recovery);
    let unreliable = protocol::QosProfile {
        reliability: protocol::QosReliability::BestEffort,
        ..durable
    };
    assert_eq!(apply_transient_local_pub(&unreliable).unwrap().heartbeat_ms, None);
    assert!(!apply_transient_local_sub(&unreliable).unwrap().recovery);
}

fn entity(topic: &str) -> EndpointEntity {
    EndpointEntity {
        id: 1,
        node: Some(NodeEntity {
            name: "talker".to_string(),
            namespace: "/ns".to_string(),
        }),
        kind: EndpointKind::Publisher,
        topic: topic.to_string(),
        type_info: None,
        qos: QosProfile::default().to_protocol_qos(),
    }
}

fn pub_builder(topic: &str) -> ZPubBuilder {
    ZPubBuilder {
        entity: entity(topic),
        with_attachment: true,
        shm_threshold: None,
        dyn_schema: None,
        encoding: None,
        locality: None,
        intra_process_only: false,
    }
}

fn publisher(builder: ZPubBuilder) -> ZPub {
    builder.build().unwrap().declared([9; 16])
}

fn schema() -> Arc<MessageSchema> {
    MessageSchema::builder("test_msgs/msg/Number")
        .field("n", FieldType::Int32)
        .build()
        .unwrap()
}

#[test]
fn publishers_are_planned_from_their_settings() {
    let plan = pub_builder("chatter")
        .with_qos(QosProfile {
            reliability: QosReliability::BestEffort,
            durability: QosDurability::TransientLocal,
            ..Default::default()
        })
        .with_locality(Locality::SessionLocal)
        .build()
        .unwrap();
    assert_eq!(plan.entity.topic, "/ns/chatter");
    assert_eq!(plan.congestion_control, CongestionControl::Drop);
    assert_eq!(plan.locality, Some(Locality::SessionLocal));
    assert!(plan.cache.is_some());
    let reliable = pub_builder("~/x").build().unwrap();
    assert_eq!(reliable.entity.topic, "/ns/talker/x");
    assert_eq!(reliable.congestion_control, CongestionControl::Block);
    assert_eq!(reliable.cache, None);
}

#[test]
fn endpoints_need_a_node_and_a_valid_topic() {
    let mut orphan = pub_builder("chatter");
    orphan.entity.node = None;
    let e = orphan.build().unwrap_err();
    assert_eq!(e, BuildError::PublisherWithoutNode);
    assert_eq!(e.message(), "publisher build requires node identity");
    let bad = pub_builder("a//b").build().unwrap_err();
    assert!(bad.message().starts_with("Failed to qualify topic: "));
    let mut sub = sub_builder("chatter");
    sub.entity.node = None;
    assert_eq!(
        sub.build().unwrap_err().message(),
        "subscriber build requires node identity"
    );
}

#[test]
fn a_schema_gives_its_type_once() {
    let b = pub_builder("t").with_dyn_schema(schema(), None);
    let info = b.entity.type_info.as_ref().unwrap();
    assert_eq!(info.name, "test_msgs::msg::dds_::Number_");
    let mut typed = sub_builder("t");
    typed.entity.type_info = Some(TypeInfo {
        name: "own".to_string(),
        hash: TypeHash::zero(),
    });
    let typed = typed.with_dyn_schema(schema(), None);
    assert_eq!(typed.entity.type_info.unwrap().name, "own");
    assert!(typed.dyn_schema.is_some());
    assert_eq!(publisher(b).schema().unwrap().name, "Number");
}

#[test]
fn messages_are_numbered_and_stamped() {
    let mut p = publisher(pub_builder("t").with_encoding("cdr".to_string()));
    let now = ZTime::from_unix_nanos(5);
    for n in 0..3 {
        let options = p.publish_serialized(now);
        let a = options.attachment.unwrap();
        assert_eq!(a.sequence_number, n);
        assert_eq!(a.source_timestamp, now);
        assert_eq!(a.source_gid, [9; 16]);
        assert_eq!(options.encoding.unwrap(), "cdr");
    }
    p.sn = usize::MAX;
    p.new_attachment(now);
    assert_eq!(p.sn, 0);
    let mut bare = publisher(pub_builder("t").with_attachment(false));
    let options = bare.publish_serialized(now);
    assert!(options.attachment.is_none());
    assert!(options.encoding.is_none());
    assert_eq!(bare.sn, 0);
    assert_eq!(bare.entity().topic, "/ns/t");
}

#[test]
fn large_messages_go_to_shared_memory() {
    let now = ZTime::zero();
    let mut p = publisher(pub_builder("t").with_shm_config(100));
    assert_eq!(p.publish(99, now).memory, Memory::Regular);
    assert_eq!(p.publish(100, now).memory, Memory::Shared);
    let mut plain = publisher(pub_builder("t").with_shm_config(100).without_shm());
    assert_eq!(plain.publish(1000, now).memory, Memory::Regular);
}

fn done<C: std::fmt::Debug, T: std::fmt::Debug>(
    step: PublishStep<C, T>,
) -> Result<Published, PublishError> {
    match step {
        PublishStep::Done(r) => r,
        other => panic!("expected an end, got {other:?}"),
    }
}

#[test]
fn the_route_follows_what_the_publisher_says() {
    assert_eq!(publisher(pub_builder("t")).route(), Route::WireOnly);
    let local = pub_builder("t").with_locality(Locality::SessionLocal);
    assert_eq!(publisher(local).route(), Route::WireOnly);
    let remote = pub_builder("t").with_locality(Locality::Remote);
    assert_eq!(publisher(remote).route(), Route::BusAndWire);
    let inside = pub_builder("t")
        .with_locality(Locality::Remote)
        .with_intra_process_only();
    assert_eq!(publisher(inside).route(), Route::BusOnly);
}

#[test]
fn without_a_word_on_the_audience_the_wire_is_taken_alone() {
    let p = publisher(pub_builder("t"));
    let bus: Arc<Channel<&'static str>> = Arc::new(Channel::new());
    let _s = subscribe(bus.clone(), 0, 1, Arc::new("s"));
    let mut depth = DeliveryDepth::new();
    let msg = match p.publish_shared("m", &bus, 1, &mut depth) {
        PublishStep::Send(m) => m,
        other => panic!("expected the wire, got {other:?}"),
    };
    assert_eq!(
        done(p.shared_sent(msg, Ok(()), &bus, 1, &mut depth)),
        Ok(Published::Wire)
    );
    assert_eq!(
        done(p.owned_sent(msg, Err("down".to_string()), &bus, 1, &mut depth)),
        Err(PublishError::Wire("down".to_string()))
    );
}

#[test]
fn a_remote_publisher_takes_both_ways_wire_first() {
    let p = publisher(pub_builder("t").with_locality(Locality::Remote));
    let bus: Arc<Channel<&'static str>> = Arc::new(Channel::new());
    let mut depth = DeliveryDepth::new();
    assert!(matches!(
        p.publish_owned("m", &bus, 1, &mut depth),
        PublishStep::Send("m")
    ));
    assert_eq!(
        done(p.owned_sent("m", Ok(()), &bus, 1, &mut depth)),
        Ok(Published::BusAndWire(Delivery::NoTaker))
    );
    assert_eq!(
        done(p.shared_sent("m", Err("down".to_string()), &bus, 1, &mut depth)),
        Err(PublishError::Wire("down".to_string()))
    );
    let _s = subscribe(bus.clone(), 0, 1, Arc::new("s"));
    match p.shared_sent("m", Ok(()), &bus, 1, &mut depth) {
        PublishStep::Share(callbacks, "m") => assert_eq!(*callbacks[0], "s"),
        other => panic!("expected to share, got {other:?}"),
    }
    assert_eq!(depth.depth, 1);
    assert_eq!(
        p.shared_called(1, &bus, 1, &mut depth),
        Ok(Published::BusAndWire(Delivery::Sent(1)))
    );
    assert_eq!(depth.depth, 0);
}

#[test]
fn an_intra_process_publisher_stays_on_the_bus() {
    let p = publisher(pub_builder("t").with_intra_process_only());
    let bus: Arc<Channel<&'static str>> = Arc::new(Channel::new());
    let mut depth = DeliveryDepth::new();
    assert_eq!(
        done(p.publish_shared("m", &bus, 1, &mut depth)),
        Ok(Published::Bus(Delivery::NoTaker))
    );
    let owner = subscribe_owned(bus.clone(), 0, 1, Arc::new("o"));
    let e = done(p.publish_shared("m", &bus, 1, &mut depth)).unwrap_err();
    assert_eq!(e, PublishError::OwnedOnly("/ns/t".to_string(), 1));
    assert_eq!(
        e.message(),
        "publish_shared on an intra-process-only publisher for /ns/t: \
         1 subscriber(s) on this topic take the message by value, \
         and a shared publish cannot serve them. The message would be \
         dropped with no wire behind it. Use publish_owned(), or build \
         the subscriber with build_with_shared_callback()."
    );
    match p.publish_owned("m", &bus, 1, &mut depth) {
        PublishStep::Give(callback, "m") => assert_eq!(*callback, "o"),
        other => panic!("expected a gift, got {other:?}"),
    }
    assert_eq!(
        p.given(true, &mut depth),
        Ok(Published::Bus(Delivery::Sent(1)))
    );
    let _s = subscribe(bus.clone(), 1, 1, Arc::new("s"));
    match p.publish_owned("m", &bus, 1, &mut depth) {
        PublishStep::Share(callbacks, "m") => assert_eq!(callbacks.len(), 1),
        other => panic!("expected to share, got {other:?}"),
    }
    assert!(p.shared_called(0, &bus, 1, &mut depth).is_err());
    owner.unsubscribe();
    let mut deep = DeliveryDepth {
        depth: MAX_DELIVERY_DEPTH,
    };
    assert_eq!(
        done(p.publish_shared("m", &bus, 1, &mut deep)),
        Ok(Published::Bus(Delivery::DepthExceeded))
    );
}

#[test]
fn a_callback_that_panicked_took_nothing() {
    let p = publisher(pub_builder("t").with_intra_process_only());
    let mut depth = DeliveryDepth { depth: 1 };
    assert_eq!(
        p.given(false, &mut depth),
        Ok(Published::Bus(Delivery::NoTaker))
    );
}

#[test]
fn the_bus_keeps_no_history() {
    let p = publisher(
        pub_builder("t")
            .with_intra_process_only()
            .with_qos(QosProfile {
                durability: QosDurability::TransientLocal,
                ..Default::default()
            }),
    );
    let bus: Arc<Channel<&'static str>> = Arc::new(Channel::new());
    let _s = subscribe(bus.clone(), 0, 1, Arc::new("s"));
    let mut depth = DeliveryDepth::new();
    let e = done(p.publish_shared("m", &bus, 1, &mut depth)).unwrap_err();
    assert_eq!(e, PublishError::DurableBus("/ns/t".to_string()));
    assert_eq!(
        e.message(),
        "publish on a TRANSIENT_LOCAL, intra-process-only publisher for /ns/t: \
         the intra-process path has no durability cache, so a late-joining \
         subscriber would be served a history this message is missing from. \
         Use publish(), or drop the transient-local durability."
    );
    assert!(done(p.publish_owned("m", &bus, 1, &mut depth)).is_err());
    assert_eq!(depth.depth, 0);
}

#[test]
fn waiting_ends_with_enough_endpoints_or_no_time() {
    assert_eq!(wait_step(2, 2, 0), WaitStep::Matched);
    assert_eq!(wait_step(1, 2, 0), WaitStep::TimedOut);
    assert_eq!(wait_step(1, 2, 7), WaitStep::Sleep(7));
    assert!(wait_ended(2, 2));
    assert!(!wait_ended(1, 2));
    let p = publisher(pub_builder("t"));
    assert_eq!(p.wait_for_subscription(0, 1, 3), WaitStep::Sleep(3));
    let s: ZSub<u8> = sub_builder("t").build().unwrap().declared();
    assert_eq!(s.wait_for_publisher(1, 1, 3), WaitStep::Matched);
}

fn sub_builder(topic: &str) -> ZSubBuilder {
    ZSubBuilder {
        entity: entity(topic),
        dyn_schema: None,
        locality: None,
        expected_encoding: None,
    }
}

fn on_bus(plan: Result<SubscriberPlan, BuildError>) -> Option<Sink> {
    plan.unwrap().bus
}

#[test]
fn subscribers_are_planned_from_their_settings() {
    let plan = sub_builder("t").build().unwrap();
    assert_eq!(plan.queue_size, Some(10));
    assert_eq!(plan.entity.topic, "/ns/t");
    assert!(!plan.notifies);
    let all = sub_builder("t")
        .with_qos(QosProfile {
            history: QosHistory::KeepAll,
            ..Default::default()
        })
        .with_encoding("cdr".to_string())
        .build_with_notifier()
        .unwrap();
    assert_eq!(all.queue_size, Some(usize::MAX));
    assert_eq!(all.expected_encoding.as_deref(), Some("cdr"));
    assert!(all.notifies);
    assert_eq!(on_bus(sub_builder("t").build_with_callback()), None);
    assert_eq!(
        on_bus(sub_builder("t").build_with_shared_callback()),
        Some(Sink::Shared)
    );
    assert_eq!(
        on_bus(sub_builder("t").build_with_owned_callback()),
        Some(Sink::Owned)
    );
    let remote = || sub_builder("t").with_locality(Locality::Remote);
    assert_eq!(on_bus(remote().build_with_shared_callback()), None);
    assert_eq!(on_bus(remote().build_with_owned_callback()), None);
    assert_eq!(sub_builder("t").build_raw_subscriber().unwrap().topic, "/ns/t");
}

#[test]
fn a_subscriber_by_value_is_not_run_for_the_wire() {
    let shared = sub_builder("t").build_with_shared_callback().unwrap();
    assert_eq!(shared.from_wire(5), Some(5));
    assert!(sub_builder("t").build().unwrap().on_wire);
    let owned = sub_builder("t").build_with_owned_callback().unwrap();
    assert!(!owned.on_wire);
    assert_eq!(owned.from_wire(5), None);
}

#[test]
fn raw_messages_are_received_in_order() {
    let mut s: ZSub<u8> = sub_builder("t").build().unwrap().declared();
    assert!(!s.is_ready());
    assert!(matches!(s.recv_serialized(), RecvStep::Wait));
    let wait = Duration::from_secs(1);
    assert!(matches!(
        s.recv_serialized_timeout(wait, false),
        RecvStep::Wait
    ));
    assert!(matches!(
        s.recv_serialized_timeout(wait, true),
        RecvStep::Done(Err(RecvError::Timeout(d))) if d == wait
    ));
    s.queue.as_mut().unwrap().push(1);
    s.queue.as_mut().unwrap().push(2);
    assert!(s.is_ready());
    assert!(matches!(s.recv_serialized(), RecvStep::Done(Ok(1))));
    assert!(matches!(
        s.recv_serialized_timeout(wait, true),
        RecvStep::Done(Ok(2))
    ));
    let mut called: ZSub<u8> = sub_builder("t").build_with_callback().unwrap().declared();
    match called.recv_serialized() {
        RecvStep::Done(Err(e)) => assert_eq!(
            e.message().unwrap(),
            "Subscriber was built with callback, no queue available"
        ),
        other => panic!("expected an error, got {other:?}"),
    }
    assert_eq!(called.entity().topic, "/ns/t");
}

#[test]
fn dynamic_messages_are_decoded_on_receipt() {
    let mut message = DynamicMessage::new(&schema());
    message.set("n", 42i32).unwrap();
    let bytes = serialize_cdr(&message).unwrap();
    let mut s: ZSub<Vec<u8>> = sub_builder("t")
        .with_dyn_schema(schema(), None)
        .build()
        .unwrap()
        .declared();
    assert!(s.try_recv().is_none());
    assert!(matches!(s.recv(), RecvStep::Wait));
    for _ in 0..4 {
        s.queue.as_mut().unwrap().push(bytes.clone());
    }
    let take = |step: RecvStep<DynamicMessage>| match step {
        RecvStep::Done(Ok(m)) => m.get::<i32>("n").unwrap(),
        other => panic!("expected a message, got {other:?}"),
    };
    assert_eq!(take(s.recv()), 42);
    assert_eq!(take(s.async_recv()), 42);
    assert_eq!(take(s.recv_timeout(Duration::from_secs(1), false)), 42);
    assert_eq!(s.try_recv().unwrap().unwrap().get::<i32>("n").unwrap(), 42);
    s.queue.as_mut().unwrap().push(vec![0, 1]);
    assert!(matches!(
        s.recv(),
        RecvStep::Done(Err(RecvError::Decode(_)))
    ));
    assert!(matches!(
        s.recv_timeout(Duration::from_secs(1), true),
        RecvStep::Done(Err(RecvError::Timeout(_)))
    ));
    assert_eq!(s.schema().unwrap().name, "Number");
}

#[test]
fn dynamic_messages_need_a_schema() {
    let mut s: ZSub<Vec<u8>> = sub_builder("t").build().unwrap().declared();
    let text = |step: RecvStep<DynamicMessage>| match step {
        RecvStep::Done(Err(e)) => e.message().unwrap(),
        other => panic!("expected an error, got {other:?}"),
    };
    assert_eq!(
        text(s.recv()),
        "dyn_schema required for DynamicMessage (use .with_dyn_schema() when building)"
    );
    assert_eq!(
        text(s.async_recv()),
        "dyn_schema required for DynamicMessage"
    );
    assert!(s.try_recv().is_none());
    let mut called: ZSub<Vec<u8>> = sub_builder("t")
        .with_dyn_schema(schema(), None)
        .build_with_callback()
        .unwrap()
        .declared();
    assert_eq!(
        text(called.recv()),
        "Subscriber was built with callback, no queue available"
    );
}
