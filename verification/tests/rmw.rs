use hiroz::entity::{EndpointEntity, EndpointKind, Entity, NodeEntity};
use hiroz::pubsub::publisher::{Attachment, Memory, ZPub};
use hiroz::pubsub::subscriber::{RecvError, ZSub};
use hiroz::qos::QosProfile;
use hiroz::queue::BoundedQueue;
use hiroz::rmw::callback_slot::CallbackSlot;
use hiroz::rmw::entry::{
    rmw_client_request_publisher_get_actual_qos, rmw_publish_loaned_message,
    rmw_publish_serialized_message, rmw_publisher_assert_liveliness,
    rmw_publisher_count_matched_subscriptions, rmw_publisher_get_actual_qos, rmw_send_request,
    rmw_send_response, rmw_subscription_count_matched_publishers, rmw_subscription_get_actual_qos,
    rmw_subscription_set_content_filter, rmw_take_loaned_message, rmw_take_request,
    rmw_take_response, rmw_take_sequence, rmw_take_serialized_message, rmw_take_with_info,
};
use hiroz::rmw::exec_callback::{Dispatch, ExecCallback};
use hiroz::rmw::guard_condition::GuardConditionImpl;
use hiroz::rmw::pubsub::{
    actual_qos, count_matched, message_info, PublisherImpl, RmwLiveliness, RmwQosProfile, RmwTime, Sample, SerializedMessage,
    SubscriptionImpl,
};
use hiroz::rmw::service::{response_info, ClientImpl, RequestId, ResponseError, ServiceImpl};
use hiroz::rmw::{check_arguments, ret_of, RmwRet};
use hiroz::time::ZTime;
use std::sync::Arc;

const ME: u64 = 1;
const OTHER: u64 = 2;

#[derive(Debug, Clone, Copy, PartialEq, Eq)]
enum Callback {
    Passive,
    Clears,
    Notifies,
}

/// Stands in for an executor: makes the calls that a slot asks for.
struct Executor {
    slot: ExecCallback<Callback>,
    calls: usize,
    last_count: usize,
    reentries_left: usize,
}

impl Executor {
    fn new(site: &str, reentries: usize) -> Self {
        Executor {
            slot: ExecCallback::new(site),
            calls: 0,
            last_count: 0,
            reentries_left: reentries,
        }
    }

    fn dispatch(&mut self, call: Option<Dispatch<Callback>>) {
        let Some(call) = call else { return };
        self.calls += 1;
        self.last_count = call.count;
        if self.reentries_left > 0 && call.callback != Callback::Passive {
            self.reentries_left -= 1;
            match call.callback {
                Callback::Clears => self.set(None, 0),
                Callback::Notifies => self.notify_one(),
                Callback::Passive => {}
            }
        }
        self.slot.finish_dispatch(ME);
    }

    fn notify_one(&mut self) {
        let call = self.slot.notify_one(ME);
        self.dispatch(call);
    }

    fn set(&mut self, callback: Option<Callback>, user_data: usize) {
        let call = self.slot.set(callback, user_data, ME);
        assert!(!self.slot.must_wait(ME), "a thread waited for itself");
        self.dispatch(call);
    }
}

#[test]
fn installing_a_callback_over_a_backlog_survives_reentry() {
    let mut exec = Executor::new("subscription", 1);
    exec.notify_one();
    exec.notify_one();
    exec.set(Some(Callback::Clears), 5);
    assert_eq!(exec.calls, 1, "backlog replays in exactly one call");
    assert_eq!(exec.last_count, 2, "and reports both unread items");
    assert!(exec.slot.callback.is_none());
}

#[test]
fn delivery_notification_survives_reentry_into_set() {
    let mut exec = Executor::new("service", 1);
    exec.set(Some(Callback::Clears), 5);
    exec.notify_one();
    assert_eq!(exec.calls, 1);
}

#[test]
fn delivery_notification_survives_reentry_into_itself() {
    let mut exec = Executor::new("client", 1);
    exec.set(Some(Callback::Notifies), 5);
    exec.notify_one();
    assert_eq!(exec.calls, 2, "outer dispatch plus one re-entrant dispatch");
}

#[test]
fn set_waits_for_a_dispatch_in_flight_on_another_thread() {
    let mut slot = ExecCallback::new("subscription");
    slot.set(Some(Callback::Passive), 5, ME);
    assert!(slot.notify_one(OTHER).is_some());
    assert!(slot.set(None, 0, ME).is_none());
    assert!(slot.must_wait(ME));
    assert!(!slot.must_wait(OTHER));
    slot.finish_dispatch(OTHER);
    assert!(!slot.must_wait(ME));
}

#[test]
fn set_does_not_wait_for_a_dispatch_on_its_own_thread() {
    let mut exec = Executor::new("service", 1);
    exec.set(Some(Callback::Clears), 5);
    exec.notify_one();
    assert_eq!(exec.calls, 1);
}

#[test]
fn each_call_of_a_thread_ends_by_itself() {
    let mut slot = ExecCallback::new("client");
    slot.set(Some(Callback::Passive), 5, ME);
    slot.notify_one(OTHER);
    slot.notify_one(OTHER);
    slot.finish_dispatch(OTHER);
    assert!(slot.must_wait(ME));
    slot.finish_dispatch(OTHER);
    assert!(!slot.must_wait(ME));
    slot.finish_dispatch(OTHER);
    assert!(slot.in_flight.is_empty());
}

#[test]
fn items_arriving_with_no_callback_are_counted_not_dropped() {
    let mut exec = Executor::new("subscription", 0);
    exec.notify_one();
    exec.notify_one();
    exec.notify_one();
    assert_eq!(exec.slot.unread(), 3);
    assert_eq!(exec.calls, 0);
}

#[test]
fn installing_a_callback_drains_the_backlog() {
    let mut exec = Executor::new("subscription", 0);
    exec.notify_one();
    exec.set(Some(Callback::Passive), 5);
    assert_eq!(exec.slot.unread(), 0, "backlog is reset once replayed");
    assert_eq!(exec.calls, 1);
}

#[test]
fn installing_a_callback_with_no_backlog_does_not_dispatch() {
    let mut exec = Executor::new("subscription", 0);
    exec.set(Some(Callback::Passive), 5);
    assert_eq!(exec.calls, 0);
}

#[test]
fn a_cleared_callback_goes_back_to_counting() {
    let mut exec = Executor::new("subscription", 0);
    exec.set(Some(Callback::Passive), 5);
    exec.notify_one();
    assert_eq!(exec.calls, 1);
    exec.set(None, 0);
    exec.notify_one();
    assert_eq!(exec.calls, 1, "no dispatch once cleared");
    assert_eq!(exec.slot.unread(), 1, "and the item is counted instead");
}

#[test]
fn subscription_setter_with_no_pending_messages_does_not_panic() {
    let mut slot: CallbackSlot<Callback> = CallbackSlot::new();
    let call = slot.set_subscription_callback_core(Some(Callback::Passive), 0);
    assert!(slot.callback.is_some());
    assert!(
        call.is_none(),
        "the callback fired despite zero pending messages"
    );
}

#[test]
fn callbacks_hear_what_arrived_before_them() {
    let mut slot: CallbackSlot<Callback> = CallbackSlot::new();
    assert!(slot.notify().is_none());
    assert!(slot.notify().is_none());
    let call = slot.set_service_callback_core(Some(Callback::Passive), 7).unwrap();
    assert_eq!((call.user_data, call.count), (7, 2));
    assert_eq!(slot.unread, 0);
    assert_eq!(slot.notify().unwrap().count, 1);
    assert!(slot.set_client_callback_core(None, 7).is_none());
    assert_eq!(slot.user_data, 0);
    assert!(slot.set_subscription_callback_core(None, 7).is_none());
    assert_eq!(slot.user_data, 7);
}

#[test]
fn guard_conditions_trigger_and_reset() {
    let mut gc = GuardConditionImpl::new(Some(Arc::new("notifier")));
    assert!(!gc.is_ready());
    assert_eq!(*gc.trigger().unwrap(), "notifier");
    assert!(gc.is_ready());
    gc.reset();
    assert!(!gc.is_ready());
    let mut lonely: GuardConditionImpl<u8> = GuardConditionImpl::new(None);
    assert!(lonely.trigger().is_err());
    assert!(!lonely.is_ready());
}

fn qos() -> RmwQosProfile {
    let none = RmwTime { sec: 0, nsec: 0 };
    RmwQosProfile {
        history: 1,
        depth: 10,
        reliability: 1,
        durability: 2,
        deadline: none,
        lifespan: RmwTime { sec: 0, nsec: 1 },
        liveliness: RmwLiveliness::SystemDefault,
        liveliness_lease_duration: none,
        avoid_ros_namespace_conventions: false,
    }
}

#[test]
fn what_was_left_open_is_filled_in() {
    let actual = actual_qos(qos());
    let infinite = RmwTime {
        sec: 2147483647,
        nsec: 0,
    };
    assert_eq!(actual.deadline, infinite);
    assert_eq!(actual.lifespan, RmwTime { sec: 0, nsec: 1 });
    assert_eq!(actual.liveliness_lease_duration, infinite);
    assert_eq!(actual.liveliness, RmwLiveliness::Automatic);
    assert_eq!(actual.depth, 10);
    assert_eq!(actual_qos(actual), actual);
    let manual = RmwQosProfile {
        liveliness: RmwLiveliness::ManualByTopic,
        ..qos()
    };
    assert_eq!(
        actual_qos(manual).liveliness,
        RmwLiveliness::ManualByTopic
    );
}

fn endpoint(topic: &str) -> EndpointEntity {
    EndpointEntity {
        id: 0,
        node: None,
        kind: EndpointKind::Subscription,
        topic: topic.to_string(),
        type_info: None,
        qos: QosProfile::default().to_protocol_qos(),
    }
}

#[test]
fn only_compatible_endpoints_match() {
    let node = Entity::Node(NodeEntity {
        name: "n".to_string(),
        namespace: "/".to_string(),
    });
    let entities = vec![
        Entity::Endpoint(endpoint("/t")),
        node,
        Entity::Endpoint(endpoint("/t")),
    ];
    assert_eq!(count_matched(&entities, &vec![true, true, false]), 1);
    assert_eq!(count_matched(&entities, &vec![true, true, true]), 2);
}

fn attachment(n: i64) -> Attachment {
    Attachment {
        sequence_number: n,
        source_timestamp: ZTime::from_unix_nanos(1000 + n),
        source_gid: [n as u8; 16],
    }
}

fn subscription(samples: Vec<Sample>) -> SubscriptionImpl {
    let mut queue = BoundedQueue::new(10);
    for s in samples {
        queue.push(s);
    }
    SubscriptionImpl {
        inner: ZSub {
            entity: endpoint("/t"),
            queue: Some(queue),
            dyn_schema: None,
            expected_encoding: None,
        },
        qos: qos(),
        reception_sn: 0,
    }
}

fn sample(n: u8, known: bool) -> Sample {
    Sample {
        payload: vec![n; n as usize],
        attachment: if known { Some(attachment(n as i64)) } else { None },
    }
}

#[test]
fn messages_are_taken_with_what_is_known_of_them() {
    let mut sub = subscription(vec![sample(1, true), sample(2, false), sample(3, true)]);
    assert!(sub.is_ready());
    let first = sub.take_with_info_at(true, 99).unwrap().unwrap();
    assert_eq!(first.payload, vec![1]);
    let info = first.info.unwrap();
    assert_eq!(info.source_timestamp, 1001);
    assert_eq!(info.received_timestamp, 99);
    assert_eq!(info.publication_sequence_number, 1);
    assert_eq!(info.reception_sequence_number, 0);
    assert_eq!(info.publisher_gid, [1; 16]);
    assert!(!info.from_intra_process);
    let second = sub.take_with_info_at(true, 100).unwrap().unwrap();
    let info = second.info.unwrap();
    assert_eq!((info.source_timestamp, info.publication_sequence_number), (0, 0));
    assert_eq!(info.publisher_gid, [0; 16]);
    assert_eq!(info.reception_sequence_number, 1);
    assert_eq!(sub.take().unwrap(), Some(vec![3; 3]));
    assert_eq!(sub.reception_sn, 3);
    assert_eq!(sub.take().unwrap(), None);
    assert!(!sub.is_ready());
    assert_eq!(sub.get_actual_qos(), actual_qos(qos()));
    sub.inner.queue = None;
    assert!(matches!(sub.take(), Err(RecvError::NoQueue)));
}

#[test]
fn every_message_taken_is_counted() {
    let mut sub = subscription((1..5).map(|n| sample(n, true)).collect());
    sub.reception_sn = u64::MAX - 1;
    assert_eq!(sub.take().unwrap(), Some(vec![1]));
    assert_eq!(sub.reception_sn, u64::MAX);
    assert!(sub.take_with_info_at(false, 7).unwrap().unwrap().info.is_none());
    assert_eq!(sub.reception_sn, 0);
    let info = sub.take_with_info_at(true, 7).unwrap().unwrap().info.unwrap();
    assert_eq!(info.reception_sequence_number, 0);
    let taken = sub.take_sequence(2, 2, 2).unwrap();
    assert_eq!(taken[0].info.as_ref().unwrap().reception_sequence_number, 1);
    assert_eq!(sub.take().unwrap(), None);
    assert_eq!(sub.reception_sn, 2);
}

#[test]
fn the_time_of_receipt_is_now() {
    let mut sub = subscription(vec![sample(1, true)]);
    let info = sub.take_with_info(true).unwrap().unwrap().info.unwrap();
    assert!(info.received_timestamp > 1_500_000_000_000_000_000);
    assert_eq!(message_info(&None, 3, 4).received_timestamp, 3);
}

#[test]
fn buffers_grow_to_the_message() {
    let mut sub = subscription(vec![sample(5, true), sample(2, true)]);
    let mut message = SerializedMessage {
        buffer: vec![],
        capacity: 3,
    };
    let info = sub.take_serialized_at(&mut message, false, 0).unwrap().unwrap();
    assert!(info.is_none());
    assert_eq!(message.buffer, vec![5; 5]);
    assert_eq!(message.capacity, 5);
    let info = sub.take_serialized(&mut message, true).unwrap().unwrap();
    assert_eq!(info.unwrap().reception_sequence_number, 1);
    assert_eq!(message.buffer, vec![2; 2]);
    assert_eq!(message.capacity, 5);
    assert!(sub.take_serialized(&mut message, true).unwrap().is_none());
}

#[test]
fn sequences_are_taken_as_far_as_they_go() {
    let mut sub = subscription((1..5).map(|n| sample(n, true)).collect());
    for (count, messages, infos) in [(0, 5, 5), (6, 5, 9), (6, 9, 5)] {
        assert!(matches!(
            sub.take_sequence(count, messages, infos),
            Err(RmwRet::InvalidArgument)
        ));
    }
    let taken = sub.take_sequence(3, 5, 5).unwrap();
    assert_eq!(taken.len(), 3);
    for (i, t) in taken.iter().enumerate() {
        let info = t.info.as_ref().unwrap();
        assert_eq!(info.publication_sequence_number, i as u64 + 1);
        assert_eq!(info.reception_sequence_number, i as u64);
    }
    let capacity = sub.inner.queue.as_ref().unwrap().capacity;
    assert_eq!(sub.take_sequence(5, 5, 5).unwrap().len(), 1);
    assert_eq!(sub.inner.queue.as_ref().unwrap().capacity, capacity);
    assert!(sub.take_sequence(5, 5, 5).unwrap().is_empty());
}

#[test]
fn publishers_number_their_messages() {
    let mut p = PublisherImpl {
        inner: ZPub {
            entity: endpoint("/t"),
            sn: 4,
            gid: [7; 16],
            with_attachment: true,
            shm_threshold: Some(10),
            dyn_schema: None,
            encoding: None,
            intra_process_only: false,
            locality: None,
        },
        qos: qos(),
    };
    let plan = p.publish(10, ZTime::zero());
    assert_eq!(plan.memory, Memory::Shared);
    assert_eq!(plan.options.attachment.unwrap().sequence_number, 4);
    let options = p.publish_serialized_message(ZTime::zero());
    assert_eq!(options.attachment.unwrap().sequence_number, 5);
    assert_eq!(p.get_actual_qos(), actual_qos(qos()));
    assert_eq!(
        rmw_publisher_get_actual_qos(true, RmwRet::Success, Some(&p)),
        Ok(actual_qos(qos()))
    );
    let options =
        rmw_publish_serialized_message(true, RmwRet::Success, true, &mut p, ZTime::zero()).unwrap();
    assert_eq!(options.attachment.unwrap().sequence_number, 6);
    assert!(rmw_publish_serialized_message(
        false,
        RmwRet::Success,
        true,
        &mut p,
        ZTime::zero()
    )
    .is_err());
}

fn request(guid: u8, n: i64) -> RequestId {
    RequestId {
        writer_guid: [guid; 16],
        sequence_number: n,
        source_timestamp: 77,
    }
}

#[test]
fn a_request_is_answered_once() {
    let mut service = ServiceImpl::new(qos());
    let info = service.take_request_at(request(1, 5), "first", 88);
    assert_eq!(info.sequence_number, 5);
    assert_eq!(info.writer_guid, [1; 16]);
    assert_eq!((info.source_timestamp, info.received_timestamp), (77, 88));
    service.take_request(request(2, 5), "second");
    service.take_request(request(1, 6), "third");
    service.take_request(request(1, 5), "again");
    assert_eq!(service.pending.len(), 3);
    assert_eq!(service.send_response([1; 16], 5), Ok("again"));
    let gone = service.send_response([1; 16], 5).unwrap_err();
    assert_eq!(gone, ResponseError::NotPending);
    assert_eq!(gone.message(), "Pending request not found");
    assert_eq!(service.send_response([2; 16], 5), Ok("second"));
    assert_eq!(service.send_response([1; 16], 6), Ok("third"));
    assert!(service.pending.is_empty());
}

#[test]
fn responses_are_taken_with_what_is_known_of_them() {
    let client = ClientImpl { qos: qos() };
    assert!(client.take_response(None, true).is_none());
    let t = client.take_response_at(Some(sample(3, true)), true, 9).unwrap();
    assert_eq!(t.payload, vec![3; 3]);
    let info = t.info.unwrap();
    assert_eq!((info.sequence_number, info.source_timestamp), (3, 1003));
    assert_eq!(info.received_timestamp, 9);
    assert!(client.take_response(Some(sample(3, true)), false).unwrap().info.is_none());
    let unknown = response_info(&None, 9);
    assert_eq!(unknown.writer_guid, [0; 16]);
    assert_eq!((unknown.sequence_number, unknown.source_timestamp), (0, 0));
    assert_eq!(client.get_actual_qos(), qos());
}

#[test]
fn arguments_are_checked_in_order() {
    let wrong = RmwRet::IncorrectImplementation;
    assert_eq!(check_arguments(false, wrong, false), RmwRet::InvalidArgument);
    assert_eq!(check_arguments(true, wrong, false), wrong);
    assert_eq!(
        check_arguments(true, RmwRet::Success, false),
        RmwRet::InvalidArgument
    );
    assert_eq!(
        check_arguments(true, RmwRet::Success, true),
        RmwRet::Success
    );
    assert_eq!(ret_of(true), RmwRet::Success);
    assert_eq!(ret_of(false), RmwRet::Failure);
    assert_eq!(rmw_publish_loaned_message(), RmwRet::Unsupported);
    assert_eq!(rmw_take_loaned_message(), RmwRet::Unsupported);
    assert_eq!(rmw_subscription_set_content_filter(), RmwRet::Unsupported);
    assert_eq!(rmw_publisher_assert_liveliness(true), RmwRet::Success);
    assert_eq!(
        rmw_publisher_assert_liveliness(false),
        RmwRet::InvalidArgument
    );
}

#[test]
fn calls_do_nothing_with_wrong_arguments() {
    let wrong = RmwRet::IncorrectImplementation;
    let good = RmwRet::Success;
    let mut sub = subscription(vec![sample(1, true), sample(2, true), sample(3, true)]);
    assert_eq!(
        rmw_take_with_info(false, good, true, &mut sub).unwrap_err(),
        RmwRet::InvalidArgument
    );
    assert_eq!(
        rmw_take_sequence(true, wrong, true, &mut sub, 1, 1, 1).unwrap_err(),
        wrong
    );
    assert_eq!(sub.inner.queue.as_ref().unwrap().len(), 3);
    let taken = rmw_take_with_info(true, good, true, &mut sub).unwrap().unwrap();
    assert_eq!(taken.payload, vec![1]);
    let mut message = SerializedMessage {
        buffer: vec![],
        capacity: 0,
    };
    let info = rmw_take_serialized_message(true, good, true, &mut sub, &mut message, true)
        .unwrap()
        .unwrap();
    assert_eq!(info.unwrap().reception_sequence_number, 1);
    assert_eq!(message.buffer, vec![2; 2]);
    assert_eq!(
        rmw_take_sequence(true, good, true, &mut sub, 2, 2, 2).unwrap().len(),
        1
    );
    assert_eq!(
        rmw_subscription_get_actual_qos(true, good, Some(&sub)),
        Ok(actual_qos(qos()))
    );
    assert_eq!(
        rmw_subscription_get_actual_qos(true, good, None),
        Err(RmwRet::InvalidArgument)
    );
    sub.inner.queue = None;
    assert_eq!(
        rmw_take_with_info(true, good, true, &mut sub).unwrap_err(),
        RmwRet::Failure
    );
    let matched = vec![Entity::Endpoint(endpoint("/t"))];
    assert_eq!(
        rmw_publisher_count_matched_subscriptions(true, good, true, &matched, &vec![true]),
        Ok(1)
    );
    assert_eq!(
        rmw_subscription_count_matched_publishers(true, good, false, &matched, &vec![true]),
        Err(RmwRet::InvalidArgument)
    );
}

#[test]
fn a_request_goes_there_and_its_response_back() {
    let good = RmwRet::Success;
    let mut service = ServiceImpl::new(qos());
    assert!(rmw_take_request(true, good, true, &mut service, Ok(None))
        .unwrap()
        .is_none());
    assert_eq!(
        rmw_take_request(true, good, true, &mut service, Err("closed".to_string())).unwrap_err(),
        RmwRet::Failure
    );
    let came = Ok(Some((request(4, 9), "way back")));
    let info = rmw_take_request(true, good, true, &mut service, came)
        .unwrap()
        .unwrap();
    assert_eq!((info.sequence_number, info.source_timestamp), (9, 77));
    assert_eq!(
        rmw_send_response(true, good, true, &mut service, [4; 16], 9),
        Ok("way back")
    );
    assert_eq!(
        rmw_send_response(true, good, true, &mut service, [4; 16], 9),
        Err(RmwRet::Failure)
    );
    assert_eq!(rmw_send_request(true, good, true, Some(9)), Ok(9));
    assert_eq!(
        rmw_send_request(true, good, true, None),
        Err(RmwRet::Failure)
    );
    let client = ClientImpl { qos: qos() };
    let t = rmw_take_response(true, good, Some(&client), Ok(Some(sample(3, true))))
        .unwrap()
        .unwrap();
    assert_eq!(t.info.unwrap().sequence_number, 3);
    assert_eq!(
        rmw_take_response(true, good, None, Ok(None)).unwrap_err(),
        RmwRet::InvalidArgument
    );
    assert_eq!(
        rmw_take_response(true, good, Some(&client), Err("closed".to_string())).unwrap_err(),
        RmwRet::Failure
    );
    assert_eq!(
        rmw_client_request_publisher_get_actual_qos(true, Some(&client)),
        Ok(qos())
    );
    assert_eq!(
        rmw_client_request_publisher_get_actual_qos(false, Some(&client)),
        Err(RmwRet::InvalidArgument)
    );
}
