//! The calls of the middleware interface, as far as they decide anything. Each
//! first checks what it was given: whether every pointer is there (`present`),
//! whether the object was made by this implementation, and whether it holds its
//! data.

use crate::entity::{Entity, GidArray};
use crate::pubsub::publisher::PutOptions;
use crate::rmw::pubsub::{
    clock_told, count_matched, filled_in, matches_among, taken_some_time, MessageInfo,
    PublisherImpl, RmwQosProfile, Sample, SerializedMessage, SubscriptionImpl, TakenMessage,
};
use crate::rmw::service::{
    request_key, responds, ClientImpl, RequestId, ServiceImpl, ServiceInfo, TakenResponse,
};
use crate::rmw::{check_arguments, entry_ret, RmwRet};
use crate::time::ZTime;
use vstd::prelude::*;

verus! {

/// Messages that the middleware lends are not supported.
pub fn rmw_publish_loaned_message() -> (r: RmwRet)
    ensures
        r == RmwRet::Unsupported,
{
    RmwRet::Unsupported
}

/// Messages that the middleware lends are not supported.
pub fn rmw_take_loaned_message() -> (r: RmwRet)
    ensures
        r == RmwRet::Unsupported,
{
    RmwRet::Unsupported
}

/// Content filters are not supported.
pub fn rmw_subscription_set_content_filter() -> (r: RmwRet)
    ensures
        r == RmwRet::Unsupported,
{
    RmwRet::Unsupported
}

/// A publisher that is there is alive, and nothing that it sent waits for an
/// answer.
pub fn rmw_publisher_assert_liveliness(present: bool) -> (r: RmwRet)
    ensures
        r == (if present {
            RmwRet::Success
        } else {
            RmwRet::InvalidArgument
        }),
{
    if present {
        RmwRet::Success
    } else {
        RmwRet::InvalidArgument
    }
}

/// The quality of service that a publisher has.
pub fn rmw_publisher_get_actual_qos(
    present: bool,
    implementation: RmwRet,
    publisher: Option<&PublisherImpl>,
) -> (r: Result<RmwQosProfile, RmwRet>)
    ensures
        match entry_ret(present, implementation, publisher is Some) {
            RmwRet::Success => r == Ok::<RmwQosProfile, RmwRet>(filled_in(publisher->0.qos)),
            ret => r == Err::<RmwQosProfile, RmwRet>(ret),
        },
{
    match check_arguments(present, implementation, publisher.is_some()) {
        RmwRet::Success => {},
        ret => {
            return Err(ret);
        },
    }
    match publisher {
        Some(p) => Ok(p.get_actual_qos()),
        None => Err(RmwRet::InvalidArgument),
    }
}

/// The quality of service that a subscription has.
pub fn rmw_subscription_get_actual_qos(
    present: bool,
    implementation: RmwRet,
    subscription: Option<&SubscriptionImpl>,
) -> (r: Result<RmwQosProfile, RmwRet>)
    ensures
        match entry_ret(present, implementation, subscription is Some) {
            RmwRet::Success => r == Ok::<RmwQosProfile, RmwRet>(filled_in(subscription->0.qos)),
            ret => r == Err::<RmwQosProfile, RmwRet>(ret),
        },
{
    match check_arguments(present, implementation, subscription.is_some()) {
        RmwRet::Success => {},
        ret => {
            return Err(ret);
        },
    }
    match subscription {
        Some(p) => Ok(p.get_actual_qos()),
        None => Err(RmwRet::InvalidArgument),
    }
}

/// How many of the subscriptions on a publisher's topic match it: `entities` are
/// those of the topic, and `compatible` tells of each whether its quality of
/// service is.
pub fn rmw_publisher_count_matched_subscriptions(
    present: bool,
    implementation: RmwRet,
    has_data: bool,
    entities: &Vec<Entity>,
    compatible: &Vec<bool>,
) -> (r: Result<usize, RmwRet>)
    requires
        compatible@.len() == entities@.len(),
    ensures
        match entry_ret(present, implementation, has_data) {
            RmwRet::Success => r matches Ok(n) && n == matches_among(
                entities@,
                compatible@,
                entities@.len(),
            ),
            ret => r == Err::<usize, RmwRet>(ret),
        },
{
    match check_arguments(present, implementation, has_data) {
        RmwRet::Success => Ok(count_matched(entities, compatible)),
        ret => Err(ret),
    }
}

/// How many of the publishers on a subscription's topic match it.
pub fn rmw_subscription_count_matched_publishers(
    present: bool,
    implementation: RmwRet,
    has_data: bool,
    entities: &Vec<Entity>,
    compatible: &Vec<bool>,
) -> (r: Result<usize, RmwRet>)
    requires
        compatible@.len() == entities@.len(),
    ensures
        match entry_ret(present, implementation, has_data) {
            RmwRet::Success => r matches Ok(n) && n == matches_among(
                entities@,
                compatible@,
                entities@.len(),
            ),
            ret => r == Err::<usize, RmwRet>(ret),
        },
{
    match check_arguments(present, implementation, has_data) {
        RmwRet::Success => Ok(count_matched(entities, compatible)),
        ret => Err(ret),
    }
}

/// What a message that is encoded already is put on the wire with.
pub fn rmw_publish_serialized_message(
    present: bool,
    implementation: RmwRet,
    has_data: bool,
    publisher: &mut PublisherImpl,
    now: ZTime,
) -> (r: Result<PutOptions, RmwRet>)
    ensures
        match entry_ret(present, implementation, has_data) {
            RmwRet::Success => {
                &&& r matches Ok(options)
                &&& old(publisher).inner.puts(now, options, final(publisher).inner)
                &&& final(publisher).qos == old(publisher).qos
            },
            ret => r == Err::<PutOptions, RmwRet>(ret) && *final(publisher) == *old(publisher),
        },
{
    match check_arguments(present, implementation, has_data) {
        RmwRet::Success => Ok(publisher.publish_serialized_message(now)),
        ret => Err(ret),
    }
}

/// Takes the oldest message with what is told of it.
pub fn rmw_take_with_info(
    present: bool,
    implementation: RmwRet,
    has_data: bool,
    subscription: &mut SubscriptionImpl,
) -> (r: Result<Option<TakenMessage>, RmwRet>)
    requires
        old(subscription).wf(),
    ensures
        final(subscription).wf(),
        match entry_ret(present, implementation, has_data) {
            RmwRet::Success => match r {
                Ok(Some(t)) => {
                    &&& taken_some_time(
                        t,
                        old(subscription).inner.waiting()[0],
                        true,
                        old(subscription).reception_sn,
                    )
                    &&& old(subscription).took(*final(subscription))
                },
                Ok(None) => {
                    &&& old(subscription).inner.queue is Some
                    &&& old(subscription).inner.waiting().len() == 0
                    &&& old(subscription).untouched(*final(subscription))
                },
                Err(ret) => {
                    &&& ret == RmwRet::Failure
                    &&& old(subscription).inner.queue is None
                    &&& old(subscription).untouched(*final(subscription))
                },
            },
            ret => {
                &&& r == Err::<Option<TakenMessage>, RmwRet>(ret)
                &&& *final(subscription) == *old(subscription)
            },
        },
{
    match check_arguments(present, implementation, has_data) {
        RmwRet::Success => match subscription.take_with_info(true) {
            Ok(taken) => Ok(taken),
            Err(_) => Err(RmwRet::Failure),
        },
        ret => Err(ret),
    }
}

/// Takes the oldest messages with what is told of them.
pub fn rmw_take_sequence(
    present: bool,
    implementation: RmwRet,
    has_data: bool,
    subscription: &mut SubscriptionImpl,
    count: usize,
    message_capacity: usize,
    info_capacity: usize,
) -> (r: Result<Vec<TakenMessage>, RmwRet>)
    requires
        old(subscription).wf(),
    ensures
        final(subscription).wf(),
        match entry_ret(present, implementation, has_data) {
            RmwRet::Success => match r {
                Ok(taken) => {
                    &&& 0 < count <= message_capacity
                    &&& count <= info_capacity
                    &&& old(subscription).takes_in_order(count, taken@, *final(subscription))
                    &&& {
                        ||| taken@.len() == count
                        ||| taken@.len() == old(subscription).inner.waiting().len()
                    }
                },
                Err(ret) => {
                    &&& ret == RmwRet::InvalidArgument
                    &&& count == 0 || count > message_capacity || count > info_capacity
                    &&& *final(subscription) == *old(subscription)
                },
            },
            ret => {
                &&& r == Err::<Vec<TakenMessage>, RmwRet>(ret)
                &&& *final(subscription) == *old(subscription)
            },
        },
{
    match check_arguments(present, implementation, has_data) {
        RmwRet::Success => subscription.take_sequence(count, message_capacity, info_capacity),
        ret => Err(ret),
    }
}

/// Takes the oldest message as it is encoded, with what is told of it where that
/// is asked for.
pub fn rmw_take_serialized_message(
    present: bool,
    implementation: RmwRet,
    has_data: bool,
    subscription: &mut SubscriptionImpl,
    message: &mut SerializedMessage,
    informed: bool,
) -> (r: Result<Option<Option<MessageInfo>>, RmwRet>)
    requires
        old(subscription).wf(),
    ensures
        final(subscription).wf(),
        match entry_ret(present, implementation, has_data) {
            RmwRet::Success => match r {
                Ok(Some(info)) => {
                    let sample = old(subscription).inner.waiting()[0];
                    &&& taken_some_time(
                        TakenMessage { payload: sample.payload, info },
                        sample,
                        informed,
                        old(subscription).reception_sn,
                    )
                    &&& final(message).buffer == sample.payload
                    &&& final(message).capacity == (if old(message).capacity
                        < sample.payload@.len() {
                        sample.payload@.len() as int
                    } else {
                        old(message).capacity as int
                    })
                    &&& old(subscription).took(*final(subscription))
                },
                Ok(None) => {
                    &&& old(subscription).inner.queue is Some
                    &&& old(subscription).inner.waiting().len() == 0
                    &&& old(subscription).untouched(*final(subscription))
                    &&& *final(message) == *old(message)
                },
                Err(ret) => {
                    &&& ret == RmwRet::Failure
                    &&& old(subscription).inner.queue is None
                    &&& old(subscription).untouched(*final(subscription))
                    &&& *final(message) == *old(message)
                },
            },
            ret => {
                &&& r == Err::<Option<Option<MessageInfo>>, RmwRet>(ret)
                &&& *final(subscription) == *old(subscription)
                &&& *final(message) == *old(message)
            },
        },
{
    match check_arguments(present, implementation, has_data) {
        RmwRet::Success => match subscription.take_serialized(message, informed) {
            Ok(taken) => Ok(taken),
            Err(_) => Err(RmwRet::Failure),
        },
        ret => Err(ret),
    }
}

/// Takes a request where one came: its way back is kept until it is answered. To
/// ask for one may have failed, with this error.
pub fn rmw_take_request<R>(
    present: bool,
    implementation: RmwRet,
    has_data: bool,
    service: &mut ServiceImpl<R>,
    came: Result<Option<(RequestId, R)>, String>,
) -> (r: Result<Option<ServiceInfo>, RmwRet>)
    requires
        old(service).wf(),
    ensures
        final(service).wf(),
        match entry_ret(present, implementation, has_data) {
            RmwRet::Success => match came {
                Ok(Some((id, reply))) => {
                    &&& final(service)@ == old(service)@.insert(request_key(id), reply)
                    &&& final(service).qos == old(service).qos
                    &&& r matches Ok(Some(info))
                    &&& info == ServiceInfo {
                        writer_guid: id.writer_guid,
                        sequence_number: id.sequence_number,
                        source_timestamp: id.source_timestamp,
                        received_timestamp: info.received_timestamp,
                    }
                    &&& clock_told(info.received_timestamp)
                },
                Ok(None) => {
                    &&& r == Ok::<Option<ServiceInfo>, RmwRet>(None)
                    &&& *final(service) == *old(service)
                },
                Err(_) => {
                    &&& r == Err::<Option<ServiceInfo>, RmwRet>(RmwRet::Failure)
                    &&& *final(service) == *old(service)
                },
            },
            ret => {
                &&& r == Err::<Option<ServiceInfo>, RmwRet>(ret)
                &&& *final(service) == *old(service)
            },
        },
{
    match check_arguments(present, implementation, has_data) {
        RmwRet::Success => match came {
            Ok(Some((id, reply))) => Ok(Some(service.take_request(id, reply))),
            Ok(None) => Ok(None),
            Err(_) => Err(RmwRet::Failure),
        },
        ret => Err(ret),
    }
}

/// The way back of a request that is to be answered.
pub fn rmw_send_response<R>(
    present: bool,
    implementation: RmwRet,
    has_data: bool,
    service: &mut ServiceImpl<R>,
    writer_guid: GidArray,
    sequence_number: i64,
) -> (r: Result<R, RmwRet>)
    requires
        old(service).wf(),
    ensures
        final(service).wf(),
        match entry_ret(present, implementation, has_data) {
            RmwRet::Success => {
                let key = (writer_guid@, sequence_number);
                &&& final(service)@ == old(service)@.remove(key)
                &&& final(service).qos == old(service).qos
                &&& r == (if old(service)@.dom().contains(key) {
                    Ok::<R, RmwRet>(old(service)@[key])
                } else {
                    Err::<R, RmwRet>(RmwRet::Failure)
                })
            },
            ret => r == Err::<R, RmwRet>(ret) && *final(service) == *old(service),
        },
{
    match check_arguments(present, implementation, has_data) {
        RmwRet::Success => match service.send_response(writer_guid, sequence_number) {
            Ok(reply) => Ok(reply),
            Err(_) => Err(RmwRet::Failure),
        },
        ret => Err(ret),
    }
}

/// The number of a request that was sent, under which its response comes back.
pub fn rmw_send_request(
    present: bool,
    implementation: RmwRet,
    has_data: bool,
    sent: Option<i64>,
) -> (r: Result<i64, RmwRet>)
    ensures
        r == (match entry_ret(present, implementation, has_data) {
            RmwRet::Success => match sent {
                Some(n) => Ok::<i64, RmwRet>(n),
                None => Err::<i64, RmwRet>(RmwRet::Failure),
            },
            ret => Err::<i64, RmwRet>(ret),
        }),
{
    match check_arguments(present, implementation, has_data) {
        RmwRet::Success => match sent {
            Some(n) => Ok(n),
            None => Err(RmwRet::Failure),
        },
        ret => Err(ret),
    }
}

/// Takes a response where one came, with what is told of it. To ask for one may
/// have failed, with this error.
pub fn rmw_take_response(
    present: bool,
    implementation: RmwRet,
    client: Option<&ClientImpl>,
    came: Result<Option<Sample>, String>,
) -> (r: Result<Option<TakenResponse>, RmwRet>)
    ensures
        match entry_ret(present, implementation, client is Some) {
            RmwRet::Success => match came {
                Ok(Some(s)) => {
                    &&& r matches Ok(Some(t))
                    &&& t.payload == s.payload
                    &&& t.info matches Some(info)
                    &&& responds(info, s.attachment, info.received_timestamp)
                    &&& clock_told(info.received_timestamp)
                },
                Ok(None) => r == Ok::<Option<TakenResponse>, RmwRet>(None),
                Err(_) => r == Err::<Option<TakenResponse>, RmwRet>(RmwRet::Failure),
            },
            ret => r == Err::<Option<TakenResponse>, RmwRet>(ret),
        },
{
    match check_arguments(present, implementation, client.is_some()) {
        RmwRet::Success => {},
        ret => {
            return Err(ret);
        },
    }
    match (client, came) {
        (Some(c), Ok(sample)) => Ok(c.take_response(sample, true)),
        (Some(_), Err(_)) => Err(RmwRet::Failure),
        (None, _) => Err(RmwRet::InvalidArgument),
    }
}

/// The quality of service of a client's requests, and of its responses.
pub fn rmw_client_request_publisher_get_actual_qos(
    present: bool,
    client: Option<&ClientImpl>,
) -> (r: Result<RmwQosProfile, RmwRet>)
    ensures
        r == (match client {
            Some(c) if present => Ok::<RmwQosProfile, RmwRet>(c.qos),
            _ => Err::<RmwQosProfile, RmwRet>(RmwRet::InvalidArgument),
        }),
{
    if !present {
        return Err(RmwRet::InvalidArgument);
    }
    match client {
        Some(c) => Ok(c.get_actual_qos()),
        None => Err(RmwRet::InvalidArgument),
    }
}

/// A request that was taken is answered over the way back that came with it, once:
/// asked a second time there is none.
pub proof fn taken_requests_are_answered_once<R>(
    first: &mut ServiceImpl<R>,
    second: &mut ServiceImpl<R>,
    third: &mut ServiceImpl<R>,
    id: RequestId,
    reply: R,
    taken: Result<Option<ServiceInfo>, RmwRet>,
    answered: Result<R, RmwRet>,
    again: Result<R, RmwRet>,
)
    requires
        old(first).wf(),
        *final(first) == *old(second),
        *final(second) == *old(third),
        call_ensures(
            rmw_take_request::<R>,
            (true, RmwRet::Success, true, first, Ok(Some((id, reply)))),
            taken,
        ),
        call_ensures(
            rmw_send_response::<R>,
            (true, RmwRet::Success, true, second, id.writer_guid, id.sequence_number),
            answered,
        ),
        call_ensures(
            rmw_send_response::<R>,
            (true, RmwRet::Success, true, third, id.writer_guid, id.sequence_number),
            again,
        ),
    ensures
        taken matches Ok(Some(info)) && info.sequence_number == id.sequence_number
            && info.writer_guid == id.writer_guid && info.source_timestamp == id.source_timestamp,
        answered == Ok::<R, RmwRet>(reply),
        again == Err::<R, RmwRet>(RmwRet::Failure),
{
}

/// Messages are taken oldest first and leave the queue; nothing is taken where none
/// is there, and without a queue one cannot take any.
pub proof fn the_oldest_message_is_taken(
    subscription: &mut SubscriptionImpl,
    r: Result<Option<TakenMessage>, RmwRet>,
)
    requires
        old(subscription).wf(),
        call_ensures(rmw_take_with_info, (true, RmwRet::Success, true, subscription), r),
    ensures
        old(subscription).inner.waiting().len() > 0 ==> {
            &&& r matches Ok(Some(t)) && t.payload == old(subscription).inner.waiting()[0].payload
                && t.info is Some
            &&& final(subscription).inner.waiting() == old(subscription).inner.waiting().skip(1)
        },
        old(subscription).inner.waiting().len() == 0 && old(subscription).inner.queue is Some ==> r
            == Ok::<Option<TakenMessage>, RmwRet>(None),
        old(subscription).inner.queue is None ==> r == Err::<Option<TakenMessage>, RmwRet>(
            RmwRet::Failure,
        ),
        final(subscription).qos == old(subscription).qos,
{
}

/// As many messages are taken at once as are asked for and there, which must be one
/// at least and no more than there is room for.
pub proof fn as_many_as_asked_for_are_taken(
    subscription: &mut SubscriptionImpl,
    count: usize,
    messages: usize,
    infos: usize,
    r: Result<Vec<TakenMessage>, RmwRet>,
)
    requires
        old(subscription).wf(),
        call_ensures(
            rmw_take_sequence,
            (true, RmwRet::Success, true, subscription, count, messages, infos),
            r,
        ),
    ensures
        r is Err <==> count == 0 || messages < count || infos < count,
        r matches Err(e) ==> e == RmwRet::InvalidArgument,
        r matches Ok(taken) ==> {
            let waiting = old(subscription).inner.waiting();
            &&& taken@.len() == (if waiting.len() < count {
                waiting.len() as int
            } else {
                count as int
            })
            &&& forall|i: int|
                0 <= i < taken@.len() ==> (#[trigger] taken@[i]).payload == waiting[i].payload
            &&& final(subscription).inner.waiting() == waiting.skip(taken@.len() as int)
        },
{
}

/// A call that is given something wrong says so and does nothing.
pub proof fn wrong_arguments_change_nothing(
    present: bool,
    implementation: RmwRet,
    has_data: bool,
    subscription: &mut SubscriptionImpl,
    publisher: &mut PublisherImpl,
    now: ZTime,
    taken: Result<Option<TakenMessage>, RmwRet>,
    put: Result<PutOptions, RmwRet>,
    sent: Option<i64>,
    request: Result<i64, RmwRet>,
    alive: RmwRet,
)
    requires
        old(subscription).wf(),
        !present || !has_data,
        implementation == RmwRet::Success,
    ensures
        call_ensures(
            rmw_take_with_info,
            (present, implementation, has_data, subscription),
            taken,
        ) ==> taken == Err::<Option<TakenMessage>, RmwRet>(RmwRet::InvalidArgument) && *final(subscription) == *old(subscription),
        call_ensures(
            rmw_publish_serialized_message,
            (present, implementation, has_data, publisher, now),
            put,
        ) ==> put == Err::<PutOptions, RmwRet>(RmwRet::InvalidArgument) && *final(publisher)
            == *old(publisher),
        call_ensures(rmw_send_request, (present, implementation, has_data, sent), request)
            ==> request == Err::<i64, RmwRet>(RmwRet::InvalidArgument),
        call_ensures(rmw_publisher_assert_liveliness, (present,), alive) ==> (alive is Success
            <==> present),
{
}

/// A request that was sent has its number; lent messages and content filters are not
/// supported.
pub proof fn requests_have_their_number(
    sent: Option<i64>,
    request: Result<i64, RmwRet>,
    lent: RmwRet,
    client: Option<&ClientImpl>,
    present: bool,
    qos: Result<RmwQosProfile, RmwRet>,
)
    ensures
        call_ensures(rmw_send_request, (true, RmwRet::Success, true, sent), request) ==> match sent {
            Some(n) => request == Ok::<i64, RmwRet>(n),
            None => request == Err::<i64, RmwRet>(RmwRet::Failure),
        },
        call_ensures(rmw_publish_loaned_message, (), lent) || call_ensures(
            rmw_take_loaned_message,
            (),
            lent,
        ) || call_ensures(rmw_subscription_set_content_filter, (), lent) ==> lent is Unsupported,
        call_ensures(rmw_client_request_publisher_get_actual_qos, (present, client), qos) ==> {
            &&& qos is Ok <==> present && client is Some
            &&& qos matches Ok(q) ==> q == client->0.qos
        },
{
}

} // verus!
