//! Subscribers.

use crate::dynamic::error::{DynamicError, ErrorView};
use crate::dynamic::schema::{DynamicMessage, MessageSchema, MessageView};
use crate::dynamic::serialization::cdr::{cdr_message, deserialize_cdr};
use crate::entity::EndpointEntity;
use crate::local_bus::{
    sole_owner, subscribers, subscribers_hear_their_type_only, takers, Entry, Sink,
};
use crate::protocol::QosHistory;
use crate::pubsub::{
    apply_transient_local_sub, queue_room, queue_size, settle_topic, settled, subscriber_history,
    typed_by, wait_step, with_schema_type, BuildError, Locality, SubscriberHistory, WaitStep,
};
use crate::qos::{on_the_wire, QosProfile};
use crate::queue::BoundedQueue;
use crate::shared::share;
use crate::time::Duration;
use std::sync::Arc;
use vstd::prelude::*;

verus! {

/// Collects the settings of a subscriber.
#[derive(Debug)]
pub struct ZSubBuilder {
    pub entity: EndpointEntity,
    pub dyn_schema: Option<Arc<MessageSchema>>,
    pub locality: Option<Locality>,
    /// The encoding that messages are expected to have.
    pub expected_encoding: Option<String>,
}

/// A subscriber to be declared.
#[derive(Debug)]
pub struct SubscriberPlan {
    pub entity: EndpointEntity,
    pub dyn_schema: Option<Arc<MessageSchema>>,
    pub expected_encoding: Option<String>,
    /// Whom it hears, where that is restricted.
    pub origin: Option<Locality>,
    pub history: Option<SubscriberHistory>,
    /// How many messages its queue holds, where it has one.
    pub queue_size: Option<usize>,
    /// Whether a wait set is told of each message.
    pub notifies: bool,
    /// How it is registered on the bus, where it is.
    pub bus: Option<Sink>,
    /// Whether it is given the messages that come over the wire.
    pub on_wire: bool,
}

/// How a subscriber is registered on the bus that wants to be: one that hears
/// other sessions only is not, for the bus is this session's.
pub open spec fn bus_registration(locality: Option<Locality>, sink: Sink) -> Option<Sink> {
    if locality == Some(Locality::Remote) {
        None
    } else {
        Some(sink)
    }
}

impl ZSubBuilder {
    pub fn with_qos(self, qos: QosProfile) -> (r: Self)
        ensures
            r == (ZSubBuilder {
                entity: EndpointEntity { qos: on_the_wire(qos), ..self.entity },
                ..self
            }),
    {
        ZSubBuilder {
            entity: EndpointEntity { qos: qos.to_protocol_qos(), ..self.entity },
            ..self
        }
    }

    pub fn with_locality(self, locality: Locality) -> (r: Self)
        ensures
            r == (ZSubBuilder { locality: Some(locality), ..self }),
    {
        ZSubBuilder { locality: Some(locality), ..self }
    }

    pub fn with_encoding(self, encoding: String) -> (r: Self)
        ensures
            r == (ZSubBuilder { expected_encoding: Some(encoding), ..self }),
    {
        ZSubBuilder { expected_encoding: Some(encoding), ..self }
    }

    /// Sets the schema of dynamic messages, and the type that follows from it
    /// where no type is set yet. `computed` is the schema's hash, where it could
    /// be computed.
    pub fn with_dyn_schema(self, schema: Arc<MessageSchema>, computed: Option<&str>) -> (r: Self)
        ensures
            typed_by(self.entity, r.entity, *schema, computed),
            r == (ZSubBuilder { entity: r.entity, dyn_schema: Some(schema), ..self }),
    {
        ZSubBuilder {
            entity: with_schema_type(self.entity, &schema, computed),
            dyn_schema: Some(schema),
            ..self
        }
    }

    /// Whether `r` is the subscriber to be declared with a queue and a bus
    /// registration, or why there is none.
    pub open spec fn builds(
        self,
        queue_size: Option<usize>,
        notifies: bool,
        bus: Option<Sink>,
        on_wire: bool,
        r: Result<SubscriberPlan, BuildError>,
    ) -> bool {
        match r {
            Ok(plan) => {
                &&& settled(self.entity, BuildError::SubscriberWithoutNode, Ok(plan.entity))
                &&& plan == SubscriberPlan {
                    entity: plan.entity,
                    dyn_schema: self.dyn_schema,
                    expected_encoding: self.expected_encoding,
                    origin: self.locality,
                    history: subscriber_history(self.entity.qos),
                    queue_size,
                    notifies,
                    bus,
                    on_wire,
                }
            },
            Err(e) => settled(self.entity, BuildError::SubscriberWithoutNode, Err(e)),
        }
    }

    fn build_internal(
        self,
        queue_size: Option<usize>,
        notifies: bool,
        bus: Option<Sink>,
        on_wire: bool,
    ) -> (r: Result<SubscriberPlan, BuildError>)
        ensures
            self.builds(queue_size, notifies, bus, on_wire, r),
    {
        let history = apply_transient_local_sub(&self.entity.qos);
        let entity = match settle_topic(self.entity, BuildError::SubscriberWithoutNode) {
            Ok(entity) => entity,
            Err(e) => {
                return Err(e);
            },
        };
        Ok(
            SubscriberPlan {
                entity,
                dyn_schema: self.dyn_schema,
                expected_encoding: self.expected_encoding,
                origin: self.locality,
                history,
                queue_size,
                notifies,
                bus,
                on_wire,
            },
        )
    }

    /// The subscriber to be declared, with a queue.
    pub fn build(self) -> (r: Result<SubscriberPlan, BuildError>)
        ensures
            self.builds(Some(queue_room(self.entity.qos.history)), false, None, true, r),
    {
        let size: usize = queue_size(self.entity.qos.history);
        self.build_internal(Some(size), false, None, true)
    }

    /// The subscriber to be declared, with a queue, that tells a wait set.
    pub fn build_with_notifier(self) -> (r: Result<SubscriberPlan, BuildError>)
        ensures
            self.builds(Some(queue_room(self.entity.qos.history)), true, None, true, r),
    {
        let size: usize = queue_size(self.entity.qos.history);
        self.build_internal(Some(size), true, None, true)
    }

    /// The subscriber to be declared, with a callback.
    pub fn build_with_callback(self) -> (r: Result<SubscriberPlan, BuildError>)
        ensures
            self.builds(None, false, None, true, r),
    {
        self.build_internal(None, false, None, true)
    }

    /// The subscriber to be declared, with a callback that shares messages with
    /// others on the bus.
    pub fn build_with_shared_callback(self) -> (r: Result<SubscriberPlan, BuildError>)
        ensures
            self.builds(None, false, bus_registration(self.locality, Sink::Shared), true, r),
    {
        let bus: Option<Sink> = match self.locality {
            Some(Locality::Remote) => None,
            _ => Some(Sink::Shared),
        };
        self.build_internal(None, false, bus, true)
    }

    /// The subscriber to be declared, with a callback that takes messages by value
    /// on the bus. It is served by a publish by value alone, and by that only while
    /// nobody else takes messages of this type: a message that is shared or comes
    /// over the wire does not run the callback.
    pub fn build_with_owned_callback(self) -> (r: Result<SubscriberPlan, BuildError>)
        ensures
            self.builds(None, false, bus_registration(self.locality, Sink::Owned), false, r),
    {
        let bus: Option<Sink> = match self.locality {
            Some(Locality::Remote) => None,
            _ => Some(Sink::Owned),
        };
        self.build_internal(None, false, bus, false)
    }

    /// The endpoint of a bare subscriber to be declared.
    pub fn build_raw_subscriber(self) -> (r: Result<EndpointEntity, BuildError>)
        ensures
            settled(self.entity, BuildError::SubscriberWithoutNode, r),
    {
        settle_topic(self.entity, BuildError::SubscriberWithoutNode)
    }
}

/// A subscriber, with what it received and nobody has taken yet.
#[derive(Debug)]
pub struct ZSub<Q> {
    pub entity: EndpointEntity,
    pub queue: Option<BoundedQueue<Q>>,
    pub dyn_schema: Option<Arc<MessageSchema>>,
    pub expected_encoding: Option<String>,
}

impl SubscriberPlan {
    /// A message that came over the wire, where the callback of this subscriber is
    /// to run on it.
    pub fn from_wire<T>(&self, message: T) -> (r: Option<T>)
        ensures
            r == (if self.on_wire {
                Some(message)
            } else {
                None
            }),
    {
        if self.on_wire {
            Some(message)
        } else {
            None
        }
    }

    /// The subscriber, once it is declared.
    pub fn declared<Q>(self) -> (r: ZSub<Q>)
        ensures
            r.wf(),
            match self.queue_size {
                Some(size) => r.queue matches Some(q) && q.items@.len() == 0 && q.capacity == size,
                None => r.queue is None,
            },
            r == (ZSub {
                entity: self.entity,
                queue: r.queue,
                dyn_schema: self.dyn_schema,
                expected_encoding: self.expected_encoding,
            }),
    {
        let queue: Option<BoundedQueue<Q>> = match self.queue_size {
            Some(size) => Some(BoundedQueue::new(size)),
            None => None,
        };
        ZSub {
            entity: self.entity,
            queue,
            dyn_schema: self.dyn_schema,
            expected_encoding: self.expected_encoding,
        }
    }
}

/// Why nothing was received.
#[derive(Debug)]
pub enum RecvError {
    /// The subscriber has a callback in place of a queue.
    NoQueue,
    /// The subscriber was made without a schema; whether to say how to set one.
    NoSchema { advice: bool },
    /// Nothing came in this time.
    Timeout(Duration),
    /// What came is not a message of the schema.
    Decode(DynamicError),
}

/// The contents of a [`RecvError`].
#[verifier::ext_equal]
pub enum RecvErrorView {
    NoQueue,
    NoSchema { advice: bool },
    Timeout(Duration),
    Decode(ErrorView),
}

impl View for RecvError {
    type V = RecvErrorView;

    open spec fn view(&self) -> RecvErrorView {
        match *self {
            RecvError::NoQueue => RecvErrorView::NoQueue,
            RecvError::NoSchema { advice } => RecvErrorView::NoSchema { advice },
            RecvError::Timeout(d) => RecvErrorView::Timeout(d),
            RecvError::Decode(e) => RecvErrorView::Decode(e@),
        }
    }
}

impl RecvError {
    /// What the error says to the user, where it does not come from elsewhere.
    pub fn message(&self) -> (r: Option<String>)
        ensures
            match *self {
                RecvError::NoQueue => r matches Some(text) && text@
                    == "Subscriber was built with callback, no queue available"@,
                RecvError::NoSchema { advice: true } => r matches Some(text) && text@
                    == "dyn_schema required for DynamicMessage (use .with_dyn_schema() when building)"@,
                RecvError::NoSchema { advice: false } => r matches Some(text) && text@
                    == "dyn_schema required for DynamicMessage"@,
                RecvError::Timeout(_) => r is None,
                RecvError::Decode(_) => r is None,
            },
    {
        match self {
            RecvError::NoQueue => Some(
                "Subscriber was built with callback, no queue available".to_owned(),
            ),
            RecvError::NoSchema { advice } => if *advice {
                Some(
                    "dyn_schema required for DynamicMessage (use .with_dyn_schema() when building)".to_owned(),
                )
            } else {
                Some("dyn_schema required for DynamicMessage".to_owned())
            },
            RecvError::Timeout(_) => None,
            RecvError::Decode(_) => None,
        }
    }
}

/// What to do next to receive a message.
#[derive(Debug)]
pub enum RecvStep<M> {
    /// Nothing more.
    Done(Result<M, RecvError>),
    /// Wait until something comes, and ask again.
    Wait,
}

/// The error that a step ends in, if any.
pub open spec fn failed<M>(step: RecvStep<M>) -> Option<RecvErrorView> {
    match step {
        RecvStep::Done(Err(e)) => Some(e@),
        _ => None,
    }
}

impl<Q> ZSub<Q> {
    pub open spec fn wf(&self) -> bool {
        self.queue matches Some(q) ==> q.wf()
    }

    /// What is waiting to be taken, oldest first.
    pub open spec fn waiting(&self) -> Seq<Q> {
        match self.queue {
            Some(q) => q.items@,
            None => Seq::empty(),
        }
    }

    /// Whether `after` is this subscriber without the oldest message.
    pub open spec fn took_one(&self, after: ZSub<Q>) -> bool {
        &&& self.queue matches Some(before)
        &&& after.queue matches Some(q)
        &&& before.items@.len() > 0
        &&& q.items@ == before.items@.skip(1)
        &&& q.capacity == before.capacity
        &&& after == ZSub { queue: after.queue, ..*self }
    }

    /// Whether `after` holds what this subscriber holds.
    pub open spec fn untouched(&self, after: ZSub<Q>) -> bool {
        &&& match (self.queue, after.queue) {
            (Some(before), Some(q)) => q.items@ == before.items@ && q.capacity == before.capacity,
            (None, None) => true,
            _ => false,
        }
        &&& after == ZSub { queue: after.queue, ..*self }
    }

    fn take_one(&mut self) -> (r: Option<Q>)
        requires
            old(self).wf(),
        ensures
            final(self).wf(),
            match r {
                Some(m) => m == old(self).waiting()[0] && old(self).took_one(*final(self)),
                None => old(self).waiting().len() == 0 && old(self).untouched(*final(self)),
            },
    {
        match &mut self.queue {
            Some(q) => q.try_recv(),
            None => None,
        }
    }

    /// Receives the oldest message as it came.
    pub fn recv_serialized(&mut self) -> (r: RecvStep<Q>)
        requires
            old(self).wf(),
        ensures
            final(self).wf(),
            if old(self).queue is None {
                failed(r) == Some(RecvErrorView::NoQueue) && old(self).untouched(*final(self))
            } else if old(self).waiting().len() == 0 {
                r is Wait && old(self).untouched(*final(self))
            } else {
                &&& r == RecvStep::Done(Ok::<Q, RecvError>(old(self).waiting()[0]))
                &&& old(self).took_one(*final(self))
            },
    {
        if self.queue.is_none() {
            return RecvStep::Done(Err(RecvError::NoQueue));
        }
        match self.take_one() {
            Some(m) => RecvStep::Done(Ok(m)),
            None => RecvStep::Wait,
        }
    }

    /// Receives the oldest message as it came, where something comes in `timeout`;
    /// whether that is over.
    pub fn recv_serialized_timeout(&mut self, timeout: Duration, expired: bool) -> (r: RecvStep<Q>)
        requires
            old(self).wf(),
        ensures
            final(self).wf(),
            if old(self).queue is None {
                failed(r) == Some(RecvErrorView::NoQueue) && old(self).untouched(*final(self))
            } else if old(self).waiting().len() == 0 {
                &&& if expired {
                    failed(r) == Some(RecvErrorView::Timeout(timeout))
                } else {
                    r is Wait
                }
                &&& old(self).untouched(*final(self))
            } else {
                &&& r == RecvStep::Done(Ok::<Q, RecvError>(old(self).waiting()[0]))
                &&& old(self).took_one(*final(self))
            },
    {
        match self.recv_serialized() {
            RecvStep::Wait => if expired {
                RecvStep::Done(Err(RecvError::Timeout(timeout)))
            } else {
                RecvStep::Wait
            },
            RecvStep::Done(r) => RecvStep::Done(r),
        }
    }

    /// Whether messages are waiting in the queue.
    pub fn is_ready(&self) -> (r: bool)
        ensures
            r == (self.waiting().len() > 0),
    {
        match &self.queue {
            Some(q) => !q.is_empty(),
            None => false,
        }
    }

    /// What to do while waiting for `count` publishers; see [`wait_step`].
    pub fn wait_for_publisher(&self, matched: usize, count: usize, remaining: u128) -> (r: WaitStep)
        ensures
            r == (if matched >= count {
                WaitStep::Matched
            } else if remaining == 0 {
                WaitStep::TimedOut
            } else {
                WaitStep::Sleep(remaining)
            }),
    {
        wait_step(matched, count, remaining)
    }

    /// The endpoint of this subscriber.
    pub fn entity(&self) -> (r: &EndpointEntity)
        ensures
            *r == self.entity,
    {
        &self.entity
    }

    /// The schema of dynamic messages, where one was set.
    pub fn schema(&self) -> (r: Option<&MessageSchema>)
        ensures
            match r {
                Some(s) => self.dyn_schema == Some(Arc::new(*s)),
                None => self.dyn_schema is None,
            },
    {
        match &self.dyn_schema {
            Some(schema) => Some(&**schema),
            None => None,
        }
    }
}

/// Whether `r` is the dynamic message that `bytes` encode, or why there is none.
pub open spec fn decoded(
    bytes: Seq<u8>,
    schema: Arc<MessageSchema>,
    r: Result<DynamicMessage, RecvError>,
) -> bool {
    match r {
        Ok(m) => {
            &&& cdr_message(bytes, schema@) == Ok::<MessageView, ErrorView>(m@)
            &&& m.schema == schema
        },
        Err(e) => e@ matches RecvErrorView::Decode(v) && cdr_message(bytes, schema@) == Err::<
            MessageView,
            ErrorView,
        >(v),
    }
}

fn decode(bytes: &Vec<u8>, schema: &Arc<MessageSchema>) -> (r: Result<DynamicMessage, RecvError>)
    ensures
        decoded(bytes@, *schema, r),
{
    match deserialize_cdr(bytes.as_slice(), schema) {
        Ok(m) => Ok(m),
        Err(e) => Err(RecvError::Decode(e)),
    }
}

impl ZSub<Vec<u8>> {
    /// Whether receiving a dynamic message ends in `step`, where nothing that
    /// waits is answered by `idle`.
    pub open spec fn receives(
        &self,
        advice: bool,
        idle: RecvStep<DynamicMessage>,
        step: RecvStep<DynamicMessage>,
        after: ZSub<Vec<u8>>,
    ) -> bool {
        if self.dyn_schema is None {
            failed(step) == Some(RecvErrorView::NoSchema { advice }) && self.untouched(after)
        } else if self.queue is None {
            failed(step) == Some(RecvErrorView::NoQueue) && self.untouched(after)
        } else if self.waiting().len() == 0 {
            step == idle && self.untouched(after)
        } else {
            &&& step matches RecvStep::Done(r)
            &&& decoded(self.waiting()[0]@, self.dyn_schema->0, r)
            &&& self.took_one(after)
        }
    }

    fn receive(&mut self, advice: bool, idle: RecvStep<DynamicMessage>) -> (r: RecvStep<
        DynamicMessage,
    >)
        requires
            old(self).wf(),
        ensures
            final(self).wf(),
            old(self).receives(advice, idle, r, *final(self)),
    {
        let schema = match &self.dyn_schema {
            Some(schema) => share(schema),
            None => {
                return RecvStep::Done(Err(RecvError::NoSchema { advice }));
            },
        };
        if self.queue.is_none() {
            return RecvStep::Done(Err(RecvError::NoQueue));
        }
        match self.take_one() {
            Some(bytes) => RecvStep::Done(decode(&bytes, &schema)),
            None => idle,
        }
    }

    /// Receives the oldest dynamic message.
    pub fn recv(&mut self) -> (r: RecvStep<DynamicMessage>)
        requires
            old(self).wf(),
        ensures
            final(self).wf(),
            old(self).receives(true, RecvStep::Wait, r, *final(self)),
    {
        self.receive(true, RecvStep::Wait)
    }

    /// Receives the oldest dynamic message, where something comes in `timeout`;
    /// whether that is over.
    pub fn recv_timeout(&mut self, timeout: Duration, expired: bool) -> (r: RecvStep<
        DynamicMessage,
    >)
        requires
            old(self).wf(),
        ensures
            final(self).wf(),
            old(self).receives(
                false,
                if expired {
                    RecvStep::Done(Err(RecvError::Timeout(timeout)))
                } else {
                    RecvStep::Wait
                },
                r,
                *final(self),
            ),
    {
        let idle: RecvStep<DynamicMessage> = if expired {
            RecvStep::Done(Err(RecvError::Timeout(timeout)))
        } else {
            RecvStep::Wait
        };
        self.receive(false, idle)
    }

    /// Receives the oldest dynamic message, from a task.
    pub fn async_recv(&mut self) -> (r: RecvStep<DynamicMessage>)
        requires
            old(self).wf(),
        ensures
            final(self).wf(),
            old(self).receives(false, RecvStep::Wait, r, *final(self)),
    {
        self.receive(false, RecvStep::Wait)
    }

    /// Receives the oldest dynamic message, where one is there and can be had.
    pub fn try_recv(&mut self) -> (r: Option<Result<DynamicMessage, RecvError>>)
        requires
            old(self).wf(),
        ensures
            final(self).wf(),
            match r {
                Some(message) => {
                    &&& old(self).dyn_schema matches Some(schema)
                    &&& old(self).waiting().len() > 0
                    &&& decoded(old(self).waiting()[0]@, schema, message)
                    &&& old(self).took_one(*final(self))
                },
                None => {
                    &&& old(self).dyn_schema is None || old(self).waiting().len() == 0
                    &&& old(self).untouched(*final(self))
                },
            },
    {
        let schema = match &self.dyn_schema {
            Some(schema) => share(schema),
            None => {
                return None;
            },
        };
        match self.take_one() {
            Some(bytes) => Some(decode(&bytes, &schema)),
            None => None,
        }
    }
}

/// A subscriber that hears other sessions only is not on the bus.
pub proof fn remote_subscribers_keep_off_the_bus(
    builder: ZSubBuilder,
    sink: Sink,
    on_wire: bool,
    plan: SubscriberPlan,
)
    requires
        builder.locality == Some(Locality::Remote),
        builder.builds(
            None,
            false,
            bus_registration(builder.locality, sink),
            on_wire,
            Ok(plan),
        ),
    ensures
        plan.bus is None,
        plan.origin == Some(Locality::Remote),
{
}

/// A subscriber that takes messages by value is given none that is shared, by the
/// bus or by the wire: the bus calls it neither for a shared publish nor while
/// somebody else takes messages of its type.
pub proof fn takers_by_value_are_given_nothing_shared<C>(
    builder: ZSubBuilder,
    plan: SubscriberPlan,
    entries: Seq<Entry<C>>,
    e: Entry<C>,
)
    requires
        builder.builds(
            None,
            false,
            bus_registration(builder.locality, Sink::Owned),
            false,
            Ok(plan),
        ),
        e.sink == Sink::Owned,
    ensures
        !plan.on_wire,
        takers(entries.push(e), e.type_key, entries.len() + 1) == takers(
            entries,
            e.type_key,
            entries.len(),
        ),
        subscribers(entries, e.type_key, entries.len()) > 0 ==> forall|i: int|
            !#[trigger] sole_owner(entries.push(e), e.type_key, i),
{
    subscribers_hear_their_type_only(entries, e, e.type_key, entries.len());
    subscribers_after_push(entries, e, e.type_key, entries.len());
    assert(entries.push(e)[entries.len() as int] == e);
}

proof fn subscribers_after_push<C>(entries: Seq<Entry<C>>, e: Entry<C>, key: u64, n: nat)
    requires
        n <= entries.len(),
    ensures
        subscribers(entries.push(e), key, n) == subscribers(entries, key, n),
    decreases n,
{
    if n > 0 {
        subscribers_after_push(entries, e, key, (n - 1) as nat);
        assert(entries.push(e)[n - 1] == entries[n - 1]);
    }
}

/// A subscriber is on the bus unless it hears other sessions only, and takes
/// messages there as it asked for.
pub proof fn subscribers_are_on_the_bus_unless_remote(locality: Option<Locality>, sink: Sink)
    ensures
        bus_registration(locality, sink) is None <==> locality == Some(Locality::Remote),
        bus_registration(locality, sink) matches Some(s) ==> s == sink,
{
}

/// Messages are taken oldest first and each once: what is left after one was taken
/// is what was behind it.
pub proof fn messages_are_taken_oldest_first(
    sub: ZSub<Vec<u8>>,
    advice: bool,
    idle: RecvStep<DynamicMessage>,
    step: RecvStep<DynamicMessage>,
    after: ZSub<Vec<u8>>,
)
    requires
        sub.receives(advice, idle, step, after),
    ensures
        sub.dyn_schema is Some && sub.waiting().len() > 0 ==> {
            &&& after.waiting().len() == sub.waiting().len() - 1
            &&& forall|k: int|
                0 <= k < after.waiting().len() ==> #[trigger] after.waiting()[k] == sub.waiting()[k
                    + 1]
            &&& match step {
                RecvStep::Done(Ok(m)) => m.schema == sub.dyn_schema->0 && cdr_message(
                    sub.waiting()[0]@,
                    m.schema@,
                ) == Ok::<MessageView, ErrorView>(m@),
                RecvStep::Done(Err(e)) => e@ is Decode,
                RecvStep::Wait => false,
            }
        },
        sub.waiting().len() == 0 ==> after.waiting() == sub.waiting(),
        sub.dyn_schema is None ==> after.waiting() == sub.waiting() && failed(step) == Some(
            RecvErrorView::NoSchema { advice },
        ),
{
}

/// A subscriber with a queue has room for as many messages as its history keeps,
/// and one with a callback has no queue; only those with a callback for the bus are
/// on the bus, unless they hear other sessions alone; and only one that takes
/// messages by value is not given those that come over the wire.
pub proof fn each_way_of_building_has_its_subscriber(
    b: ZSubBuilder,
    queued: Result<SubscriberPlan, BuildError>,
    notified: Result<SubscriberPlan, BuildError>,
    called: Result<SubscriberPlan, BuildError>,
    shared: Result<SubscriberPlan, BuildError>,
    owned: Result<SubscriberPlan, BuildError>,
)
    requires
        call_ensures(ZSubBuilder::build, (b,), queued),
        call_ensures(ZSubBuilder::build_with_notifier, (b,), notified),
        call_ensures(ZSubBuilder::build_with_callback, (b,), called),
        call_ensures(ZSubBuilder::build_with_shared_callback, (b,), shared),
        call_ensures(ZSubBuilder::build_with_owned_callback, (b,), owned),
    ensures
        queued is Ok <==> notified is Ok,
        queued is Ok <==> called is Ok,
        queued is Ok <==> shared is Ok,
        queued is Ok <==> owned is Ok,
        b.entity.node is None ==> queued == Err::<SubscriberPlan, BuildError>(
            BuildError::SubscriberWithoutNode,
        ),
        queued matches Ok(plan) ==> {
            &&& plan.queue_size == Some(
                match b.entity.qos.history {
                    QosHistory::KeepLast(depth) => depth,
                    QosHistory::KeepAll => usize::MAX,
                },
            )
            &&& !plan.notifies && plan.bus is None && plan.on_wire
            &&& plan.origin == b.locality
            &&& plan.expected_encoding == b.expected_encoding
            &&& plan.dyn_schema == b.dyn_schema
            &&& plan.history is Some <==> b.entity.qos.durability is TransientLocal
            &&& notified matches Ok(n) && n.queue_size == plan.queue_size && n.notifies && n.bus
                is None && n.on_wire && n.entity.topic@ == plan.entity.topic@
            &&& called matches Ok(c) && c.queue_size is None && c.bus is None && c.on_wire
            &&& shared matches Ok(s) && s.queue_size is None && s.on_wire && s.bus == (
            if b.locality == Some(Locality::Remote) {
                None::<Sink>
            } else {
                Some(Sink::Shared)
            })
            &&& owned matches Ok(o) && o.queue_size is None && !o.on_wire && o.bus == (
            if b.locality == Some(Locality::Remote) {
                None::<Sink>
            } else {
                Some(Sink::Owned)
            })
        },
{
}

/// What is received is the oldest message, decoded by the subscriber's schema, and
/// it is the same however one asks for it; it leaves the queue. Without a message
/// one is told to wait, that the time is over, or nothing.
pub proof fn however_one_asks_the_oldest_message_comes(
    subscriber: &mut ZSub<Vec<u8>>,
    schema: Arc<MessageSchema>,
    bytes: Vec<u8>,
    timeout: Duration,
    expired: bool,
    blocking: RecvStep<DynamicMessage>,
    timed: RecvStep<DynamicMessage>,
    later: RecvStep<DynamicMessage>,
    now: Option<Result<DynamicMessage, RecvError>>,
    raw: RecvStep<Vec<u8>>,
)
    requires
        old(subscriber).wf(),
        old(subscriber).dyn_schema == Some(schema),
        old(subscriber).queue is Some,
    ensures
        old(subscriber).waiting().len() > 0 && old(subscriber).waiting()[0] == bytes ==> {
            let rest = old(subscriber).waiting().skip(1);
            &&& call_ensures(ZSub::<Vec<u8>>::recv, (subscriber,), blocking) ==> {
                &&& blocking matches RecvStep::Done(r) && decoded(bytes@, schema, r)
                &&& final(subscriber).waiting() == rest
            }
            &&& call_ensures(
                ZSub::<Vec<u8>>::recv_timeout,
                (subscriber, timeout, expired),
                timed,
            ) ==> {
                &&& timed matches RecvStep::Done(r) && decoded(bytes@, schema, r)
                &&& final(subscriber).waiting() == rest
            }
            &&& call_ensures(ZSub::<Vec<u8>>::async_recv, (subscriber,), later) ==> {
                &&& later matches RecvStep::Done(r) && decoded(bytes@, schema, r)
                &&& final(subscriber).waiting() == rest
            }
            &&& call_ensures(ZSub::<Vec<u8>>::try_recv, (subscriber,), now) ==> {
                &&& now matches Some(r) && decoded(bytes@, schema, r)
                &&& final(subscriber).waiting() == rest
            }
            &&& call_ensures(ZSub::<Vec<u8>>::recv_serialized, (subscriber,), raw) ==> {
                &&& raw == RecvStep::<Vec<u8>>::Done(Ok(bytes))
                &&& final(subscriber).waiting() == rest
            }
        },
        old(subscriber).waiting().len() == 0 ==> {
            &&& call_ensures(ZSub::<Vec<u8>>::recv, (subscriber,), blocking) ==> blocking is Wait
            &&& call_ensures(
                ZSub::<Vec<u8>>::recv_timeout,
                (subscriber, timeout, expired),
                timed,
            ) ==> (if expired {
                failed(timed) == Some(RecvErrorView::Timeout(timeout))
            } else {
                timed is Wait
            })
            &&& call_ensures(ZSub::<Vec<u8>>::async_recv, (subscriber,), later) ==> later is Wait
            &&& call_ensures(ZSub::<Vec<u8>>::try_recv, (subscriber,), now) ==> now is None
            &&& call_ensures(ZSub::<Vec<u8>>::recv_serialized, (subscriber,), raw) ==> raw is Wait
        },
{
}

/// What is received is what the bytes say under the subscriber's schema, or the
/// reason why they say nothing. Something is ready where something waits, and what
/// comes over the wire is passed on where the subscriber hears the wire.
pub proof fn messages_are_decoded_by_the_schema(
    bytes: Seq<u8>,
    schema: Arc<MessageSchema>,
    r: Result<DynamicMessage, RecvError>,
    subscriber: &ZSub<Vec<u8>>,
    ready: bool,
    plan: &SubscriberPlan,
    message: u64,
    passed: Option<u64>,
)
    ensures
        decoded(bytes, schema, r) ==> match r {
            Ok(m) => m.schema == schema && cdr_message(bytes, schema@) == Ok::<
                MessageView,
                ErrorView,
            >(m@),
            Err(e) => e@ is Decode && cdr_message(bytes, schema@) == Err::<MessageView, ErrorView>(
                e@->Decode_0,
            ),
        },
        call_ensures(ZSub::<Vec<u8>>::is_ready, (subscriber,), ready) ==> (ready
            <==> subscriber.waiting().len() > 0),
        call_ensures(SubscriberPlan::from_wire::<u64>, (plan, message), passed) ==> passed == (
        if plan.on_wire {
            Some(message)
        } else {
            None
        }),
{
}

/// A subscriber begins with nothing received and the room that was planned.
pub proof fn subscribers_begin_empty(plan: SubscriberPlan, r: ZSub<Vec<u8>>)
    requires
        call_ensures(SubscriberPlan::declared::<Vec<u8>>, (plan,), r),
    ensures
        r.waiting().len() == 0,
        r.queue is Some <==> plan.queue_size is Some,
        r.queue matches Some(q) ==> Some(q.capacity) == plan.queue_size,
        r.dyn_schema == plan.dyn_schema,
        r.entity == plan.entity,
{
}

/// Without a schema nothing can be received, and one is advised how to set it where
/// one asks for a message and would wait without end; without a queue nothing can be
/// received either. Nothing is taken then.
pub proof fn a_schema_and_a_queue_are_needed(
    subscriber: &mut ZSub<Vec<u8>>,
    timeout: Duration,
    expired: bool,
    blocking: RecvStep<DynamicMessage>,
    other: RecvStep<DynamicMessage>,
    now: Option<Result<DynamicMessage, RecvError>>,
)
    requires
        old(subscriber).wf(),
        old(subscriber).dyn_schema is None || old(subscriber).queue is None,
    ensures
        call_ensures(ZSub::<Vec<u8>>::recv, (subscriber,), blocking) ==> failed(blocking) == Some(
            if old(subscriber).dyn_schema is None {
                RecvErrorView::NoSchema { advice: true }
            } else {
                RecvErrorView::NoQueue
            },
        ) && final(subscriber).waiting() == old(subscriber).waiting(),
        call_ensures(ZSub::<Vec<u8>>::recv_timeout, (subscriber, timeout, expired), other)
            || call_ensures(ZSub::<Vec<u8>>::async_recv, (subscriber,), other) ==> failed(other)
            == Some(
            if old(subscriber).dyn_schema is None {
                RecvErrorView::NoSchema { advice: false }
            } else {
                RecvErrorView::NoQueue
            },
        ) && final(subscriber).waiting() == old(subscriber).waiting(),
        call_ensures(ZSub::<Vec<u8>>::try_recv, (subscriber,), now) ==> now is None
            && final(subscriber).waiting() == old(subscriber).waiting(),
{
}

} // verus!
