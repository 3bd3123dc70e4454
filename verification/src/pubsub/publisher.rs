//! Publishers.

use crate::dynamic::schema::MessageSchema;
use crate::entity::{EndpointEntity, GidArray};
use crate::local_bus::{
    owners, settle, sole_owner, takers, Channel, Delivery, DeliveryDepth, Entry, OwnedPlan,
    Plan, Published, MAX_DELIVERY_DEPTH,
};
use crate::protocol::{QosDurability, QosReliability};
use crate::pubsub::{
    apply_transient_local_pub, publisher_cache, settle_topic, settled, typed_by, wait_step,
    with_schema_type, BuildError, CongestionControl, Locality, PublisherCache, WaitStep,
};
use crate::qos::on_the_wire;
use crate::text::{decimal, decimal_text, join3};
use crate::time::ZTime;
use std::sync::Arc;
use vstd::prelude::*;

verus! {

/// Which ways the messages of a publisher go.
#[derive(Debug, Clone, Copy, PartialEq, Eq, Structural)]
pub enum Route {
    /// The bus alone.
    BusOnly,
    /// The bus for this session and the wire for the rest.
    BusAndWire,
    /// The wire alone.
    WireOnly,
}

/// Collects the settings of a publisher.
#[derive(Debug)]
pub struct ZPubBuilder {
    pub entity: EndpointEntity,
    pub with_attachment: bool,
    /// From which size on a message goes to shared memory, where any does.
    pub shm_threshold: Option<usize>,
    pub dyn_schema: Option<Arc<MessageSchema>>,
    /// The encoding that goes with each message.
    pub encoding: Option<String>,
    pub locality: Option<Locality>,
    pub intra_process_only: bool,
}

/// A publisher to be declared.
#[derive(Debug)]
pub struct PublisherPlan {
    pub entity: EndpointEntity,
    pub with_attachment: bool,
    pub shm_threshold: Option<usize>,
    pub dyn_schema: Option<Arc<MessageSchema>>,
    pub encoding: Option<String>,
    pub locality: Option<Locality>,
    pub intra_process_only: bool,
    pub congestion_control: CongestionControl,
    pub cache: Option<PublisherCache>,
}

impl ZPubBuilder {
    pub fn with_qos(self, qos: crate::qos::QosProfile) -> (r: Self)
        ensures
            r == (ZPubBuilder {
                entity: EndpointEntity { qos: on_the_wire(qos), ..self.entity },
                ..self
            }),
    {
        ZPubBuilder {
            entity: EndpointEntity { qos: qos.to_protocol_qos(), ..self.entity },
            ..self
        }
    }

    pub fn with_attachment(self, with_attachment: bool) -> (r: Self)
        ensures
            r == (ZPubBuilder { with_attachment, ..self }),
    {
        ZPubBuilder { with_attachment, ..self }
    }

    /// Messages of at least `threshold` bytes go to shared memory.
    pub fn with_shm_config(self, threshold: usize) -> (r: Self)
        ensures
            r == (ZPubBuilder { shm_threshold: Some(threshold), ..self }),
    {
        ZPubBuilder { shm_threshold: Some(threshold), ..self }
    }

    pub fn without_shm(self) -> (r: Self)
        ensures
            r == (ZPubBuilder { shm_threshold: None, ..self }),
    {
        ZPubBuilder { shm_threshold: None, ..self }
    }

    pub fn with_locality(self, locality: Locality) -> (r: Self)
        ensures
            r == (ZPubBuilder { locality: Some(locality), ..self }),
    {
        ZPubBuilder { locality: Some(locality), ..self }
    }

    /// Messages published by [`ZPub::publish_shared`] and
    /// [`ZPub::publish_owned`] stay off the wire.
    pub fn with_intra_process_only(self) -> (r: Self)
        ensures
            r == (ZPubBuilder { intra_process_only: true, ..self }),
    {
        ZPubBuilder { intra_process_only: true, ..self }
    }

    pub fn with_encoding(self, encoding: String) -> (r: Self)
        ensures
            r == (ZPubBuilder { encoding: Some(encoding), ..self }),
    {
        ZPubBuilder { encoding: Some(encoding), ..self }
    }

    /// Sets the schema of dynamic messages, and the type that follows from it
    /// where no type is set yet. `computed` is the schema's hash, where it could
    /// be computed.
    pub fn with_dyn_schema(self, schema: Arc<MessageSchema>, computed: Option<&str>) -> (r: Self)
        ensures
            typed_by(self.entity, r.entity, *schema, computed),
            r == (ZPubBuilder { entity: r.entity, dyn_schema: Some(schema), ..self }),
    {
        ZPubBuilder {
            entity: with_schema_type(self.entity, &schema, computed),
            dyn_schema: Some(schema),
            ..self
        }
    }

    /// The publisher to be declared. Its topic is qualified; the message of a
    /// reliable one waits where the wire is congested.
    pub fn build(self) -> (r: Result<PublisherPlan, BuildError>)
        ensures
            match r {
                Ok(plan) => {
                    &&& settled(self.entity, BuildError::PublisherWithoutNode, Ok(plan.entity))
                    &&& plan == PublisherPlan {
                        entity: plan.entity,
                        with_attachment: self.with_attachment,
                        shm_threshold: self.shm_threshold,
                        dyn_schema: self.dyn_schema,
                        encoding: self.encoding,
                        locality: self.locality,
                        intra_process_only: self.intra_process_only,
                        congestion_control: match self.entity.qos.reliability {
                            QosReliability::Reliable => CongestionControl::Block,
                            QosReliability::BestEffort => CongestionControl::Drop,
                        },
                        cache: publisher_cache(self.entity.qos),
                    }
                },
                Err(e) => settled(self.entity, BuildError::PublisherWithoutNode, Err(e)),
            },
    {
        let congestion_control = match self.entity.qos.reliability {
            QosReliability::Reliable => CongestionControl::Block,
            QosReliability::BestEffort => CongestionControl::Drop,
        };
        let cache = apply_transient_local_pub(&self.entity.qos);
        let entity = match settle_topic(self.entity, BuildError::PublisherWithoutNode) {
            Ok(entity) => entity,
            Err(e) => {
                return Err(e);
            },
        };
        Ok(
            PublisherPlan {
                entity,
                with_attachment: self.with_attachment,
                shm_threshold: self.shm_threshold,
                dyn_schema: self.dyn_schema,
                encoding: self.encoding,
                locality: self.locality,
                intra_process_only: self.intra_process_only,
                congestion_control,
                cache,
            },
        )
    }
}

/// A publisher.
#[derive(Debug)]
pub struct ZPub {
    pub entity: EndpointEntity,
    /// The number of the next message.
    pub sn: usize,
    pub gid: GidArray,
    pub with_attachment: bool,
    pub shm_threshold: Option<usize>,
    pub dyn_schema: Option<Arc<MessageSchema>>,
    pub encoding: Option<String>,
    pub intra_process_only: bool,
    pub locality: Option<Locality>,
}

impl PublisherPlan {
    /// The publisher, once it is declared under the identifier `gid`.
    pub fn declared(self, gid: GidArray) -> (r: ZPub)
        ensures
            r == (ZPub {
                entity: self.entity,
                sn: 0,
                gid,
                with_attachment: self.with_attachment,
                shm_threshold: self.shm_threshold,
                dyn_schema: self.dyn_schema,
                encoding: self.encoding,
                intra_process_only: self.intra_process_only,
                locality: self.locality,
            }),
    {
        ZPub {
            entity: self.entity,
            sn: 0,
            gid,
            with_attachment: self.with_attachment,
            shm_threshold: self.shm_threshold,
            dyn_schema: self.dyn_schema,
            encoding: self.encoding,
            intra_process_only: self.intra_process_only,
            locality: self.locality,
        }
    }
}

/// What travels beside a message.
#[derive(Debug, Clone, Copy)]
pub struct Attachment {
    pub sequence_number: i64,
    pub source_timestamp: ZTime,
    pub source_gid: GidArray,
}

/// What a message is put on the wire with.
#[derive(Debug)]
pub struct PutOptions {
    pub encoding: Option<String>,
    pub attachment: Option<Attachment>,
}

/// Where a message is encoded.
#[derive(Debug, Clone, Copy, PartialEq, Eq, Structural)]
pub enum Memory {
    Shared,
    Regular,
}

/// What a publish on the wire is to do.
#[derive(Debug)]
pub struct PutPlan {
    /// Where to encode the message; where shared memory cannot be had, regular
    /// memory is used.
    pub memory: Memory,
    pub options: PutOptions,
}

/// Why a message was not published.
#[derive(Debug, PartialEq, Eq)]
pub enum PublishError {
    /// The bus keeps no history, and the publisher on this topic promises one.
    DurableBus(String),
    /// Those who are there on this topic, as many as said, take the message by
    /// value only.
    OwnedOnly(String, usize),
    /// The wire failed.
    Wire(String),
}

/// The contents of a [`PublishError`].
#[verifier::ext_equal]
pub enum PublishErrorView {
    DurableBus(Seq<char>),
    OwnedOnly(Seq<char>, nat),
    Wire(Seq<char>),
}

impl View for PublishError {
    type V = PublishErrorView;

    open spec fn view(&self) -> PublishErrorView {
        match *self {
            PublishError::DurableBus(topic) => PublishErrorView::DurableBus(topic@),
            PublishError::OwnedOnly(topic, n) => PublishErrorView::OwnedOnly(topic@, n as nat),
            PublishError::Wire(text) => PublishErrorView::Wire(text@),
        }
    }
}

/// What an error of publishing says to the user.
pub open spec fn publish_error_text(e: PublishErrorView) -> Seq<char> {
    match e {
        PublishErrorView::DurableBus(topic) => {
            "publish on a TRANSIENT_LOCAL, intra-process-only publisher for "@ + topic
                + ": the intra-process path has no durability cache, so a late-joining subscriber would be served a history this message is missing from. Use publish(), or drop the transient-local durability."@
        },
        PublishErrorView::OwnedOnly(topic, n) => {
            "publish_shared on an intra-process-only publisher for "@ + topic + (": "@ + decimal(n)
                + " subscriber(s) on this topic take the message by value, and a shared publish cannot serve them. The message would be dropped with no wire behind it. Use publish_owned(), or build the subscriber with build_with_shared_callback()."@)
        },
        PublishErrorView::Wire(text) => text,
    }
}

impl PublishError {
    /// What the error says to the user.
    pub fn message(&self) -> (r: String)
        ensures
            r@ == publish_error_text(self@),
    {
        match self {
            PublishError::DurableBus(topic) => join3(
                "publish on a TRANSIENT_LOCAL, intra-process-only publisher for ",
                topic,
                ": the intra-process path has no durability cache, so a late-joining subscriber would be served a history this message is missing from. Use publish(), or drop the transient-local durability.",
            ),
            PublishError::OwnedOnly(topic, n) => {
                let rest: String = join3(
                    ": ",
                    &decimal_text(*n as u64),
                    " subscriber(s) on this topic take the message by value, and a shared publish cannot serve them. The message would be dropped with no wire behind it. Use publish_owned(), or build the subscriber with build_with_shared_callback().",
                );
                join3("publish_shared on an intra-process-only publisher for ", topic, &rest)
            },
            PublishError::Wire(text) => text.clone(),
        }
    }
}

/// What came of a publish.
pub open spec fn result_of(r: Result<Published, PublishError>) -> Result<
    Published,
    PublishErrorView,
> {
    match r {
        Ok(p) => Ok(p),
        Err(e) => Err(e@),
    }
}

/// What a publish is to do next.
#[derive(Debug)]
pub enum PublishStep<C, T> {
    /// Put the message on the wire, and tell what came of it.
    Send(T),
    /// Give the message to this callback, and tell whether it returned.
    Give(Arc<C>, T),
    /// Share the message with these callbacks, and tell how many returned.
    Share(Vec<Arc<C>>, T),
    /// Nothing more.
    Done(Result<Published, PublishError>),
}

/// Which ways messages go, by what the publisher says of its audience.
pub open spec fn route_of(intra_process_only: bool, locality: Option<Locality>) -> Route {
    if intra_process_only {
        Route::BusOnly
    } else if locality == Some(Locality::Remote) {
        Route::BusAndWire
    } else {
        Route::WireOnly
    }
}

/// What came of a publish of which the bus did `d`, where `owned` subscribers
/// take messages by value. They count only where there is no wire to reach them.
pub open spec fn bus_result(route: Route, topic: Seq<char>, d: Delivery, owned: nat) -> Result<
    Published,
    PublishErrorView,
> {
    if route == Route::BusAndWire {
        Ok(Published::BusAndWire(d))
    } else if d == Delivery::NoTaker && owned > 0 {
        Err(PublishErrorView::OwnedOnly(topic, owned))
    } else {
        Ok(Published::Bus(d))
    }
}

pub open spec fn done_with<C, T>(
    step: PublishStep<C, T>,
    result: Result<Published, PublishErrorView>,
) -> bool {
    step matches PublishStep::Done(r) && result_of(r) == result
}

/// Whether sharing a message with the subscribers in `entries` starts with `step`,
/// where `later` is who is there afterwards.
pub open spec fn shares<C, T>(
    route: Route,
    topic: Seq<char>,
    entries: Seq<Entry<C>>,
    later: Seq<Entry<C>>,
    key: u64,
    msg: T,
    before: u32,
    after: u32,
    step: PublishStep<C, T>,
) -> bool {
    if before >= MAX_DELIVERY_DEPTH {
        done_with(step, bus_result(route, topic, Delivery::DepthExceeded, 0)) && after == before
    } else if takers(entries, key, entries.len()).len() == 0 {
        &&& done_with(
            step,
            bus_result(route, topic, Delivery::NoTaker, owners(later, key, later.len())),
        )
        &&& after == before
    } else {
        &&& step matches PublishStep::Share(callbacks, m)
        &&& callbacks@ == takers(entries, key, entries.len())
        &&& m == msg
        &&& after == before + 1
    }
}

/// Whether giving a message away to the sole subscriber in `entries`, or else
/// sharing it, starts with `step`.
pub open spec fn gives<C, T>(
    route: Route,
    topic: Seq<char>,
    entries: Seq<Entry<C>>,
    next: Seq<Entry<C>>,
    later: Seq<Entry<C>>,
    key: u64,
    msg: T,
    before: u32,
    after: u32,
    step: PublishStep<C, T>,
) -> bool {
    if forall|i: int| !#[trigger] sole_owner(entries, key, i) {
        shares(route, topic, next, later, key, msg, before, after, step)
    } else if before >= MAX_DELIVERY_DEPTH {
        done_with(step, bus_result(route, topic, Delivery::DepthExceeded, 0)) && after == before
    } else {
        &&& step matches PublishStep::Give(callback, m)
        &&& exists|i: int|
            #[trigger] sole_owner(entries, key, i) && entries[i].callback == callback
        &&& m == msg
        &&& after == before + 1
    }
}

impl ZPub {
    /// Which ways this publisher's messages go. That there is no wire is the
    /// stronger word, so it comes before the locality.
    pub fn route(&self) -> (r: Route)
        ensures
            r == route_of(self.intra_process_only, self.locality),
    {
        if self.intra_process_only {
            return Route::BusOnly;
        }
        match self.locality {
            Some(Locality::Remote) => Route::BusAndWire,
            _ => Route::WireOnly,
        }
    }

    /// Whether the bus is refused: it keeps no history, and this publisher has
    /// promised one and has no wire.
    pub open spec fn durable_without_wire(&self) -> bool {
        self.intra_process_only && self.entity.qos.durability == QosDurability::TransientLocal
    }

    fn refuse_durable_bus(&self) -> (r: Option<PublishError>)
        ensures
            match r {
                Some(e) => self.durable_without_wire() && e@ == PublishErrorView::DurableBus(
                    self.entity.topic@,
                ),
                None => !self.durable_without_wire(),
            },
    {
        if !self.intra_process_only {
            return None;
        }
        match self.entity.qos.durability {
            QosDurability::Volatile => None,
            QosDurability::TransientLocal => Some(
                PublishError::DurableBus(self.entity.topic.clone()),
            ),
        }
    }

    /// What travels beside the next message, which is published at `now`.
    pub fn new_attachment(&mut self, now: ZTime) -> (r: Attachment)
        ensures
            r.sequence_number == old(self).sn as i64,
            r.source_timestamp == now,
            r.source_gid == old(self).gid,
            *final(self) == (ZPub {
                sn: if old(self).sn == usize::MAX {
                    0
                } else {
                    (old(self).sn + 1) as usize
                },
                ..*old(self)
            }),
    {
        let sn: usize = self.sn;
        self.sn = if sn == usize::MAX { 0 } else { sn + 1 };
        Attachment {
            sequence_number: sn as i64,
            source_timestamp: now,
            source_gid: self.gid,
        }
    }

    /// Whether `options` are those of the next message.
    pub open spec fn puts(&self, now: ZTime, options: PutOptions, after: ZPub) -> bool {
        &&& match self.encoding {
            Some(text) => options.encoding matches Some(t) && t@ == text@,
            None => options.encoding is None,
        }
        &&& if self.with_attachment {
            &&& options.attachment matches Some(a)
            &&& a.sequence_number == self.sn as i64
            &&& a.source_timestamp == now
            &&& a.source_gid == self.gid
            &&& after == ZPub {
                sn: if self.sn == usize::MAX {
                    0
                } else {
                    (self.sn + 1) as usize
                },
                ..*self
            }
        } else {
            options.attachment is None && after == *self
        }
    }

    /// What bytes that are encoded already are put on the wire with.
    pub fn publish_serialized(&mut self, now: ZTime) -> (r: PutOptions)
        ensures
            old(self).puts(now, r, *final(self)),
    {
        let encoding: Option<String> = match &self.encoding {
            Some(text) => Some(text.clone()),
            None => None,
        };
        let attachment: Option<Attachment> = if self.with_attachment {
            Some(self.new_attachment(now))
        } else {
            None
        };
        PutOptions { encoding, attachment }
    }

    /// How a message of about `estimated_size` bytes is put on the wire.
    pub fn publish(&mut self, estimated_size: usize, now: ZTime) -> (r: PutPlan)
        ensures
            old(self).puts(now, r.options, *final(self)),
            r.memory == (match old(self).shm_threshold {
                Some(threshold) => if estimated_size >= threshold {
                    Memory::Shared
                } else {
                    Memory::Regular
                },
                None => Memory::Regular,
            }),
    {
        let memory: Memory = match self.shm_threshold {
            Some(threshold) => if estimated_size >= threshold {
                Memory::Shared
            } else {
                Memory::Regular
            },
            None => Memory::Regular,
        };
        PutPlan { memory, options: self.publish_serialized(now) }
    }

    fn finish(&self, d: Delivery, owned: usize) -> (r: Result<Published, PublishError>)
        ensures
            result_of(r) == bus_result(
                route_of(self.intra_process_only, self.locality),
                self.entity.topic@,
                d,
                owned as nat,
            ),
    {
        let both: bool = match self.route() {
            Route::BusAndWire => true,
            _ => false,
        };
        let nobody: bool = match d {
            Delivery::NoTaker => true,
            _ => false,
        };
        if both {
            Ok(Published::BusAndWire(d))
        } else if nobody && owned > 0 {
            Err(PublishError::OwnedOnly(self.entity.topic.clone(), owned))
        } else {
            Ok(Published::Bus(d))
        }
    }

    /// Shares a message as the bus has planned, where `owned` subscribers take
    /// messages by value.
    pub fn share_as<C, T>(&self, plan: Plan<C>, owned: usize, msg: T) -> (r: PublishStep<C, T>)
        ensures
            match plan {
                Plan::Call(callbacks) => r == PublishStep::Share(callbacks, msg),
                Plan::Done(d) => done_with(
                    r,
                    bus_result(
                        route_of(self.intra_process_only, self.locality),
                        self.entity.topic@,
                        d,
                        owned as nat,
                    ),
                ),
            },
    {
        match plan {
            Plan::Call(callbacks) => PublishStep::Share(callbacks, msg),
            Plan::Done(d) => PublishStep::Done(self.finish(d, owned)),
        }
    }

    /// Gives a message away as the bus has planned.
    pub fn give_as<C, T>(&self, plan: OwnedPlan<C, T>) -> (r: PublishStep<C, T>)
        ensures
            match plan {
                OwnedPlan::Give(callback, msg) => r == PublishStep::Give(callback, msg),
                OwnedPlan::Dropped => done_with(
                    r,
                    bus_result(
                        route_of(self.intra_process_only, self.locality),
                        self.entity.topic@,
                        Delivery::DepthExceeded,
                        0,
                    ),
                ),
            },
    {
        match plan {
            OwnedPlan::Give(callback, msg) => PublishStep::Give(callback, msg),
            OwnedPlan::Dropped => PublishStep::Done(self.finish(Delivery::DepthExceeded, 0)),
        }
    }

    /// Whether a publish goes to the bus at once.
    pub open spec fn starts_on_bus(&self) -> bool {
        route_of(self.intra_process_only, self.locality) == Route::BusOnly
            && !self.durable_without_wire()
    }

    /// Whether a publish goes on to the bus, where `sent` is what the wire did.
    pub open spec fn goes_on_to_bus(&self, sent: Result<(), String>) -> bool {
        sent is Ok && route_of(self.intra_process_only, self.locality) != Route::WireOnly
    }

    /// Starts to share a message with the subscribers on the bus.
    fn start_sharing<C, T>(
        &self,
        msg: T,
        channel: &Channel<C>,
        key: u64,
        depth: &mut DeliveryDepth,
    ) -> (r: PublishStep<C, T>)
        ensures
            exists|entries: Seq<Entry<C>>, later: Seq<Entry<C>>|
                #[trigger] channel.told(entries) && #[trigger] channel.told(later) && shares(
                    route_of(self.intra_process_only, self.locality),
                    self.entity.topic@,
                    entries,
                    later,
                    key,
                    msg,
                    old(depth).depth,
                    final(depth).depth,
                    r,
                ),
    {
        let plan = channel.publish(key, depth);
        let owned: usize = match plan {
            Plan::Done(Delivery::NoTaker) => channel.owned_receivers(key),
            _ => 0,
        };
        self.share_as(plan, owned, msg)
    }

    /// Starts to give a message away on the bus, or else to share it.
    fn start_giving<C, T>(
        &self,
        msg: T,
        channel: &Channel<C>,
        key: u64,
        depth: &mut DeliveryDepth,
    ) -> (r: PublishStep<C, T>)
        ensures
            exists|entries: Seq<Entry<C>>, next: Seq<Entry<C>>, later: Seq<Entry<C>>|
                #[trigger] channel.told(entries) && #[trigger] channel.told(next)
                    && #[trigger] channel.told(later) && gives(
                    route_of(self.intra_process_only, self.locality),
                    self.entity.topic@,
                    entries,
                    next,
                    later,
                    key,
                    msg,
                    old(depth).depth,
                    final(depth).depth,
                    r,
                ),
    {
        match channel.publish_owned(key, msg, depth) {
            Ok(plan) => self.give_as(plan),
            Err(returned) => self.start_sharing(returned, channel, key, depth),
        }
    }

    /// Publishes a message that may be shared. `key` stands for its type, and
    /// `depth` for how deeply deliveries are nested on this thread.
    pub fn publish_shared<C, T>(
        &self,
        msg: T,
        channel: &Channel<C>,
        key: u64,
        depth: &mut DeliveryDepth,
    ) -> (r: PublishStep<C, T>)
        ensures
            exists|entries: Seq<Entry<C>>, later: Seq<Entry<C>>|
                #![trigger channel.told(entries), channel.told(later)]
                #![trigger self.shared_starts(
                    entries,
                    later,
                    key,
                    msg,
                    old(depth).depth,
                    final(depth).depth,
                    r,
                )]
                {
                    &&& self.starts_on_bus() ==> channel.told(entries) && channel.told(later)
                    &&& self.shared_starts(
                        entries,
                        later,
                        key,
                        msg,
                        old(depth).depth,
                        final(depth).depth,
                        r,
                    )
                },
    {
        let ghost nobody = Seq::<Entry<C>>::empty();
        match self.route() {
            Route::BusOnly => {
                match self.refuse_durable_bus() {
                    Some(e) => {
                        let r = PublishStep::Done(Err(e));
                        assert(self.shared_starts(
                            nobody,
                            nobody,
                            key,
                            msg,
                            old(depth).depth,
                            depth.depth,
                            r,
                        ));
                        return r;
                    },
                    None => {},
                }
                self.start_sharing(msg, channel, key, depth)
            },
            _ => {
                let ghost m = msg;
                let r = PublishStep::Send(msg);
                assert(self.shared_starts(
                    nobody,
                    nobody,
                    key,
                    m,
                    old(depth).depth,
                    depth.depth,
                    r,
                ));
                r
            },
        }
    }

    /// Goes on with a message that may be shared once the wire has had it. The wire
    /// comes first: where it fails, nobody on the bus has heard the message.
    pub fn shared_sent<C, T>(
        &self,
        msg: T,
        sent: Result<(), String>,
        channel: &Channel<C>,
        key: u64,
        depth: &mut DeliveryDepth,
    ) -> (r: PublishStep<C, T>)
        requires
            !self.intra_process_only,
        ensures
            exists|entries: Seq<Entry<C>>, later: Seq<Entry<C>>|
                #![trigger channel.told(entries), channel.told(later)]
                #![trigger self.shared_goes_on(
                    sent,
                    entries,
                    later,
                    key,
                    msg,
                    old(depth).depth,
                    final(depth).depth,
                    r,
                )]
                {
                    &&& self.goes_on_to_bus(sent) ==> channel.told(entries) && channel.told(later)
                    &&& self.shared_goes_on(
                        sent,
                        entries,
                        later,
                        key,
                        msg,
                        old(depth).depth,
                        final(depth).depth,
                        r,
                    )
                },
    {
        let ghost nobody = Seq::<Entry<C>>::empty();
        let ghost given = sent;
        let ghost before = depth.depth;
        match sent {
            Err(e) => {
                let r = PublishStep::Done(Err(PublishError::Wire(e)));
                assert(self.shared_goes_on(given, nobody, nobody, key, msg, before, before, r));
                return r;
            },
            Ok(()) => {},
        }
        match self.route() {
            Route::WireOnly => {
                let r = PublishStep::Done(Ok(Published::Wire));
                assert(self.shared_goes_on(given, nobody, nobody, key, msg, before, before, r));
                r
            },
            _ => self.start_sharing(msg, channel, key, depth),
        }
    }

    /// Publishes a message by value: a sole subscriber that takes it so is given
    /// it, and otherwise it is shared.
    pub fn publish_owned<C, T>(
        &self,
        msg: T,
        channel: &Channel<C>,
        key: u64,
        depth: &mut DeliveryDepth,
    ) -> (r: PublishStep<C, T>)
        ensures
            exists|entries: Seq<Entry<C>>, next: Seq<Entry<C>>, later: Seq<Entry<C>>|
                #![trigger channel.told(entries), channel.told(next), channel.told(later)]
                #![trigger self.owned_starts(
                    entries,
                    next,
                    later,
                    key,
                    msg,
                    old(depth).depth,
                    final(depth).depth,
                    r,
                )]
                {
                    &&& self.starts_on_bus() ==> channel.told(entries) && channel.told(next)
                        && channel.told(later)
                    &&& self.owned_starts(
                        entries,
                        next,
                        later,
                        key,
                        msg,
                        old(depth).depth,
                        final(depth).depth,
                        r,
                    )
                },
    {
        let ghost nobody = Seq::<Entry<C>>::empty();
        match self.route() {
            Route::BusOnly => {
                match self.refuse_durable_bus() {
                    Some(e) => {
                        let r = PublishStep::Done(Err(e));
                        assert(self.owned_starts(
                            nobody,
                            nobody,
                            nobody,
                            key,
                            msg,
                            old(depth).depth,
                            depth.depth,
                            r,
                        ));
                        return r;
                    },
                    None => {},
                }
                self.start_giving(msg, channel, key, depth)
            },
            _ => {
                let ghost m = msg;
                let r = PublishStep::Send(msg);
                assert(self.owned_starts(
                    nobody,
                    nobody,
                    nobody,
                    key,
                    m,
                    old(depth).depth,
                    depth.depth,
                    r,
                ));
                r
            },
        }
    }

    /// Goes on with a message by value once the wire has had it.
    pub fn owned_sent<C, T>(
        &self,
        msg: T,
        sent: Result<(), String>,
        channel: &Channel<C>,
        key: u64,
        depth: &mut DeliveryDepth,
    ) -> (r: PublishStep<C, T>)
        requires
            !self.intra_process_only,
        ensures
            exists|entries: Seq<Entry<C>>, next: Seq<Entry<C>>, later: Seq<Entry<C>>|
                #![trigger channel.told(entries), channel.told(next), channel.told(later)]
                #![trigger self.owned_goes_on(
                    sent,
                    entries,
                    next,
                    later,
                    key,
                    msg,
                    old(depth).depth,
                    final(depth).depth,
                    r,
                )]
                {
                    &&& self.goes_on_to_bus(sent) ==> channel.told(entries) && channel.told(next)
                        && channel.told(later)
                    &&& self.owned_goes_on(
                        sent,
                        entries,
                        next,
                        later,
                        key,
                        msg,
                        old(depth).depth,
                        final(depth).depth,
                        r,
                    )
                },
    {
        let ghost nobody = Seq::<Entry<C>>::empty();
        let ghost given = sent;
        let ghost before = depth.depth;
        match sent {
            Err(e) => {
                let r = PublishStep::Done(Err(PublishError::Wire(e)));
                assert(self.owned_goes_on(
                    given,
                    nobody,
                    nobody,
                    nobody,
                    key,
                    msg,
                    before,
                    before,
                    r,
                ));
                return r;
            },
            Ok(()) => {},
        }
        match self.route() {
            Route::WireOnly => {
                let r = PublishStep::Done(Ok(Published::Wire));
                assert(self.owned_goes_on(
                    given,
                    nobody,
                    nobody,
                    nobody,
                    key,
                    msg,
                    before,
                    before,
                    r,
                ));
                r
            },
            _ => self.start_giving(msg, channel, key, depth),
        }
    }

    /// Ends a publish that shared the message; `completed` callbacks returned.
    pub fn shared_called<C>(
        &self,
        completed: usize,
        channel: &Channel<C>,
        key: u64,
        depth: &mut DeliveryDepth,
    ) -> (r: Result<Published, PublishError>)
        requires
            old(depth).depth > 0,
        ensures
            final(depth).depth == old(depth).depth - 1,
            exists|later: Seq<Entry<C>>|
                #![trigger channel.told(later)]
                #![trigger self.after_sharing(completed, later, key)]
                {
                    &&& completed == 0 ==> channel.told(later)
                    &&& result_of(r) == self.after_sharing(completed, later, key)
                },
    {
        let d = settle(completed, depth);
        match d {
            Delivery::NoTaker => {
                let owned: usize = channel.owned_receivers(key);
                self.finish(d, owned)
            },
            _ => {
                let r = self.finish(d, 0);
                assert(result_of(r) == self.after_sharing(
                    completed,
                    Seq::<Entry<C>>::empty(),
                    key,
                ));
                r
            },
        }
    }

    /// Ends a publish that gave the message away; whether the callback returned.
    pub fn given(&self, completed: bool, depth: &mut DeliveryDepth) -> (r: Result<
        Published,
        PublishError,
    >)
        requires
            old(depth).depth > 0,
        ensures
            final(depth).depth == old(depth).depth - 1,
            result_of(r) == self.after_giving(completed),
    {
        let d = settle(
            if completed {
                1
            } else {
                0
            },
            depth,
        );
        self.finish(d, 0)
    }

    /// What to do while waiting for `count` subscribers; see [`wait_step`].
    pub fn wait_for_subscription(&self, matched: usize, count: usize, remaining: u128) -> (r:
        WaitStep)
        ensures
            r == (if matched >= count {
                WaitStep::Matched
            } else if remaining == 0 {
                WaitStep::TimedOut
            } else {
                WaitStep::Sleep(remaining)
            }),
    {
        wait_step(matched, count, remaining)
    }

    /// The endpoint of this publisher.
    pub fn entity(&self) -> (r: &EndpointEntity)
        ensures
            *r == self.entity,
    {
        &self.entity
    }

    /// The schema of dynamic messages, where one was set.
    pub fn schema(&self) -> (r: Option<&MessageSchema>)
        ensures
            match r {
                Some(s) => self.dyn_schema == Some(Arc::new(*s)),
                None => self.dyn_schema is None,
            },
    {
        match &self.dyn_schema {
            Some(schema) => Some(&**schema),
            None => None,
        }
    }

    /// Whether publishing a message that may be shared starts with `step`.
    pub open spec fn shared_starts<C, T>(
        &self,
        entries: Seq<Entry<C>>,
        later: Seq<Entry<C>>,
        key: u64,
        msg: T,
        before: u32,
        after: u32,
        step: PublishStep<C, T>,
    ) -> bool {
        let route = route_of(self.intra_process_only, self.locality);
        if route != Route::BusOnly {
            step == PublishStep::<C, T>::Send(msg) && after == before
        } else if self.durable_without_wire() {
            done_with(step, Err(PublishErrorView::DurableBus(self.entity.topic@))) && after
                == before
        } else {
            shares(route, self.entity.topic@, entries, later, key, msg, before, after, step)
        }
    }

    /// Whether publishing a message that may be shared goes on with `step`, where
    /// `sent` is what the wire did.
    pub open spec fn shared_goes_on<C, T>(
        &self,
        sent: Result<(), String>,
        entries: Seq<Entry<C>>,
        later: Seq<Entry<C>>,
        key: u64,
        msg: T,
        before: u32,
        after: u32,
        step: PublishStep<C, T>,
    ) -> bool {
        let route = route_of(self.intra_process_only, self.locality);
        match sent {
            Err(e) => done_with(step, Err(PublishErrorView::Wire(e@))) && after == before,
            Ok(()) => if route == Route::WireOnly {
                done_with(step, Ok(Published::Wire)) && after == before
            } else {
                shares(route, self.entity.topic@, entries, later, key, msg, before, after, step)
            },
        }
    }

    /// Whether publishing a message by value starts with `step`.
    pub open spec fn owned_starts<C, T>(
        &self,
        entries: Seq<Entry<C>>,
        next: Seq<Entry<C>>,
        later: Seq<Entry<C>>,
        key: u64,
        msg: T,
        before: u32,
        after: u32,
        step: PublishStep<C, T>,
    ) -> bool {
        let route = route_of(self.intra_process_only, self.locality);
        if route != Route::BusOnly {
            step == PublishStep::<C, T>::Send(msg) && after == before
        } else if self.durable_without_wire() {
            done_with(step, Err(PublishErrorView::DurableBus(self.entity.topic@))) && after
                == before
        } else {
            gives(route, self.entity.topic@, entries, next, later, key, msg, before, after, step)
        }
    }

    /// Whether publishing a message by value goes on with `step`, where `sent` is
    /// what the wire did.
    pub open spec fn owned_goes_on<C, T>(
        &self,
        sent: Result<(), String>,
        entries: Seq<Entry<C>>,
        next: Seq<Entry<C>>,
        later: Seq<Entry<C>>,
        key: u64,
        msg: T,
        before: u32,
        after: u32,
        step: PublishStep<C, T>,
    ) -> bool {
        let route = route_of(self.intra_process_only, self.locality);
        match sent {
            Err(e) => done_with(step, Err(PublishErrorView::Wire(e@))) && after == before,
            Ok(()) => if route == Route::WireOnly {
                done_with(step, Ok(Published::Wire)) && after == before
            } else {
                gives(
                    route,
                    self.entity.topic@,
                    entries,
                    next,
                    later,
                    key,
                    msg,
                    before,
                    after,
                    step,
                )
            },
        }
    }

    /// What came of sharing a message, where `later` is who is there afterwards.
    pub open spec fn after_sharing<C>(
        &self,
        completed: usize,
        later: Seq<Entry<C>>,
        key: u64,
    ) -> Result<Published, PublishErrorView> {
        bus_result(
            route_of(self.intra_process_only, self.locality),
            self.entity.topic@,
            if completed == 0 {
                Delivery::NoTaker
            } else {
                Delivery::Sent(completed)
            },
            owners(later, key, later.len()),
        )
    }

    /// What came of giving a message away.
    pub open spec fn after_giving(&self, completed: bool) -> Result<Published, PublishErrorView> {
        bus_result(
            route_of(self.intra_process_only, self.locality),
            self.entity.topic@,
            if completed {
                Delivery::Sent(1)
            } else {
                Delivery::NoTaker
            },
            0,
        )
    }
}

/// A publisher that promises a history and has no wire never hands a message to
/// the bus, by value or shared.
pub proof fn durable_publishers_keep_off_the_bus<C, T>(
    publisher: ZPub,
    entries: Seq<Entry<C>>,
    next: Seq<Entry<C>>,
    later: Seq<Entry<C>>,
    key: u64,
    msg: T,
    before: u32,
    after: u32,
    step: PublishStep<C, T>,
)
    requires
        publisher.durable_without_wire(),
        publisher.shared_starts(entries, later, key, msg, before, after, step)
            || publisher.owned_starts(entries, next, later, key, msg, before, after, step),
    ensures
        done_with(step, Err(PublishErrorView::DurableBus(publisher.entity.topic@))),
        after == before,
{
}

/// A publisher without a wire never sends.
pub proof fn no_wire_no_send<C, T>(
    publisher: ZPub,
    entries: Seq<Entry<C>>,
    next: Seq<Entry<C>>,
    later: Seq<Entry<C>>,
    key: u64,
    msg: T,
    before: u32,
    after: u32,
    step: PublishStep<C, T>,
)
    requires
        publisher.intra_process_only,
        publisher.shared_starts(entries, later, key, msg, before, after, step)
            || publisher.owned_starts(entries, next, later, key, msg, before, after, step),
    ensures
        !(step is Send),
{
}

/// A message that goes on the wire reaches the bus too only where the wire cannot
/// reach this session, so nobody hears it twice.
pub proof fn nobody_hears_a_message_twice<C, T>(
    publisher: ZPub,
    sent: Result<(), String>,
    entries: Seq<Entry<C>>,
    next: Seq<Entry<C>>,
    later: Seq<Entry<C>>,
    key: u64,
    msg: T,
    before: u32,
    after: u32,
    step: PublishStep<C, T>,
)
    requires
        !publisher.intra_process_only,
        publisher.locality != Some(Locality::Remote),
        publisher.shared_goes_on(sent, entries, later, key, msg, before, after, step)
            || publisher.owned_goes_on(
            sent,
            entries,
            next,
            later,
            key,
            msg,
            before,
            after,
            step,
        ),
    ensures
        match sent {
            Ok(()) => done_with(step, Ok(Published::Wire)),
            Err(e) => done_with(step, Err(PublishErrorView::Wire(e@))),
        },
{
}

/// A publisher without a wire says so where nobody but subscribers by value is
/// there to take a shared message: it is not lost in silence.
pub proof fn unserved_subscribers_are_reported<C, T>(
    publisher: ZPub,
    entries: Seq<Entry<C>>,
    later: Seq<Entry<C>>,
    key: u64,
    msg: T,
    before: u32,
    after: u32,
    step: PublishStep<C, T>,
)
    requires
        publisher.intra_process_only,
        !publisher.durable_without_wire(),
        before < MAX_DELIVERY_DEPTH,
        takers(entries, key, entries.len()).len() == 0,
        owners(later, key, later.len()) > 0,
        publisher.shared_starts(entries, later, key, msg, before, after, step),
    ensures
        done_with(
            step,
            Err(
                PublishErrorView::OwnedOnly(
                    publisher.entity.topic@,
                    owners(later, key, later.len()),
                ),
            ),
        ),
{
}

/// A message goes on the wire first unless the publisher has none, and then on the
/// bus too only where the wire reaches other sessions alone. What is reported says
/// which ways it took.
pub proof fn messages_take_the_ways_they_are_given<C, T>(
    publisher: ZPub,
    sent: Result<(), String>,
    entries: Seq<Entry<C>>,
    later: Seq<Entry<C>>,
    key: u64,
    msg: T,
    before: u32,
    after: u32,
    start: PublishStep<C, T>,
    next: PublishStep<C, T>,
)
    requires
        publisher.shared_starts(entries, later, key, msg, before, after, start),
        publisher.shared_goes_on(sent, entries, later, key, msg, before, after, next),
    ensures
        start is Send <==> !publisher.intra_process_only,
        start is Send ==> start == PublishStep::<C, T>::Send(msg),
        next !is Send,
        sent matches Err(e) ==> done_with(next, Err(PublishErrorView::Wire(e@))),
        !publisher.intra_process_only && sent is Ok ==> {
            &&& done_with(next, Ok(Published::Wire)) <==> publisher.locality
                != Some(Locality::Remote)
            &&& publisher.locality == Some(Locality::Remote) ==> (next matches PublishStep::Done(r)
                ==> (result_of(r) matches Ok(p) && p is BusAndWire))
        },
        publisher.intra_process_only ==> match start {
            PublishStep::Done(r) => match result_of(r) {
                Ok(p) => p is Bus,
                Err(e) => e is DurableBus || e is OwnedOnly,
            },
            PublishStep::Share(callbacks, m) => m == msg && callbacks@ == takers(
                entries,
                key,
                entries.len(),
            ),
            _ => false,
        },
{
}

/// What the bus did is reported as it was: as many as took the message, nobody, or
/// that it was nested too deeply. Only where there is no wire and nobody took it
/// are those counted who would have taken it by value.
pub proof fn what_the_bus_did_is_reported<C>(
    publisher: ZPub,
    completed: usize,
    later: Seq<Entry<C>>,
    key: u64,
)
    ensures
        publisher.intra_process_only && completed > 0 ==> publisher.after_sharing(
            completed,
            later,
            key,
        ) == Ok::<Published, PublishErrorView>(Published::Bus(Delivery::Sent(completed))),
        publisher.intra_process_only && completed == 0 ==> publisher.after_sharing(
            completed,
            later,
            key,
        ) == (if owners(later, key, later.len()) > 0 {
            Err(
                PublishErrorView::OwnedOnly(
                    publisher.entity.topic@,
                    owners(later, key, later.len()),
                ),
            )
        } else {
            Ok(Published::Bus(Delivery::NoTaker))
        }),
        !publisher.intra_process_only && publisher.locality == Some(Locality::Remote)
            ==> publisher.after_sharing(completed, later, key) == Ok::<Published, PublishErrorView>(
            Published::BusAndWire(
                if completed > 0 {
                    Delivery::Sent(completed)
                } else {
                    Delivery::NoTaker
                },
            ),
        ),
        publisher.intra_process_only ==> publisher.after_giving(true) == Ok::<
            Published,
            PublishErrorView,
        >(Published::Bus(Delivery::Sent(1))) && publisher.after_giving(false) == Ok::<
            Published,
            PublishErrorView,
        >(Published::Bus(Delivery::NoTaker)),
        !publisher.intra_process_only && publisher.locality == Some(Locality::Remote)
            ==> publisher.after_giving(true) == Ok::<Published, PublishErrorView>(
            Published::BusAndWire(Delivery::Sent(1)),
        ) && publisher.after_giving(false) == Ok::<Published, PublishErrorView>(
            Published::BusAndWire(Delivery::NoTaker),
        ),
{
}

/// A message that is published by value is given away where one subscriber alone
/// is there and takes it so, and shared otherwise.
pub proof fn a_sole_owner_is_given_the_message<C, T>(
    publisher: ZPub,
    entries: Seq<Entry<C>>,
    key: u64,
    msg: T,
    before: u32,
    after: u32,
    step: PublishStep<C, T>,
)
    requires
        publisher.intra_process_only,
        !publisher.durable_without_wire(),
        before < 8,
        publisher.owned_starts(entries, entries, entries, key, msg, before, after, step),
    ensures
        step is Give <==> exists|i: int| #[trigger] sole_owner(entries, key, i),
        step matches PublishStep::Give(callback, m) ==> m == msg && exists|i: int|
            #[trigger] sole_owner(entries, key, i) && entries[i].callback == callback,
        step matches PublishStep::Share(callbacks, m) ==> m == msg && callbacks@ == takers(
            entries,
            key,
            entries.len(),
        ),
        step is Send ==> false,
        step is Give || step is Share ==> after == before + 1,
        step is Done ==> after == before,
{
}

/// Messages with an attachment are numbered one after the other and tell their
/// publisher and the time.
pub proof fn attachments_are_numbered_in_order(
    a: ZPub,
    b: ZPub,
    c: ZPub,
    s: ZTime,
    t: ZTime,
    first: PutOptions,
    second: PutOptions,
)
    requires
        a.with_attachment,
        a.sn < 0x7fff_ffff,
        a.puts(s, first, b),
        b.puts(t, second, c),
    ensures
        first.attachment matches Some(x) && {
            &&& x.sequence_number == a.sn
            &&& x.source_timestamp == s
            &&& x.source_gid == a.gid
            &&& second.attachment matches Some(y) && y.sequence_number == x.sequence_number + 1
                && y.source_gid == x.source_gid && y.source_timestamp == t
        },
        c.gid == a.gid && c.entity == a.entity && c.locality == a.locality,
        c.sn == a.sn + 2,
        first.encoding is Some <==> a.encoding is Some,
{
}

/// The messages of a reliable publisher wait where the wire is congested and those
/// of another are dropped; the rest is as it was asked for.
pub proof fn reliable_publishers_wait(b: ZPubBuilder, r: Result<PublisherPlan, BuildError>)
    requires
        call_ensures(ZPubBuilder::build, (b,), r),
    ensures
        r matches Ok(plan) ==> {
            &&& plan.congestion_control is Block <==> b.entity.qos.reliability is Reliable
            &&& plan.cache is Some <==> b.entity.qos.durability is TransientLocal
            &&& plan.locality == b.locality
            &&& plan.intra_process_only == b.intra_process_only
            &&& plan.with_attachment == b.with_attachment
            &&& plan.shm_threshold == b.shm_threshold
            &&& plan.encoding == b.encoding
            &&& plan.entity.qos == b.entity.qos
            &&& b.entity.node matches Some(n) && crate::topic_name::qualified(
                b.entity.topic@,
                n.namespace@,
                n.name@,
            ) == Ok::<Seq<char>, crate::topic_name::NameErrorView>(plan.entity.topic@)
        },
        b.entity.node is None ==> r == Err::<PublisherPlan, BuildError>(
            BuildError::PublisherWithoutNode,
        ),
{
}

/// A message is encoded in shared memory just where it is at least as large as the
/// publisher says.
pub proof fn large_messages_go_to_shared_memory(
    publisher: &mut ZPub,
    size: usize,
    now: ZTime,
    plan: PutPlan,
)
    requires
        call_ensures(ZPub::publish, (publisher, size, now), plan),
    ensures
        plan.memory is Shared <==> (old(publisher).shm_threshold matches Some(t) && size >= t),
        old(publisher).with_attachment <==> plan.options.attachment is Some,
{
}

/// A publisher without a wire uses the bus alone, one that reaches other sessions
/// only uses both, and any other the wire alone.
pub proof fn each_publisher_has_its_ways(publisher: &ZPub, r: Route)
    requires
        call_ensures(ZPub::route, (publisher,), r),
    ensures
        r is BusOnly <==> publisher.intra_process_only,
        r is BusAndWire <==> !publisher.intra_process_only && publisher.locality
            == Some(Locality::Remote),
        r is WireOnly <==> !publisher.intra_process_only && publisher.locality
            != Some(Locality::Remote),
{
}

/// A message goes to the wire first wherever there is one, whether it may be shared
/// or not; where the wire fails nobody on the bus hears it, and where the wire
/// reaches this session too the bus is left out.
pub proof fn the_wire_comes_first<C, T>(
    publisher: &ZPub,
    msg: T,
    sent: Result<(), String>,
    channel: &Channel<C>,
    key: u64,
    depth: &mut DeliveryDepth,
    step: PublishStep<C, T>,
)
    requires
        !publisher.intra_process_only,
    ensures
        call_ensures(ZPub::publish_shared::<C, T>, (publisher, msg, channel, key, depth), step)
            || call_ensures(
            ZPub::publish_owned::<C, T>,
            (publisher, msg, channel, key, depth),
            step,
        ) ==> step == PublishStep::<C, T>::Send(msg) && final(depth).depth == old(depth).depth,
        call_ensures(
            ZPub::shared_sent::<C, T>,
            (publisher, msg, sent, channel, key, depth),
            step,
        ) || call_ensures(
            ZPub::owned_sent::<C, T>,
            (publisher, msg, sent, channel, key, depth),
            step,
        ) ==> {
            &&& sent is Err || publisher.locality != Some(Locality::Remote) ==> step is Done
                && final(depth).depth == old(depth).depth
            &&& sent is Err ==> done_with(step, Err(PublishErrorView::Wire(sent->Err_0@)))
            &&& sent is Ok && publisher.locality != Some(Locality::Remote) ==> done_with(
                step,
                Ok(Published::Wire),
            )
            &&& step is Share || step is Give ==> final(depth).depth == old(depth).depth + 1
            &&& step is Done ==> final(depth).depth == old(depth).depth
            &&& step !is Send
            &&& step matches PublishStep::Share(_, m) ==> m == msg
            &&& step matches PublishStep::Give(_, m) ==> m == msg
        },
{
}

/// A publisher without a wire that promised a history refuses to publish.
pub proof fn a_promised_history_needs_a_wire<C, T>(
    publisher: &ZPub,
    msg: T,
    channel: &Channel<C>,
    key: u64,
    depth: &mut DeliveryDepth,
    step: PublishStep<C, T>,
)
    requires
        publisher.intra_process_only,
        call_ensures(ZPub::publish_shared::<C, T>, (publisher, msg, channel, key, depth), step)
            || call_ensures(
            ZPub::publish_owned::<C, T>,
            (publisher, msg, channel, key, depth),
            step,
        ),
    ensures
        step !is Send,
        publisher.entity.qos.durability is TransientLocal ==> {
            &&& step matches PublishStep::Done(r) && (result_of(r) matches Err(e) && e
                is DurableBus)
            &&& final(depth).depth == old(depth).depth
        },
        publisher.entity.qos.durability is Volatile ==> (step matches PublishStep::Done(r) ==> !(
        result_of(r) matches Err(e) && e is DurableBus)),
{
}

/// A publish ends one level further out, and says how many took the message.
pub proof fn publishes_end_where_they_began<C>(
    publisher: &ZPub,
    completed: usize,
    channel: &Channel<C>,
    key: u64,
    depth: &mut DeliveryDepth,
    r: Result<Published, PublishError>,
    returned: bool,
)
    requires
        old(depth).depth > 0,
        publisher.intra_process_only,
    ensures
        call_ensures(ZPub::shared_called::<C>, (publisher, completed, channel, key, depth), r)
            ==> final(depth).depth + 1 == old(depth).depth && (completed > 0 ==> result_of(r)
            == Ok::<Published, PublishErrorView>(Published::Bus(Delivery::Sent(completed)))),
        call_ensures(ZPub::given, (publisher, returned, depth), r) ==> final(depth).depth + 1
            == old(depth).depth && result_of(r) == Ok::<Published, PublishErrorView>(
            Published::Bus(
                if returned {
                    Delivery::Sent(1)
                } else {
                    Delivery::NoTaker
                },
            ),
        ),
{
}

} // verus!
