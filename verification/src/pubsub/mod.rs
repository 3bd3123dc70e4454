//! Publishers and subscribers: what they are made of, and which way a message
//! goes.
//!
//! Declaring endpoints, putting bytes on the wire and calling the user's code is
//! the caller's work. The functions here say what is to be done, and take back
//! what came of it.

pub mod publisher;
pub mod subscriber;

use crate::dynamic::schema::MessageSchema;
use crate::dynamic::type_info::{dds_type_name, hash_of, is_zero_hash, schema_type_info};
use crate::entity::{EndpointEntity, NodeEntity};
use crate::protocol::{QosDurability, QosHistory, QosProfile, QosReliability};
use crate::qos::KEEP_ALL_CACHE_DEPTH;
use crate::text::join2;
use crate::topic_name::{message_of, qualified, qualify_topic_name, TopicNameError};
use vstd::prelude::*;

verus! {

/// The period of the heartbeat by which durable, reliable publishers let missed
/// samples be found, in milliseconds.
pub const SAMPLE_MISS_HEARTBEAT_PERIOD_MS: u64 = 500;

/// How long a durable subscriber waits for the history that it asks for, in
/// milliseconds.
pub const TRANSIENT_LOCAL_QUERY_TIMEOUT_MS: u64 = u64::MAX;

/// Which endpoints a publisher reaches, or a subscriber hears, by where they are.
#[derive(Debug, Clone, Copy, PartialEq, Eq, Structural)]
pub enum Locality {
    SessionLocal,
    Remote,
    Any,
}

/// What a full queue on the wire does to a message.
#[derive(Debug, Clone, Copy, PartialEq, Eq, Structural)]
pub enum CongestionControl {
    Drop,
    Block,
}

/// How many samples are cached for a history, where none given means the number
/// that stands for an unlimited one.
pub open spec fn cache_depth(history: QosHistory) -> usize {
    match history {
        QosHistory::KeepLast(depth) => if depth > 0 {
            depth
        } else {
            KEEP_ALL_CACHE_DEPTH
        },
        QosHistory::KeepAll => KEEP_ALL_CACHE_DEPTH,
    }
}

/// How many samples are cached for a history.
pub fn cache_depth_from_history(history: QosHistory) -> (r: usize)
    ensures
        r == cache_depth(history),
        r > 0,
{
    match history {
        QosHistory::KeepLast(depth) => if depth > 0 {
            depth
        } else {
            KEEP_ALL_CACHE_DEPTH
        },
        QosHistory::KeepAll => KEEP_ALL_CACHE_DEPTH,
    }
}

/// What a durable publisher adds to an ordinary one.
#[derive(Debug, Clone, Copy, PartialEq, Eq, Structural)]
pub struct PublisherCache {
    pub max_samples: usize,
    /// The period of the heartbeat, where there is one.
    pub heartbeat_ms: Option<u64>,
}

/// What a durable subscriber adds to an ordinary one.
#[derive(Debug, Clone, Copy, PartialEq, Eq, Structural)]
pub struct SubscriberHistory {
    pub max_samples: usize,
    pub query_timeout_ms: u64,
    /// Whether missed samples are asked for after a heartbeat.
    pub recovery: bool,
}

/// What a publisher of this quality adds to an ordinary one.
pub open spec fn publisher_cache(qos: QosProfile) -> Option<PublisherCache> {
    if qos.durability == QosDurability::TransientLocal {
        Some(
            PublisherCache {
                max_samples: cache_depth(qos.history),
                heartbeat_ms: if qos.reliability == QosReliability::Reliable {
                    Some(SAMPLE_MISS_HEARTBEAT_PERIOD_MS)
                } else {
                    None
                },
            },
        )
    } else {
        None
    }
}

/// What a publisher of this quality adds to an ordinary one.
pub fn apply_transient_local_pub(qos: &QosProfile) -> (r: Option<PublisherCache>)
    ensures
        r == publisher_cache(*qos),
{
    match qos.durability {
        QosDurability::Volatile => None,
        QosDurability::TransientLocal => Some(
            PublisherCache {
                max_samples: cache_depth_from_history(qos.history),
                heartbeat_ms: match qos.reliability {
                    QosReliability::Reliable => Some(SAMPLE_MISS_HEARTBEAT_PERIOD_MS),
                    QosReliability::BestEffort => None,
                },
            },
        ),
    }
}

/// What a subscriber of this quality adds to an ordinary one.
pub open spec fn subscriber_history(qos: QosProfile) -> Option<SubscriberHistory> {
    if qos.durability == QosDurability::TransientLocal {
        Some(
            SubscriberHistory {
                max_samples: cache_depth(qos.history),
                query_timeout_ms: TRANSIENT_LOCAL_QUERY_TIMEOUT_MS,
                recovery: qos.reliability == QosReliability::Reliable,
            },
        )
    } else {
        None
    }
}

/// What a subscriber of this quality adds to an ordinary one.
pub fn apply_transient_local_sub(qos: &QosProfile) -> (r: Option<SubscriberHistory>)
    ensures
        r == subscriber_history(*qos),
{
    match qos.durability {
        QosDurability::Volatile => None,
        QosDurability::TransientLocal => Some(
            SubscriberHistory {
                max_samples: cache_depth_from_history(qos.history),
                query_timeout_ms: TRANSIENT_LOCAL_QUERY_TIMEOUT_MS,
                recovery: match qos.reliability {
                    QosReliability::Reliable => true,
                    QosReliability::BestEffort => false,
                },
            },
        ),
    }
}

/// How many messages a subscriber's queue holds.
pub open spec fn queue_room(history: QosHistory) -> usize {
    match history {
        QosHistory::KeepLast(depth) => depth,
        QosHistory::KeepAll => usize::MAX,
    }
}

/// How many messages a subscriber's queue holds.
pub fn queue_size(history: QosHistory) -> (r: usize)
    ensures
        r == queue_room(history),
{
    match history {
        QosHistory::KeepLast(depth) => depth,
        QosHistory::KeepAll => usize::MAX,
    }
}

/// Why an endpoint cannot be made.
#[derive(Debug, PartialEq, Eq)]
pub enum BuildError {
    PublisherWithoutNode,
    SubscriberWithoutNode,
    Topic(TopicNameError),
}

impl BuildError {
    /// What the error says to the user.
    pub fn message(&self) -> (r: String)
        ensures
            r@ == (match *self {
                BuildError::PublisherWithoutNode => "publisher build requires node identity"@,
                BuildError::SubscriberWithoutNode => "subscriber build requires node identity"@,
                BuildError::Topic(e) => "Failed to qualify topic: "@ + message_of(e@),
            }),
    {
        match self {
            BuildError::PublisherWithoutNode => "publisher build requires node identity".to_owned(),
            BuildError::SubscriberWithoutNode =>
                "subscriber build requires node identity".to_owned(),
            BuildError::Topic(e) => join2("Failed to qualify topic: ", &e.message()),
        }
    }
}

/// `entity` with its topic qualified by the node that it belongs to, where that
/// can be done.
pub open spec fn settled(
    entity: EndpointEntity,
    orphan: BuildError,
    r: Result<EndpointEntity, BuildError>,
) -> bool {
    match entity.node {
        None => r == Err::<EndpointEntity, BuildError>(orphan),
        Some(node) => match qualified(entity.topic@, node.namespace@, node.name@) {
            Ok(topic) => {
                &&& r matches Ok(e)
                &&& e.topic@ == topic
                &&& e == EndpointEntity { topic: e.topic, ..entity }
            },
            Err(view) => r matches Err(BuildError::Topic(e)) && e@ == view,
        },
    }
}

/// Qualifies the topic of an endpoint by the node that it belongs to; `orphan` is
/// the error where there is none.
pub fn settle_topic(entity: EndpointEntity, orphan: BuildError) -> (r: Result<
    EndpointEntity,
    BuildError,
>)
    ensures
        settled(entity, orphan, r),
{
    let topic = match &entity.node {
        None => {
            return Err(orphan);
        },
        Some(node) => match qualify_topic_name(&entity.topic, &node.namespace, &node.name) {
            Ok(topic) => topic,
            Err(e) => {
                return Err(BuildError::Topic(e));
            },
        },
    };
    Ok(EndpointEntity { topic, ..entity })
}

/// Whether `after` is `before` with the type of a schema, where it had none.
pub open spec fn typed_by(
    before: EndpointEntity,
    after: EndpointEntity,
    schema: MessageSchema,
    computed: Option<&str>,
) -> bool {
    if before.type_info is Some {
        after == before
    } else {
        &&& after.type_info matches Some(info)
        &&& info.name@ == dds_type_name(schema@.full_name)
        &&& match computed {
            Some(s) => hash_of(s@, info.hash),
            None => is_zero_hash(info.hash),
        }
        &&& after == EndpointEntity { type_info: after.type_info, ..before }
    }
}

/// Gives an endpoint the type of a schema, where it has none yet.
pub fn with_schema_type(
    entity: EndpointEntity,
    schema: &MessageSchema,
    computed: Option<&str>,
) -> (r: EndpointEntity)
    ensures
        typed_by(entity, r, *schema, computed),
{
    if entity.type_info.is_some() {
        return entity;
    }
    EndpointEntity { type_info: Some(schema_type_info(schema, computed)), ..entity }
}

/// What to do while waiting for endpoints to be matched.
#[derive(Debug, Clone, Copy, PartialEq, Eq, Structural)]
pub enum WaitStep {
    /// Enough are there.
    Matched,
    /// The time is over.
    TimedOut,
    /// Sleep until the graph changes, at most this many nanoseconds.
    Sleep(u128),
}

/// Decides whether to go on waiting for `count` endpoints where `matched` are
/// there and `remaining` nanoseconds are left.
pub fn wait_step(matched: usize, count: usize, remaining: u128) -> (r: WaitStep)
    ensures
        r == (if matched >= count {
            WaitStep::Matched
        } else if remaining == 0 {
            WaitStep::TimedOut
        } else {
            WaitStep::Sleep(remaining)
        }),
{
    if matched >= count {
        WaitStep::Matched
    } else if remaining == 0 {
        WaitStep::TimedOut
    } else {
        WaitStep::Sleep(remaining)
    }
}

/// Whether a wait ended well that slept until its time was over, where `matched`
/// endpoints are there then.
pub fn wait_ended(matched: usize, count: usize) -> (r: bool)
    ensures
        r == (matched >= count),
{
    matched >= count
}

/// A durable endpoint caches as many samples as its history says, 42 where that is
/// unlimited or says none; a publisher and a subscriber of the same quality cache
/// alike, and one has a heartbeat where the other looks for missed samples.
pub proof fn durable_endpoints_cache_their_history(qos: QosProfile)
    ensures
        publisher_cache(qos) is Some <==> qos.durability is TransientLocal,
        subscriber_history(qos) is Some <==> qos.durability is TransientLocal,
        publisher_cache(qos) matches Some(p) ==> {
            &&& subscriber_history(qos) matches Some(s) && p.max_samples == s.max_samples
                && s.recovery == (p.heartbeat_ms is Some) && s.query_timeout_ms
                == 0xffff_ffff_ffff_ffff
            &&& p.max_samples == (match qos.history {
                QosHistory::KeepLast(n) if n > 0 => n,
                _ => 42,
            })
            &&& p.heartbeat_ms == (match qos.reliability {
                QosReliability::Reliable => Some(500u64),
                QosReliability::BestEffort => None,
            })
        },
{
}

/// A queue keeps as many messages as the history says, and where the history is
/// unlimited drops none.
pub proof fn queues_keep_the_history<T>(items: Seq<T>, item: T, depth: usize)
    requires
        depth > 0,
    ensures
        crate::queue::pushed(items, queue_room(QosHistory::KeepLast(depth)), item) == (
        if items.len() >= depth {
            items.skip(1)
        } else {
            items
        }).push(item),
        items.len() < usize::MAX ==> crate::queue::pushed(
            items,
            queue_room(QosHistory::KeepAll),
            item,
        ) == items.push(item),
{
}

/// An endpoint has the topic that the names of its node make of it, and is
/// otherwise as it was asked for; without a node there is none.
pub proof fn endpoints_are_settled_by_their_node(
    entity: EndpointEntity,
    orphan: BuildError,
    r: Result<EndpointEntity, BuildError>,
)
    requires
        settled(entity, orphan, r),
    ensures
        r is Ok <==> (entity.node matches Some(n) && qualified(
            entity.topic@,
            n.namespace@,
            n.name@,
        ) is Ok),
        r matches Ok(e) ==> {
            &&& entity.node matches Some(n) && qualified(entity.topic@, n.namespace@, n.name@)
                == Ok::<Seq<char>, crate::topic_name::NameErrorView>(e.topic@)
            &&& e.id == entity.id
            &&& e.node == entity.node
            &&& e.kind == entity.kind
            &&& e.type_info == entity.type_info
            &&& e.qos == entity.qos
        },
        entity.node is None ==> r == Err::<EndpointEntity, BuildError>(orphan),
{
}

/// A wait ends well as soon as enough endpoints are there, and badly where the time
/// is over before that.
pub proof fn waits_end_when_enough_are_there(
    matched: usize,
    count: usize,
    remaining: u128,
    step: WaitStep,
    well: bool,
)
    ensures
        call_ensures(wait_step, (matched, count, remaining), step) ==> {
            &&& step is Matched <==> matched >= count
            &&& step is TimedOut <==> matched < count && remaining == 0
            &&& step matches WaitStep::Sleep(t) ==> t == remaining && t > 0
        },
        call_ensures(wait_ended, (matched, count), well) ==> (well <==> matched >= count),
{
}

/// An endpoint is made just where its topic can be qualified by its node, and is
/// told why where it cannot; nothing but the topic is changed.
pub proof fn topics_are_qualified_by_their_node(
    entity: EndpointEntity,
    orphan: BuildError,
    node: NodeEntity,
    r: Result<EndpointEntity, BuildError>,
)
    requires
        entity.node == Some(node),
        call_ensures(settle_topic, (entity, orphan), r),
    ensures
        match qualified(entity.topic@, node.namespace@, node.name@) {
            Ok(topic) => r matches Ok(e) && e.topic@ == topic && e.qos == entity.qos && e.kind
                == entity.kind && e.type_info == entity.type_info && e.node == entity.node,
            Err(view) => r matches Err(e) && (e matches BuildError::Topic(why) && why@ == view),
        },
{
}

} // verus!
