//! Publishers and subscriptions of the middleware interface.

use crate::entity::{Entity, GidArray};
use crate::pubsub::publisher::{Attachment, Memory, PutOptions, PutPlan, ZPub};
use crate::pubsub::subscriber::{RecvError, RecvErrorView, RecvStep, ZSub};
use crate::rmw::RmwRet;
use crate::time::ZTime;
use vstd::prelude::*;

verus! {

/// How many seconds stand for an infinite duration.
pub const RMW_DURATION_INFINITE_SEC: u64 = 2147483647;

#[derive(Debug, Clone, Copy, PartialEq, Eq, Structural)]
pub struct RmwTime {
    pub sec: u64,
    pub nsec: u64,
}

#[derive(Debug, Clone, Copy, PartialEq, Eq, Structural)]
pub enum RmwLiveliness {
    SystemDefault,
    Automatic,
    ManualByNode,
    ManualByTopic,
    Unknown,
    BestAvailable,
}

/// A quality of service as the middleware interface has it. The policies that
/// nothing here changes are numbers.
#[derive(Debug, Clone, Copy, PartialEq, Eq, Structural)]
pub struct RmwQosProfile {
    pub history: u32,
    pub depth: usize,
    pub reliability: u32,
    pub durability: u32,
    pub deadline: RmwTime,
    pub lifespan: RmwTime,
    pub liveliness: RmwLiveliness,
    pub liveliness_lease_duration: RmwTime,
    pub avoid_ros_namespace_conventions: bool,
}

/// A duration, where none given is an infinite one.
pub open spec fn actual_time(t: RmwTime) -> RmwTime {
    if t.sec == 0 && t.nsec == 0 {
        RmwTime { sec: RMW_DURATION_INFINITE_SEC, nsec: 0 }
    } else {
        t
    }
}

/// A liveliness, where none given is the automatic one.
pub open spec fn actual_liveliness(l: RmwLiveliness) -> RmwLiveliness {
    if l == RmwLiveliness::SystemDefault || l == RmwLiveliness::Unknown {
        RmwLiveliness::Automatic
    } else {
        l
    }
}

fn to_actual_time(t: RmwTime) -> (r: RmwTime)
    ensures
        r == actual_time(t),
{
    if t.sec == 0 && t.nsec == 0 {
        RmwTime { sec: RMW_DURATION_INFINITE_SEC, nsec: 0 }
    } else {
        t
    }
}

/// A quality of service with what was left open filled in.
pub open spec fn filled_in(qos: RmwQosProfile) -> RmwQosProfile {
    RmwQosProfile {
        deadline: actual_time(qos.deadline),
        lifespan: actual_time(qos.lifespan),
        liveliness: actual_liveliness(qos.liveliness),
        liveliness_lease_duration: actual_time(qos.liveliness_lease_duration),
        ..qos
    }
}

/// The quality of service that an endpoint has: the one that was asked for, with
/// what was left open filled in.
pub fn actual_qos(qos: RmwQosProfile) -> (r: RmwQosProfile)
    ensures
        r == filled_in(qos),
{
    RmwQosProfile {
        deadline: to_actual_time(qos.deadline),
        lifespan: to_actual_time(qos.lifespan),
        liveliness: match qos.liveliness {
            RmwLiveliness::SystemDefault => RmwLiveliness::Automatic,
            RmwLiveliness::Unknown => RmwLiveliness::Automatic,
            other => other,
        },
        liveliness_lease_duration: to_actual_time(qos.liveliness_lease_duration),
        ..qos
    }
}

/// How many of the first `n` entities are endpoints that match.
pub open spec fn matches_among(entities: Seq<Entity>, compatible: Seq<bool>, n: nat) -> nat
    decreases n,
{
    if n == 0 || n > entities.len() {
        0
    } else {
        matches_among(entities, compatible, (n - 1) as nat) + if entities[n - 1] is Endpoint
            && compatible[n - 1] {
            1nat
        } else {
            0nat
        }
    }
}

/// How many of the entities on a topic are endpoints whose quality of service is
/// compatible.
pub fn count_matched(entities: &Vec<Entity>, compatible: &Vec<bool>) -> (r: usize)
    requires
        compatible@.len() == entities@.len(),
    ensures
        r == matches_among(entities@, compatible@, entities@.len()),
{
    let mut count: usize = 0;
    let mut i: usize = 0;
    while i < entities.len()
        invariant
            i <= entities@.len(),
            count <= i,
            compatible@.len() == entities@.len(),
            count == matches_among(entities@, compatible@, i as nat),
        decreases entities@.len() - i,
    {
        let endpoint: bool = match &entities[i] {
            Entity::Endpoint(_) => true,
            Entity::Node(_) => false,
        };
        if endpoint && compatible[i] {
            count = count + 1;
        }
        i = i + 1;
    }
    count
}

/// A message as it came.
#[derive(Debug)]
pub struct Sample {
    pub payload: Vec<u8>,
    /// What came beside it, where there was something that could be read.
    pub attachment: Option<Attachment>,
}

/// What the interface tells of a message. Times are nanoseconds since the Unix
/// epoch.
#[derive(Debug, Clone, Copy)]
pub struct MessageInfo {
    pub source_timestamp: i64,
    pub received_timestamp: i64,
    pub publication_sequence_number: u64,
    pub reception_sequence_number: u64,
    pub publisher_gid: GidArray,
    pub from_intra_process: bool,
}

/// Whether `info` tells of a message with this attachment, received at a time and
/// under a number. Without an attachment the source is all zeros.
pub open spec fn informs(
    info: MessageInfo,
    attachment: Option<Attachment>,
    received: i64,
    number: u64,
) -> bool {
    &&& match attachment {
        Some(a) => {
            &&& info.source_timestamp == a.source_timestamp.unix_nanos
            &&& info.publication_sequence_number == a.sequence_number as u64
            &&& info.publisher_gid == a.source_gid
        },
        None => {
            &&& info.source_timestamp == 0
            &&& info.publication_sequence_number == 0
            &&& info.publisher_gid@ == Seq::new(16, |i: int| 0u8)
        },
    }
    &&& info.received_timestamp == received
    &&& info.reception_sequence_number == number
    &&& !info.from_intra_process
}

/// What the interface tells of a message.
pub fn message_info(attachment: &Option<Attachment>, received: i64, number: u64) -> (r: MessageInfo)
    ensures
        informs(r, *attachment, received, number),
{
    match attachment {
        Some(a) => MessageInfo {
            source_timestamp: a.source_timestamp.unix_nanos,
            received_timestamp: received,
            publication_sequence_number: a.sequence_number as u64,
            reception_sequence_number: number,
            publisher_gid: a.source_gid,
            from_intra_process: false,
        },
        None => {
            let gid: GidArray = [0u8; 16];
            assert(gid@ =~= Seq::new(16, |i: int| 0u8));
            MessageInfo {
                source_timestamp: 0,
                received_timestamp: received,
                publication_sequence_number: 0,
                reception_sequence_number: number,
                publisher_gid: gid,
                from_intra_process: false,
            }
        },
    }
}

/// Whether a message was taken from a sample, at a time that the clock told, under
/// a number.
pub open spec fn taken_some_time(
    t: TakenMessage,
    sample: Sample,
    informed: bool,
    number: u64,
) -> bool {
    exists|received: i64| #[trigger]
        taken_from(t, sample, informed, received, number) && clock_told(received)
}

/// `std::time::SystemTime`, a moment.
#[verifier::external_type_specification]
#[verifier::external_body]
pub struct ExSystemTime(std::time::SystemTime);

/// `SystemTime::now` of std. Nothing is said of the time.
#[verifier::external_body]
fn this_moment() -> (r: std::time::SystemTime)
{
    std::time::SystemTime::now()
}

/// `SystemTime::duration_since` of std, from the Unix epoch: the time since then,
/// or nothing before it. Nothing more is said of the time.
#[verifier::external_body]
fn since_epoch(t: std::time::SystemTime) -> (r: Option<std::time::Duration>)
{
    t.duration_since(std::time::UNIX_EPOCH).ok()
}

/// `Duration::as_nanos` of std. Nothing is said of the number.
#[verifier::external_body]
fn whole_nanos(d: std::time::Duration) -> (r: u128)
{
    d.as_nanos()
}

/// Whether `r` is a time that the clock can have told: nanoseconds since the Unix
/// epoch, or zero before it.
pub closed spec fn clock_told(r: i64) -> bool {
    exists|t: std::time::SystemTime, since: Option<std::time::Duration>|
        #![trigger call_ensures(since_epoch, (t,), since)]
        {
            &&& call_ensures(this_moment, (), t)
            &&& call_ensures(since_epoch, (t,), since)
            &&& match since {
                Some(d) => exists|n: u128| #[trigger]
                    call_ensures(whole_nanos, (d,), n) && r == n as i64,
                None => r == 0,
            }
        }
}

/// The time in nanoseconds since the Unix epoch, or zero before it.
pub(crate) fn unix_nanos() -> (r: i64)
    ensures
        clock_told(r),
{
    let t = this_moment();
    assert(call_ensures(this_moment, (), t));
    let ghost moment = t;
    let since = since_epoch(t);
    assert(call_ensures(since_epoch, (moment,), since));
    match since {
        Some(d) => {
            let ghost span = d;
            let n: u128 = whole_nanos(d);
            assert(call_ensures(whole_nanos, (span,), n));
            #[verifier::truncate]
            (n as i64)
        },
        None => 0,
    }
}

/// A buffer for encoded messages.
#[derive(Debug)]
pub struct SerializedMessage {
    pub buffer: Vec<u8>,
    pub capacity: usize,
}

/// A subscription.
#[derive(Debug)]
pub struct SubscriptionImpl {
    pub inner: ZSub<Sample>,
    pub qos: RmwQosProfile,
    /// The number of the next message that is taken.
    pub reception_sn: u64,
}

/// The number `k` places after another, which wraps round.
pub open spec fn number_after(n: u64, k: nat) -> u64 {
    ((n + k) % 0x1_0000_0000_0000_0000) as u64
}

/// A message that was taken, with what the interface tells of it where that was
/// asked for.
#[derive(Debug)]
pub struct TakenMessage {
    pub payload: Vec<u8>,
    pub info: Option<MessageInfo>,
}

/// Whether a message was taken from a sample, at a time and under a number.
pub open spec fn taken_from(
    t: TakenMessage,
    sample: Sample,
    informed: bool,
    received: i64,
    number: u64,
) -> bool {
    &&& t.payload == sample.payload
    &&& if informed {
        t.info matches Some(info) && informs(info, sample.attachment, received, number)
    } else {
        t.info is None
    }
}

impl SubscriptionImpl {
    pub open spec fn wf(&self) -> bool {
        self.inner.wf()
    }

    /// Whether `after` is this subscription without its oldest message, which was
    /// taken and counted.
    pub open spec fn took(&self, after: SubscriptionImpl) -> bool {
        &&& self.inner.took_one(after.inner)
        &&& after.qos == self.qos
        &&& after.reception_sn == number_after(self.reception_sn, 1)
    }

    /// Whether `after` holds what this subscription holds.
    pub open spec fn untouched(&self, after: SubscriptionImpl) -> bool {
        &&& self.inner.untouched(after.inner)
        &&& after.qos == self.qos
        &&& after.reception_sn == self.reception_sn
    }

    /// The oldest message, where there is one and a queue that it could be in; it
    /// is counted.
    fn oldest(&mut self) -> (r: Result<Option<Sample>, RecvError>)
        requires
            old(self).wf(),
        ensures
            final(self).wf(),
            match r {
                Ok(Some(s)) => {
                    &&& s == old(self).inner.waiting()[0]
                    &&& old(self).took(*final(self))
                },
                Ok(None) => {
                    &&& old(self).inner.queue is Some
                    &&& old(self).inner.waiting().len() == 0
                    &&& old(self).untouched(*final(self))
                },
                Err(e) => {
                    &&& old(self).inner.queue is None
                    &&& e@ == RecvErrorView::NoQueue
                    &&& old(self).untouched(*final(self))
                },
            },
    {
        match self.inner.recv_serialized() {
            RecvStep::Done(Ok(s)) => {
                self.reception_sn = if self.reception_sn == u64::MAX {
                    0
                } else {
                    self.reception_sn + 1
                };
                Ok(Some(s))
            },
            RecvStep::Wait => Ok(None),
            RecvStep::Done(Err(e)) => Err(e),
        }
    }

    /// Takes the oldest message.
    pub fn take(&mut self) -> (r: Result<Option<Vec<u8>>, RecvError>)
        requires
            old(self).wf(),
        ensures
            final(self).wf(),
            match r {
                Ok(Some(payload)) => {
                    &&& payload == old(self).inner.waiting()[0].payload
                    &&& old(self).took(*final(self))
                },
                Ok(None) => {
                    &&& old(self).inner.queue is Some
                    &&& old(self).inner.waiting().len() == 0
                    &&& old(self).untouched(*final(self))
                },
                Err(e) => {
                    &&& old(self).inner.queue is None
                    &&& e@ == RecvErrorView::NoQueue
                    &&& old(self).untouched(*final(self))
                },
            },
    {
        match self.oldest() {
            Ok(Some(s)) => Ok(Some(s.payload)),
            Ok(None) => Ok(None),
            Err(e) => Err(e),
        }
    }

    /// Takes the oldest message, with what is told of it where that is asked for;
    /// the time is `received`.
    pub fn take_with_info_at(&mut self, informed: bool, received: i64) -> (r: Result<
        Option<TakenMessage>,
        RecvError,
    >)
        requires
            old(self).wf(),
        ensures
            final(self).wf(),
            match r {
                Ok(Some(t)) => {
                    &&& taken_from(
                        t,
                        old(self).inner.waiting()[0],
                        informed,
                        received,
                        old(self).reception_sn,
                    )
                    &&& old(self).took(*final(self))
                },
                Ok(None) => {
                    &&& old(self).inner.queue is Some
                    &&& old(self).inner.waiting().len() == 0
                    &&& old(self).untouched(*final(self))
                },
                Err(e) => {
                    &&& old(self).inner.queue is None
                    &&& e@ == RecvErrorView::NoQueue
                    &&& old(self).untouched(*final(self))
                },
            },
    {
        let number: u64 = self.reception_sn;
        let sample = match self.oldest() {
            Ok(Some(s)) => s,
            Ok(None) => {
                return Ok(None);
            },
            Err(e) => {
                return Err(e);
            },
        };
        if !informed {
            return Ok(Some(TakenMessage { payload: sample.payload, info: None }));
        }
        let info = message_info(&sample.attachment, received, number);
        Ok(Some(TakenMessage { payload: sample.payload, info: Some(info) }))
    }

    /// Takes the oldest message, with what is told of it where that is asked for.
    pub fn take_with_info(&mut self, informed: bool) -> (r: Result<
        Option<TakenMessage>,
        RecvError,
    >)
        requires
            old(self).wf(),
        ensures
            final(self).wf(),
            match r {
                Ok(Some(t)) => {
                    &&& taken_some_time(
                        t,
                        old(self).inner.waiting()[0],
                        informed,
                        old(self).reception_sn,
                    )
                    &&& old(self).took(*final(self))
                },
                Ok(None) => {
                    &&& old(self).inner.queue is Some
                    &&& old(self).inner.waiting().len() == 0
                    &&& old(self).untouched(*final(self))
                },
                Err(e) => {
                    &&& old(self).inner.queue is None
                    &&& e@ == RecvErrorView::NoQueue
                    &&& old(self).untouched(*final(self))
                },
            },
    {
        let received: i64 = unix_nanos();
        self.take_with_info_at(informed, received)
    }

    /// Takes the oldest message into a buffer, which grows to the message where
    /// it is too small; the time is `received`.
    pub fn take_serialized_at(
        &mut self,
        message: &mut SerializedMessage,
        informed: bool,
        received: i64,
    ) -> (r: Result<Option<Option<MessageInfo>>, RecvError>)
        requires
            old(self).wf(),
        ensures
            final(self).wf(),
            match r {
                Ok(Some(info)) => {
                    let sample = old(self).inner.waiting()[0];
                    &&& taken_from(
                        TakenMessage { payload: sample.payload, info },
                        sample,
                        informed,
                        received,
                        old(self).reception_sn,
                    )
                    &&& final(message).buffer == sample.payload
                    &&& final(message).capacity == (if old(message).capacity
                        < sample.payload@.len() {
                        sample.payload@.len() as int
                    } else {
                        old(message).capacity as int
                    })
                    &&& old(self).took(*final(self))
                },
                Ok(None) => {
                    &&& old(self).inner.queue is Some
                    &&& old(self).inner.waiting().len() == 0
                    &&& old(self).untouched(*final(self))
                    &&& *final(message) == *old(message)
                },
                Err(e) => {
                    &&& old(self).inner.queue is None
                    &&& e@ == RecvErrorView::NoQueue
                    &&& old(self).untouched(*final(self))
                    &&& *final(message) == *old(message)
                },
            },
    {
        match self.take_with_info_at(informed, received) {
            Ok(Some(t)) => {
                if message.capacity < t.payload.len() {
                    message.capacity = t.payload.len();
                }
                message.buffer = t.payload;
                Ok(Some(t.info))
            },
            Ok(None) => Ok(None),
            Err(e) => Err(e),
        }
    }

    /// Takes the oldest message into a buffer, which grows to the message where
    /// it is too small.
    pub fn take_serialized(&mut self, message: &mut SerializedMessage, informed: bool) -> (r:
        Result<Option<Option<MessageInfo>>, RecvError>)
        requires
            old(self).wf(),
        ensures
            final(self).wf(),
            match r {
                Ok(Some(info)) => {
                    let sample = old(self).inner.waiting()[0];
                    &&& taken_some_time(
                        TakenMessage { payload: sample.payload, info },
                        sample,
                        informed,
                        old(self).reception_sn,
                    )
                    &&& final(message).buffer == sample.payload
                    &&& final(message).capacity == (if old(message).capacity
                        < sample.payload@.len() {
                        sample.payload@.len() as int
                    } else {
                        old(message).capacity as int
                    })
                    &&& old(self).took(*final(self))
                },
                Ok(None) => {
                    &&& old(self).inner.queue is Some
                    &&& old(self).inner.waiting().len() == 0
                    &&& old(self).untouched(*final(self))
                    &&& *final(message) == *old(message)
                },
                Err(e) => {
                    &&& old(self).inner.queue is None
                    &&& e@ == RecvErrorView::NoQueue
                    &&& old(self).untouched(*final(self))
                    &&& *final(message) == *old(message)
                },
            },
    {
        let received: i64 = unix_nanos();
        self.take_serialized_at(message, informed, received)
    }

    /// Whether `taken` are the oldest messages, as many as asked for or there are,
    /// with what is told of them.
    pub open spec fn takes_in_order(
        &self,
        count: usize,
        taken: Seq<TakenMessage>,
        after: SubscriptionImpl,
    ) -> bool {
        let n = taken.len();
        &&& n <= count
        &&& n <= self.inner.waiting().len()
        &&& forall|i: int|
            0 <= i < n ==> taken_some_time(
                #[trigger] taken[i],
                self.inner.waiting()[i],
                true,
                number_after(self.reception_sn, i as nat),
            )
        &&& after.inner.waiting() == self.inner.waiting().skip(n as int)
        &&& after.reception_sn == number_after(self.reception_sn, n)
        &&& after.qos == self.qos
        &&& after.inner == ZSub { queue: after.inner.queue, ..self.inner }
        &&& match (self.inner.queue, after.inner.queue) {
            (Some(before), Some(q)) => q.capacity == before.capacity,
            (None, None) => true,
            _ => false,
        }
    }

    /// Takes the oldest messages, `count` at most, into sequences of these
    /// capacities.
    pub fn take_sequence(
        &mut self,
        count: usize,
        message_capacity: usize,
        info_capacity: usize,
    ) -> (r: Result<Vec<TakenMessage>, RmwRet>)
        requires
            old(self).wf(),
        ensures
            final(self).wf(),
            match r {
                Ok(taken) => {
                    &&& 0 < count <= message_capacity
                    &&& count <= info_capacity
                    &&& old(self).takes_in_order(count, taken@, *final(self))
                    &&& taken@.len() == count || taken@.len() == old(self).inner.waiting().len()
                },
                Err(ret) => {
                    &&& ret == RmwRet::InvalidArgument
                    &&& count == 0 || count > message_capacity || count > info_capacity
                    &&& *final(self) == *old(self)
                },
            },
    {
        if count == 0 || count > message_capacity || count > info_capacity {
            return Err(RmwRet::InvalidArgument);
        }
        let mut taken: Vec<TakenMessage> = Vec::new();
        assert(self.inner.waiting() =~= old(self).inner.waiting().skip(0));
        while taken.len() < count
            invariant
                self.wf(),
                taken@.len() <= count,
                old(self).takes_in_order(count, taken@, *self),
            ensures
                self.wf(),
                old(self).takes_in_order(count, taken@, *self),
                taken@.len() == count || taken@.len() == old(self).inner.waiting().len(),
            decreases count - taken@.len(),
        {
            let ghost n = taken@.len();
            match self.take_with_info(true) {
                Ok(Some(t)) => {
                    taken.push(t);
                    assert(self.inner.waiting() =~= old(self).inner.waiting().skip(n + 1 as int));
                },
                _ => {
                    break;
                },
            }
        }
        Ok(taken)
    }

    /// Whether messages are waiting.
    pub fn is_ready(&self) -> (r: bool)
        ensures
            r == (self.inner.waiting().len() > 0),
    {
        self.inner.is_ready()
    }

    /// The quality of service that the subscription has.
    pub fn get_actual_qos(&self) -> (r: RmwQosProfile)
        ensures
            r == filled_in(self.qos),
    {
        actual_qos(self.qos)
    }
}

/// A publisher.
#[derive(Debug)]
pub struct PublisherImpl {
    pub inner: ZPub,
    pub qos: RmwQosProfile,
}

impl PublisherImpl {
    /// How a message of about `estimated_size` bytes is put on the wire.
    pub fn publish(&mut self, estimated_size: usize, now: ZTime) -> (r: PutPlan)
        ensures
            old(self).inner.puts(now, r.options, final(self).inner),
            r.memory == (match old(self).inner.shm_threshold {
                Some(threshold) => if estimated_size >= threshold {
                    Memory::Shared
                } else {
                    Memory::Regular
                },
                None => Memory::Regular,
            }),
            final(self).qos == old(self).qos,
    {
        self.inner.publish(estimated_size, now)
    }

    /// What bytes that are encoded already are put on the wire with.
    pub fn publish_serialized_message(&mut self, now: ZTime) -> (r: PutOptions)
        ensures
            old(self).inner.puts(now, r, final(self).inner),
            final(self).qos == old(self).qos,
    {
        self.inner.publish_serialized(now)
    }

    /// The quality of service that the publisher has.
    pub fn get_actual_qos(&self) -> (r: RmwQosProfile)
        ensures
            r == filled_in(self.qos),
    {
        actual_qos(self.qos)
    }
}

/// The quality of service that an endpoint has does not change when it is asked
/// for.
pub proof fn actual_qos_is_final(qos: RmwQosProfile)
    ensures
        filled_in(filled_in(qos)) == filled_in(qos),
{
}

/// What was left open is filled in, a duration by one of 2147483647 seconds and a
/// liveliness by the automatic one; everything else stays as it was asked for.
pub proof fn only_what_was_left_open_is_filled_in(q: RmwQosProfile)
    ensures
        filled_in(q).history == q.history,
        filled_in(q).depth == q.depth,
        filled_in(q).reliability == q.reliability,
        filled_in(q).durability == q.durability,
        filled_in(q).avoid_ros_namespace_conventions == q.avoid_ros_namespace_conventions,
        q.deadline.sec > 0 || q.deadline.nsec > 0 ==> filled_in(q).deadline == q.deadline,
        q.deadline.sec == 0 && q.deadline.nsec == 0 ==> filled_in(q).deadline == (RmwTime {
            sec: 2147483647,
            nsec: 0,
        }),
        q.lifespan.sec > 0 || q.lifespan.nsec > 0 ==> filled_in(q).lifespan == q.lifespan,
        q.lifespan.sec == 0 && q.lifespan.nsec == 0 ==> filled_in(q).lifespan == (RmwTime {
            sec: 2147483647,
            nsec: 0,
        }),
        q.liveliness_lease_duration.sec > 0 || q.liveliness_lease_duration.nsec > 0 ==> filled_in(
            q,
        ).liveliness_lease_duration == q.liveliness_lease_duration,
        q.liveliness_lease_duration.sec == 0 && q.liveliness_lease_duration.nsec == 0 ==> filled_in(
            q,
        ).liveliness_lease_duration == (RmwTime { sec: 2147483647, nsec: 0 }),
        q.liveliness is SystemDefault || q.liveliness is Unknown ==> filled_in(q).liveliness
            is Automatic,
        !(q.liveliness is SystemDefault || q.liveliness is Unknown) ==> filled_in(q).liveliness
            == q.liveliness,
{
}

/// Each endpoint that is compatible counts once, and nodes do not.
pub proof fn compatible_endpoints_count_once(
    entities: Seq<Entity>,
    compatible: Seq<bool>,
    e: Entity,
    ok: bool,
)
    requires
        entities.len() == compatible.len(),
    ensures
        matches_among(entities, compatible, 0) == 0,
        matches_among(entities.push(e), compatible.push(ok), entities.len() + 1) == matches_among(
            entities,
            compatible,
            entities.len(),
        ) + (match e {
            Entity::Endpoint(_) if ok => 1int,
            _ => 0int,
        }),
{
    matches_of_longer(entities, compatible, e, ok, entities.len());
    assert(entities.push(e)[entities.len() as int] == e);
    assert(((entities.len() + 1) - 1) as nat == entities.len());
}

proof fn matches_of_longer(
    entities: Seq<Entity>,
    compatible: Seq<bool>,
    e: Entity,
    ok: bool,
    n: nat,
)
    requires
        entities.len() == compatible.len(),
        n <= entities.len(),
    ensures
        matches_among(entities.push(e), compatible.push(ok), n) == matches_among(
            entities,
            compatible,
            n,
        ),
    decreases n,
{
    if n > 0 {
        matches_of_longer(entities, compatible, e, ok, (n - 1) as nat);
    }
}

/// Numbers go up one by one and begin again behind the greatest.
pub proof fn numbers_go_up_one_by_one(n: u64, a: nat, b: nat)
    ensures
        number_after(n, 0) == n,
        n < u64::MAX ==> number_after(n, 1) == n + 1,
        number_after(u64::MAX, 1) == 0,
        number_after(number_after(n, a), b) == number_after(n, a + b),
{
}

/// What is told of a message is when it was sent, by whom and as which of theirs,
/// when it came and as which of all, and that it came from another process; without
/// an attachment the sender is not known.
pub proof fn messages_tell_where_they_come_from(
    info: MessageInfo,
    attachment: Option<Attachment>,
    received: i64,
    number: u64,
)
    requires
        informs(info, attachment, received, number),
    ensures
        info.received_timestamp == received,
        info.reception_sequence_number == number,
        !info.from_intra_process,
        attachment matches Some(a) ==> {
            &&& info.source_timestamp == a.source_timestamp.unix_nanos
            &&& a.sequence_number >= 0 ==> info.publication_sequence_number == a.sequence_number
            &&& info.publisher_gid@ == a.source_gid@
        },
        attachment is None ==> {
            &&& info.source_timestamp == 0
            &&& info.publication_sequence_number == 0
            &&& forall|k: int| 0 <= k < 16 ==> #[trigger] info.publisher_gid@[k] == 0
        },
{
}

/// Of the messages that are taken together, none is left out and none comes twice,
/// the oldest come first, and they are numbered on.
pub proof fn messages_are_taken_in_order(
    before: SubscriptionImpl,
    count: usize,
    taken: Seq<TakenMessage>,
    after: SubscriptionImpl,
)
    requires
        before.takes_in_order(count, taken, after),
    ensures
        taken.len() + after.inner.waiting().len() == before.inner.waiting().len(),
        taken.len() <= count,
        forall|k: int|
            0 <= k < taken.len() ==> (#[trigger] taken[k]).payload
                == before.inner.waiting()[k].payload && taken[k].info is Some,
        forall|k: int|
            0 <= k < after.inner.waiting().len() ==> #[trigger] after.inner.waiting()[k]
                == before.inner.waiting()[taken.len() + k],
        before.reception_sn + taken.len() <= u64::MAX ==> after.reception_sn == before.reception_sn
            + taken.len(),
{
    assert forall|k: int| 0 <= k < taken.len() implies (#[trigger] taken[k]).payload
        == before.inner.waiting()[k].payload && taken[k].info is Some by {
        assert(taken_some_time(
            taken[k],
            before.inner.waiting()[k],
            true,
            number_after(before.reception_sn, k as nat),
        ));
    }
}

} // verus!
