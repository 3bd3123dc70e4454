//! Events of publishers and subscriptions.
//!
//! A change of status owes its callback a notification. Callbacks are user code
//! that may call back into the library, so no function here runs one: each
//! returns a [`Notice`], to be delivered when no lock is held.

use crate::entity::{same_gid, EndpointEntity, EndpointKind, Entity, GidArray};
use crate::shared::{same_arc, share};
use crate::text::same_text;
use std::sync::Arc;
use vstd::prelude::*;

verus! {

/// The kinds of events.
#[derive(Debug, Clone, Copy, PartialEq, Eq, Hash, Structural)]
pub enum ZenohEventType {
    RequestedQosIncompatible,
    OfferedQosIncompatible,
    MessageLost,
    SubscriptionMatched,
    PublicationMatched,
    SubscriptionIncompatibleType,
    PublisherIncompatibleType,
    OfferedDeadlineMissed,
    RequestedDeadlineMissed,
    LivelinessLost,
    LivelinessChanged,
}

/// How many kinds of events there are.
pub const ZENOH_EVENT_ID_MAX: usize = 11;

/// The number of an event kind.
pub open spec fn event_id(t: ZenohEventType) -> nat {
    match t {
        ZenohEventType::RequestedQosIncompatible => 0,
        ZenohEventType::OfferedQosIncompatible => 1,
        ZenohEventType::MessageLost => 2,
        ZenohEventType::SubscriptionMatched => 3,
        ZenohEventType::PublicationMatched => 4,
        ZenohEventType::SubscriptionIncompatibleType => 5,
        ZenohEventType::PublisherIncompatibleType => 6,
        ZenohEventType::OfferedDeadlineMissed => 7,
        ZenohEventType::RequestedDeadlineMissed => 8,
        ZenohEventType::LivelinessLost => 9,
        ZenohEventType::LivelinessChanged => 10,
    }
}

impl ZenohEventType {
    /// The number of this event kind.
    pub fn id(self) -> (r: usize)
        ensures
            r == event_id(self),
            r < ZENOH_EVENT_ID_MAX,
    {
        match self {
            ZenohEventType::RequestedQosIncompatible => 0,
            ZenohEventType::OfferedQosIncompatible => 1,
            ZenohEventType::MessageLost => 2,
            ZenohEventType::SubscriptionMatched => 3,
            ZenohEventType::PublicationMatched => 4,
            ZenohEventType::SubscriptionIncompatibleType => 5,
            ZenohEventType::PublisherIncompatibleType => 6,
            ZenohEventType::OfferedDeadlineMissed => 7,
            ZenohEventType::RequestedDeadlineMissed => 8,
            ZenohEventType::LivelinessLost => 9,
            ZenohEventType::LivelinessChanged => 10,
        }
    }
}

/// Event kinds with the same number are the same.
pub proof fn event_ids_differ(a: ZenohEventType, b: ZenohEventType)
    ensures
        event_id(a) == event_id(b) <==> a == b,
{
}

/// The counters of one event kind.
#[derive(Debug)]
pub struct ZenohEventStatus {
    pub total_count: i32,
    pub total_count_change: i32,
    pub current_count: i32,
    pub current_count_change: i32,
    pub data: String,
    pub changed: bool,
    /// The QoS policy that caused an incompatibility.
    pub last_policy_kind: u32,
}

/// The counters before any event.
pub open spec fn is_initial(s: ZenohEventStatus) -> bool {
    &&& s.total_count == 0
    &&& s.total_count_change == 0
    &&& s.current_count == 0
    &&& s.current_count_change == 0
    &&& s.data@.len() == 0
    &&& !s.changed
    &&& s.last_policy_kind == 0
}

pub open spec fn not_negative(n: int) -> int {
    if n < 0 {
        0
    } else {
        n
    }
}

/// Whether the counters can take a change without leaving the range of an
/// `i32`.
pub open spec fn fits(s: ZenohEventStatus, change: i32) -> bool {
    &&& s.total_count + not_negative(change as int) <= i32::MAX
    &&& s.total_count_change + not_negative(change as int) <= i32::MAX
    &&& i32::MIN <= s.current_count + change <= i32::MAX
    &&& i32::MIN <= s.current_count_change + change <= i32::MAX
}

/// The counters after a change: totals count appearances only, the current
/// count does not go below zero, and a policy of zero leaves the last one.
pub open spec fn recorded(s: ZenohEventStatus, change: i32, policy_kind: u32) -> ZenohEventStatus {
    ZenohEventStatus {
        total_count: (s.total_count + not_negative(change as int)) as i32,
        total_count_change: (s.total_count_change + not_negative(change as int)) as i32,
        current_count: not_negative(s.current_count + change) as i32,
        current_count_change: (s.current_count_change + change) as i32,
        data: s.data,
        changed: true,
        last_policy_kind: if policy_kind != 0 { policy_kind } else { s.last_policy_kind },
    }
}

/// The counters after they were taken.
pub open spec fn after_take(s: ZenohEventStatus) -> ZenohEventStatus {
    ZenohEventStatus {
        total_count_change: 0,
        current_count_change: 0,
        changed: false,
        ..s
    }
}

/// The counters after a callback took the backlog.
pub open spec fn after_backlog(s: ZenohEventStatus) -> ZenohEventStatus {
    ZenohEventStatus { total_count_change: 0, ..s }
}

fn no_events() -> (r: ZenohEventStatus)
    ensures
        is_initial(r),
{
    ZenohEventStatus {
        total_count: 0,
        total_count_change: 0,
        current_count: 0,
        current_count_change: 0,
        data: String::new(),
        changed: false,
        last_policy_kind: 0,
    }
}

impl Default for ZenohEventStatus {
    fn default() -> (r: Self)
        ensures
            is_initial(r),
    {
        no_events()
    }
}

impl Clone for ZenohEventStatus {
    fn clone(&self) -> (r: Self)
        ensures
            r == *self,
    {
        ZenohEventStatus {
            total_count: self.total_count,
            total_count_change: self.total_count_change,
            current_count: self.current_count,
            current_count_change: self.current_count_change,
            data: self.data.clone(),
            changed: self.changed,
            last_policy_kind: self.last_policy_kind,
        }
    }
}

/// A notification that is owed: `callback` is to be called with `change`.
#[must_use]
#[derive(Debug)]
pub struct Notice<C> {
    pub callback: Arc<C>,
    pub change: i32,
}

/// Event state of one publisher or subscription.
#[derive(Debug)]
pub struct EventsManager<C> {
    pub event_statuses: Vec<ZenohEventStatus>,
    pub event_callbacks: Vec<Option<Arc<C>>>,
    pub entity_gid: GidArray,
}

impl<C> EventsManager<C> {
    /// Whether there is a status and a place for a callback for each event kind.
    pub open spec fn wf(&self) -> bool {
        &&& self.event_statuses@.len() == ZENOH_EVENT_ID_MAX
        &&& self.event_callbacks@.len() == ZENOH_EVENT_ID_MAX
    }

    /// The counters of event kind `t`.
    pub open spec fn status(&self, t: ZenohEventType) -> ZenohEventStatus {
        self.event_statuses@[event_id(t) as int]
    }

    /// The callback of event kind `t`.
    pub open spec fn callback(&self, t: ZenohEventType) -> Option<Arc<C>> {
        self.event_callbacks@[event_id(t) as int]
    }

    /// Whether `after` is this manager with another status for `t`.
    pub open spec fn with_status(
        &self,
        after: &Self,
        t: ZenohEventType,
        s: ZenohEventStatus,
    ) -> bool {
        &&& after.event_statuses@ == self.event_statuses@.update(event_id(t) as int, s)
        &&& after.event_callbacks@ == self.event_callbacks@
        &&& after.entity_gid == self.entity_gid
    }

    /// A manager without events and callbacks.
    pub fn new(entity_gid: GidArray) -> (r: Self)
        ensures
            r.wf(),
            forall|t: ZenohEventType| is_initial(#[trigger] r.status(t)),
            forall|t: ZenohEventType| (#[trigger] r.callback(t)) is None,
            r.entity_gid == entity_gid,
    {
        let mut event_statuses: Vec<ZenohEventStatus> = Vec::new();
        let mut event_callbacks: Vec<Option<Arc<C>>> = Vec::new();
        let mut i: usize = 0;
        while i < ZENOH_EVENT_ID_MAX
            invariant
                i <= ZENOH_EVENT_ID_MAX,
                event_statuses@.len() == i,
                event_callbacks@.len() == i,
                forall|j: int| 0 <= j < i ==> is_initial(#[trigger] event_statuses@[j]),
                forall|j: int| 0 <= j < i ==> (#[trigger] event_callbacks@[j]) is None,
            decreases ZENOH_EVENT_ID_MAX - i,
        {
            event_statuses.push(no_events());
            event_callbacks.push(None);
            i = i + 1;
        }
        EventsManager { event_statuses, event_callbacks, entity_gid }
    }

    /// Installs a callback and takes the events that nobody was told of; the
    /// callback is owed their number, if there are any.
    pub fn set_callback(&mut self, event_type: ZenohEventType, callback: Arc<C>) -> (r: Option<
        Notice<C>,
    >)
        requires
            old(self).wf(),
        ensures
            final(self).wf(),
            final(self).event_statuses@ == old(self).event_statuses@.update(
                event_id(event_type) as int,
                after_backlog(old(self).status(event_type)),
            ),
            final(self).event_callbacks@ == old(self).event_callbacks@.update(
                event_id(event_type) as int,
                Some(callback),
            ),
            final(self).entity_gid == old(self).entity_gid,
            r == (if old(self).status(event_type).total_count_change != 0 {
                Some(
                    Notice {
                        callback,
                        change: old(self).status(event_type).total_count_change,
                    },
                )
            } else {
                None
            }),
    {
        let unread: i32 = self.install_callback(event_type, share(&callback));
        if unread != 0 {
            Some(Notice { callback, change: unread })
        } else {
            None
        }
    }

    /// Installs a callback and takes the number of events that nobody was told
    /// of.
    pub fn install_callback(&mut self, event_type: ZenohEventType, callback: Arc<C>) -> (r: i32)
        requires
            old(self).wf(),
        ensures
            final(self).wf(),
            final(self).event_statuses@ == old(self).event_statuses@.update(
                event_id(event_type) as int,
                after_backlog(old(self).status(event_type)),
            ),
            final(self).event_callbacks@ == old(self).event_callbacks@.update(
                event_id(event_type) as int,
                Some(callback),
            ),
            final(self).entity_gid == old(self).entity_gid,
            r == old(self).status(event_type).total_count_change,
    {
        let id: usize = event_type.id();
        let status = &mut self.event_statuses[id];
        let unread: i32 = status.total_count_change;
        if unread != 0 {
            status.total_count_change = 0;
        }
        self.event_callbacks.set(id, Some(callback));
        assert(self.event_statuses@ =~= old(self).event_statuses@.update(
            id as int,
            after_backlog(old(self).status(event_type)),
        ));
        unread
    }

    /// Records a change; the callback, if there is one, is owed the change.
    pub fn update_event_status(&mut self, event_type: ZenohEventType, change: i32) -> (r: Option<
        Notice<C>,
    >)
        requires
            old(self).wf(),
            fits(old(self).status(event_type), change),
        ensures
            final(self).wf(),
            old(self).with_status(
                final(self),
                event_type,
                recorded(old(self).status(event_type), change, 0),
            ),
            r == (match old(self).callback(event_type) {
                Some(callback) => Some(Notice { callback, change }),
                None => None,
            }),
    {
        self.update_event_status_with_policy(event_type, change, 0)
    }

    /// Records a change that a QoS policy caused; the callback, if there is one,
    /// is owed the change.
    pub fn update_event_status_with_policy(
        &mut self,
        event_type: ZenohEventType,
        change: i32,
        policy_kind: u32,
    ) -> (r: Option<Notice<C>>)
        requires
            old(self).wf(),
            fits(old(self).status(event_type), change),
        ensures
            final(self).wf(),
            old(self).with_status(
                final(self),
                event_type,
                recorded(old(self).status(event_type), change, policy_kind),
            ),
            r == (match old(self).callback(event_type) {
                Some(callback) => Some(Notice { callback, change }),
                None => None,
            }),
    {
        match self.record_event_status_with_policy(event_type, change, policy_kind) {
            Some(callback) => Some(Notice { callback, change }),
            None => None,
        }
    }

    /// Records a change and returns the callback of its event kind.
    pub fn record_event_status_with_policy(
        &mut self,
        event_type: ZenohEventType,
        change: i32,
        policy_kind: u32,
    ) -> (r: Option<Arc<C>>)
        requires
            old(self).wf(),
            fits(old(self).status(event_type), change),
        ensures
            final(self).wf(),
            old(self).with_status(
                final(self),
                event_type,
                recorded(old(self).status(event_type), change, policy_kind),
            ),
            r == old(self).callback(event_type),
    {
        let id: usize = event_type.id();
        let added: i32 = if change > 0 { change } else { 0 };
        let status = &mut self.event_statuses[id];
        status.total_count = status.total_count + added;
        status.total_count_change = status.total_count_change + added;
        let current: i32 = status.current_count + change;
        status.current_count = if current > 0 { current } else { 0 };
        status.current_count_change = status.current_count_change + change;
        status.changed = true;
        if policy_kind != 0 {
            status.last_policy_kind = policy_kind;
        }
        assert(self.event_statuses@ =~= old(self).event_statuses@.update(
            id as int,
            recorded(old(self).status(event_type), change, policy_kind),
        ));
        match &self.event_callbacks[id] {
            Some(callback) => Some(share(callback)),
            None => None,
        }
    }

    /// Takes the counters of an event kind; the changes start again at zero.
    pub fn take_event_status(&mut self, event_type: ZenohEventType) -> (r: ZenohEventStatus)
        requires
            old(self).wf(),
        ensures
            final(self).wf(),
            r == old(self).status(event_type),
            old(self).with_status(
                final(self),
                event_type,
                after_take(old(self).status(event_type)),
            ),
    {
        let id: usize = event_type.id();
        let taken: ZenohEventStatus = self.event_statuses[id].clone();
        let status = &mut self.event_statuses[id];
        status.current_count_change = 0;
        status.total_count_change = 0;
        status.changed = false;
        assert(self.event_statuses@ =~= old(self).event_statuses@.update(
            id as int,
            after_take(old(self).status(event_type)),
        ));
        taken
    }

    /// The entity whose events these are.
    pub fn entity_gid(&self) -> (r: &GidArray)
        ensures
            *r == self.entity_gid,
    {
        &self.entity_gid
    }
}

/// Events of one kind leave the counters and callbacks of the others alone.
pub proof fn event_kinds_are_independent<C>(
    before: &EventsManager<C>,
    after: &EventsManager<C>,
    t: ZenohEventType,
    s: ZenohEventStatus,
    other: ZenohEventType,
)
    requires
        before.wf(),
        before.with_status(after, t, s),
        other != t,
    ensures
        after.status(t) == s,
        after.status(other) == before.status(other),
        after.callback(other) == before.callback(other),
{
    event_ids_differ(t, other);
}

/// A status that was taken shows no change, and its totals persist.
pub proof fn taken_status_shows_no_change(s: ZenohEventStatus)
    ensures
        !after_take(s).changed,
        after_take(s).total_count_change == 0,
        after_take(s).current_count_change == 0,
        after_take(s).total_count == s.total_count,
        after_take(s).current_count == s.current_count,
        after_take(after_take(s)) == after_take(s),
{
}

/// The total never shrinks, and the current count is never negative.
pub proof fn counters_stay_in_bounds(s: ZenohEventStatus, change: i32, policy_kind: u32)
    requires
        fits(s, change),
    ensures
        recorded(s, change, policy_kind).total_count >= s.total_count,
        recorded(s, change, policy_kind).current_count >= 0,
{
}

/// What one entity registered.
#[derive(Debug)]
pub struct EntityEvents<C> {
    pub gid: GidArray,
    pub topic: String,
    pub callbacks: Vec<Option<Arc<C>>>,
}

/// A guard condition that is triggered on every change of the graph.
///
/// It is triggered with no lock held, possibly after the handle that it belongs
/// to is gone, so registrations are owned.
pub trait GraphGuardCondition {
    /// Wakes whatever waits on this guard condition.
    fn trigger(&self);
}

/// The events of all entities of a process, by entity and by topic.
#[derive(Debug)]
pub struct GraphEventManager<C, G> {
    pub entities: Vec<EntityEvents<C>>,
    pub guard_conditions: Vec<Arc<G>>,
}

/// What a change of the graph owes: every guard condition is triggered, and
/// then each notice is delivered.
#[must_use]
#[derive(Debug)]
pub struct GraphNotices<C, G> {
    pub guard_conditions: Vec<Arc<G>>,
    pub notices: Vec<Notice<C>>,
}

/// The index of the entry of `gid`, or the number of entries.
pub open spec fn entity_index<C>(es: Seq<EntityEvents<C>>, gid: Seq<u8>) -> nat
    decreases es.len(),
{
    if es.len() == 0 || es[0].gid@ == gid {
        0
    } else {
        1 + entity_index(es.skip(1), gid)
    }
}

/// Which callbacks of event kind `t` the entities on `topic` have, in order.
pub open spec fn callbacks_on<C>(
    es: Seq<EntityEvents<C>>,
    topic: Seq<char>,
    t: ZenohEventType,
) -> Seq<Arc<C>>
    decreases es.len(),
{
    if es.len() == 0 {
        Seq::empty()
    } else {
        let before = callbacks_on(es.drop_last(), topic, t);
        let e = es.last();
        match e.callbacks@[event_id(t) as int] {
            Some(c) => if e.topic@ == topic {
                before.push(c)
            } else {
                before
            },
            None => before,
        }
    }
}

/// The event kind that the peers of an endpoint see when it comes or goes.
pub open spec fn matched_event(kind: EndpointKind) -> Option<ZenohEventType> {
    match kind {
        EndpointKind::Publisher => Some(ZenohEventType::SubscriptionMatched),
        EndpointKind::Subscription => Some(ZenohEventType::PublicationMatched),
        EndpointKind::Service => None,
        EndpointKind::Client => None,
    }
}

/// The callbacks that a change of `entity` notifies.
pub open spec fn notified<C>(es: Seq<EntityEvents<C>>, entity: Entity) -> Seq<Arc<C>> {
    match entity {
        Entity::Node(_) => Seq::empty(),
        Entity::Endpoint(e) => match matched_event(e.kind) {
            Some(t) => callbacks_on(es, e.topic@, t),
            None => Seq::empty(),
        },
    }
}

/// The guard conditions among the first `n` that are not marked.
pub open spec fn unmarked<G>(gs: Seq<Arc<G>>, marks: Seq<bool>, n: nat) -> Seq<Arc<G>>
    decreases n,
{
    if n == 0 || n > gs.len() {
        Seq::empty()
    } else if marks[n - 1] {
        unmarked(gs, marks, (n - 1) as nat)
    } else {
        unmarked(gs, marks, (n - 1) as nat).push(gs[n - 1])
    }
}

/// Whether asking of each guard condition whether it is the very one given can
/// give these answers.
pub closed spec fn identified<G>(gs: Seq<Arc<G>>, given: Arc<G>, answers: Seq<bool>) -> bool {
    &&& answers.len() == gs.len()
    &&& forall|i: int|
        0 <= i < gs.len() ==> call_ensures(
            same_arc::<G>,
            (&gs[i], &given),
            #[trigger] answers[i],
        )
}

/// The change that a callback is told: for an incompatible QoS, with the policy
/// in the upper half.
pub open spec fn told_change(t: ZenohEventType, change: i32, policy_kind: u32) -> i32 {
    if policy_kind != 0 && (t == ZenohEventType::RequestedQosIncompatible || t
        == ZenohEventType::OfferedQosIncompatible) {
        ((policy_kind as i32) << 16) | (change & 0xFFFF)
    } else {
        change
    }
}

/// Policy and change can be told apart again, as far as each fits in sixteen
/// bits.
pub proof fn told_change_keeps_both(t: ZenohEventType, change: i32, policy_kind: u32)
    requires
        t == ZenohEventType::RequestedQosIncompatible || t
            == ZenohEventType::OfferedQosIncompatible,
        0 < policy_kind < 0x8000,
        0 <= change < 0x1_0000,
    ensures
        told_change(t, change, policy_kind) >> 16 == policy_kind as i32,
        told_change(t, change, policy_kind) & 0xFFFF == change,
{
    let p = policy_kind as i32;
    assert((((p << 16) | (change & 0xFFFF)) >> 16) == p && (((p << 16) | (change & 0xFFFF))
        & 0xFFFF) == change) by (bit_vector)
        requires
            0 < p < 0x8000,
            0 <= change < 0x1_0000,
    ;
}

impl<C, G> GraphEventManager<C, G> {
    /// Whether no entity is entered twice and each entry has a place for every
    /// event kind.
    pub open spec fn wf(&self) -> bool {
        &&& forall|i: int|
            0 <= i < self.entities@.len() ==> (#[trigger] self.entities@[i]).callbacks@.len()
                == ZENOH_EVENT_ID_MAX
        &&& forall|i: int, j: int|
            0 <= i < j < self.entities@.len() ==> (#[trigger] self.entities@[i]).gid@ != (
            #[trigger] self.entities@[j]).gid@
    }

    /// Whether `gid` has an entry.
    pub open spec fn knows(&self, gid: Seq<u8>) -> bool {
        entity_index(self.entities@, gid) < self.entities@.len()
    }

    /// The topic of an entity.
    pub open spec fn topic_of(&self, gid: Seq<u8>) -> Option<Seq<char>> {
        if self.knows(gid) {
            Some(self.entities@[entity_index(self.entities@, gid) as int].topic@)
        } else {
            None
        }
    }

    /// The callback of an entity for event kind `t`.
    pub open spec fn callback_of(&self, gid: Seq<u8>, t: ZenohEventType) -> Option<Arc<C>> {
        if self.knows(gid) {
            self.entities@[entity_index(self.entities@, gid) as int].callbacks@[event_id(
                t,
            ) as int]
        } else {
            None
        }
    }

    /// A manager without registrations.
    pub fn new() -> (r: Self)
        ensures
            r.wf(),
            r.entities@.len() == 0,
            r.guard_conditions@.len() == 0,
    {
        GraphEventManager { entities: Vec::new(), guard_conditions: Vec::new() }
    }

    /// The entry of `gid`.
    fn find(&self, gid: &GidArray) -> (r: Option<usize>)
        ensures
            match r {
                Some(i) => i < self.entities@.len() && i == entity_index(self.entities@, gid@)
                    && self.entities@[i as int].gid@ == gid@,
                None => entity_index(self.entities@, gid@) == self.entities@.len(),
            },
    {
        let ghost es = self.entities@;
        let mut i: usize = 0;
        assert(es.skip(0) =~= es);
        while i < self.entities.len()
            invariant
                i <= self.entities@.len(),
                es == self.entities@,
                entity_index(es, gid@) == i + entity_index(es.skip(i as int), gid@),
            decreases self.entities@.len() - i,
        {
            assert(es.skip(i as int)[0] == es[i as int]);
            if same_gid(&self.entities[i].gid, gid) {
                return Some(i);
            }
            assert(es.skip(i as int).skip(1) =~= es.skip(i + 1));
            i = i + 1;
        }
        None
    }

    /// Registers a callback of an entity for an event kind, and the entity's
    /// topic.
    pub fn register_event_callback(
        &mut self,
        entity_gid: GidArray,
        topic: String,
        event_type: ZenohEventType,
        callback: Arc<C>,
    )
        requires
            old(self).wf(),
        ensures
            final(self).wf(),
            forall|g: Seq<u8>|
                #[trigger] final(self).topic_of(g) == (if g == entity_gid@ {
                    Some(topic@)
                } else {
                    old(self).topic_of(g)
                }),
            forall|g: Seq<u8>, t: ZenohEventType|
                #[trigger] final(self).callback_of(g, t) == (if g == entity_gid@ && t
                    == event_type {
                    Some(callback)
                } else {
                    old(self).callback_of(g, t)
                }),
            final(self).guard_conditions@ == old(self).guard_conditions@,
    {
        let id: usize = event_type.id();
        match self.find(&entity_gid) {
            Some(i) => {
                let entry = &mut self.entities[i];
                entry.callbacks.set(id, Some(callback));
                entry.topic = topic;
                proof {
                    let before = old(self).entities@;
                    let after = self.entities@;
                    assert(forall|j: int|
                        0 <= j < before.len() && j != i ==> #[trigger] after[j] == before[j]);
                    assert(after[i as int].gid == before[i as int].gid);
                    assert forall|g: Seq<u8>| entity_index(after, g) == entity_index(before, g) by {
                        entity_index_by_gid(before, after, g);
                    }
                    assert forall|g: Seq<u8>| #[trigger] self.topic_of(g) == (if g == entity_gid@ {
                        Some(topic@)
                    } else {
                        old(self).topic_of(g)
                    }) by {
                        entity_index_finds(before, g);
                        assert(entity_index(after, g) == entity_index(before, g));
                    }
                    assert forall|g: Seq<u8>, t: ZenohEventType| #[trigger]
                        self.callback_of(g, t) == (if g == entity_gid@ && t == event_type {
                        Some(callback)
                    } else {
                        old(self).callback_of(g, t)
                    }) by {
                        entity_index_finds(before, g);
                        event_ids_differ(t, event_type);
                        assert(entity_index(after, g) == entity_index(before, g));
                    }
                }
            },
            None => {
                let mut callbacks: Vec<Option<Arc<C>>> = Vec::new();
                let mut i: usize = 0;
                while i < ZENOH_EVENT_ID_MAX
                    invariant
                        i <= ZENOH_EVENT_ID_MAX,
                        callbacks@.len() == i,
                        forall|j: int| 0 <= j < i ==> (#[trigger] callbacks@[j]) is None,
                    decreases ZENOH_EVENT_ID_MAX - i,
                {
                    callbacks.push(None);
                    i = i + 1;
                }
                callbacks.set(id, Some(callback));
                let ghost entry = EntityEvents { gid: entity_gid, topic, callbacks };
                self.entities.push(EntityEvents { gid: entity_gid, topic, callbacks });
                proof {
                    let before = old(self).entities@;
                    let after = self.entities@;
                    assert(after =~= before.push(entry));
                    assert forall|i: int, j: int| 0 <= i < j < after.len() implies (
                    #[trigger] after[i]).gid@ != (#[trigger] after[j]).gid@ by {
                        if j == before.len() {
                            entity_index_misses(before, entity_gid@, i);
                        }
                    }
                    assert forall|g: Seq<u8>| #[trigger] self.topic_of(g) == (if g == entity_gid@ {
                        Some(topic@)
                    } else {
                        old(self).topic_of(g)
                    }) by {
                        entity_index_after_push(before, entry, g);
                        entity_index_finds(before, g);
                    }
                    assert forall|g: Seq<u8>, t: ZenohEventType| #[trigger]
                        self.callback_of(g, t) == (if g == entity_gid@ && t == event_type {
                        Some(callback)
                    } else {
                        old(self).callback_of(g, t)
                    }) by {
                        entity_index_after_push(before, entry, g);
                        entity_index_finds(before, g);
                        event_ids_differ(t, event_type);
                    }
                }
            },
        }
    }

    /// Forgets everything that an entity registered.
    pub fn unregister_entity(&mut self, entity_gid: &GidArray)
        requires
            old(self).wf(),
        ensures
            final(self).wf(),
            forall|g: Seq<u8>|
                #[trigger] final(self).topic_of(g) == (if g == entity_gid@ {
                    None
                } else {
                    old(self).topic_of(g)
                }),
            forall|g: Seq<u8>, t: ZenohEventType|
                #[trigger] final(self).callback_of(g, t) == (if g == entity_gid@ {
                    None
                } else {
                    old(self).callback_of(g, t)
                }),
            final(self).guard_conditions@ == old(self).guard_conditions@,
    {
        match self.find(entity_gid) {
            Some(i) => {
                self.entities.remove(i);
                proof {
                    let before = old(self).entities@;
                    let after = self.entities@;
                    assert(after =~= before.remove(i as int));
                    assert forall|g: Seq<u8>| #[trigger] self.topic_of(g) == (if g == entity_gid@ {
                        None
                    } else {
                        old(self).topic_of(g)
                    }) by {
                        entity_index_after_remove(before, i as int, g);
                        entity_index_finds(before, g);
                    }
                    assert forall|g: Seq<u8>, t: ZenohEventType| #[trigger]
                        self.callback_of(g, t) == (if g == entity_gid@ {
                        None
                    } else {
                        old(self).callback_of(g, t)
                    }) by {
                        entity_index_after_remove(before, i as int, g);
                        entity_index_finds(before, g);
                    }
                }
            },
            None => {},
        }
    }

    /// Registers a guard condition.
    pub fn register_graph_guard_condition(&mut self, guard_condition: Arc<G>)
        ensures
            final(self).entities == old(self).entities,
            final(self).guard_conditions@ == old(self).guard_conditions@.push(guard_condition),
    {
        self.guard_conditions.push(guard_condition);
    }

    /// Drops the guard conditions that are marked.
    pub fn drop_guard_conditions(&mut self, marks: &Vec<bool>)
        requires
            marks@.len() == old(self).guard_conditions@.len(),
        ensures
            final(self).entities == old(self).entities,
            final(self).guard_conditions@ == unmarked(
                old(self).guard_conditions@,
                marks@,
                marks@.len(),
            ),
    {
        let mut kept: Vec<Arc<G>> = Vec::new();
        let mut i: usize = 0;
        while i < marks.len()
            invariant
                i <= marks@.len(),
                marks@.len() == self.guard_conditions@.len(),
                *self == *old(self),
                kept@ == unmarked(self.guard_conditions@, marks@, i as nat),
            decreases marks@.len() - i,
        {
            if !marks[i] {
                kept.push(share(&self.guard_conditions[i]));
            }
            i = i + 1;
        }
        self.guard_conditions = kept;
    }

    /// Drops the registrations of this very guard condition. One that merely equals
    /// it stays.
    pub fn unregister_graph_guard_condition(&mut self, guard_condition: &Arc<G>)
        ensures
            final(self).entities == old(self).entities,
            exists|same: Seq<bool>|
                {
                    &&& #[trigger] identified(
                        old(self).guard_conditions@,
                        *guard_condition,
                        same,
                    )
                    &&& forall|i: int|
                        0 <= i < same.len() && #[trigger] same[i] ==> old(
                            self,
                        ).guard_conditions@[i] == *guard_condition
                    &&& final(self).guard_conditions@ == unmarked(
                        old(self).guard_conditions@,
                        same,
                        same.len(),
                    )
                },
    {
        let mut same: Vec<bool> = Vec::new();
        while same.len() < self.guard_conditions.len()
            invariant
                same@.len() <= self.guard_conditions@.len(),
                *self == *old(self),
                forall|i: int|
                    0 <= i < same@.len() ==> call_ensures(
                        same_arc::<G>,
                        (&self.guard_conditions@[i], guard_condition),
                        #[trigger] same@[i],
                    ),
                forall|i: int|
                    0 <= i < same@.len() && #[trigger] same@[i] ==> self.guard_conditions@[i]
                        == *guard_condition,
            decreases self.guard_conditions@.len() - same@.len(),
        {
            let g = &self.guard_conditions[same.len()];
            let answer: bool = same_arc(g, guard_condition);
            assert(call_ensures(same_arc::<G>, (g, guard_condition), answer));
            same.push(answer);
        }
        assert(identified(self.guard_conditions@, *guard_condition, same@));
        self.drop_guard_conditions(&same);
    }

    /// The callback of an entity for an event kind, if any, is owed the change.
    pub fn trigger_event(
        &self,
        entity_gid: &GidArray,
        event_type: ZenohEventType,
        change: i32,
    ) -> (r: Option<Notice<C>>)
        requires
            self.wf(),
        ensures
            r == (match self.callback_of(entity_gid@, event_type) {
                Some(callback) => Some(Notice { callback, change }),
                None => None,
            }),
    {
        self.trigger_event_with_policy(entity_gid, event_type, change, 0)
    }

    /// The callback of an entity for an event kind, if any, is owed the change,
    /// with the policy in its upper half for an incompatible QoS.
    pub fn trigger_event_with_policy(
        &self,
        entity_gid: &GidArray,
        event_type: ZenohEventType,
        change: i32,
        policy_kind: u32,
    ) -> (r: Option<Notice<C>>)
        requires
            self.wf(),
        ensures
            r == (match self.callback_of(entity_gid@, event_type) {
                Some(callback) => Some(
                    Notice { callback, change: told_change(event_type, change, policy_kind) },
                ),
                None => None,
            }),
    {
        let incompatible: bool = match event_type {
            ZenohEventType::RequestedQosIncompatible => true,
            ZenohEventType::OfferedQosIncompatible => true,
            _ => false,
        };
        let told: i32 = if policy_kind != 0 && incompatible {
            ((policy_kind as i32) << 16) | (change & 0xFFFF)
        } else {
            change
        };
        match self.find(entity_gid) {
            Some(i) => match &self.entities[i].callbacks[event_type.id()] {
                Some(callback) => Some(Notice { callback: share(callback), change: told }),
                None => None,
            },
            None => None,
        }
    }

    /// What the appearance or disappearance of an entity owes: all guard
    /// conditions, and the matching callbacks of the entities on its topic.
    pub fn trigger_graph_change(&self, entity: &Entity, appeared: bool) -> (r: GraphNotices<C, G>)
        requires
            self.wf(),
        ensures
            r.guard_conditions@ == self.guard_conditions@,
            r.notices@.len() == notified(self.entities@, *entity).len(),
            forall|i: int|
                0 <= i < r.notices@.len() ==> {
                    &&& (#[trigger] r.notices@[i]).callback == notified(self.entities@, *entity)[i]
                    &&& r.notices@[i].change == (if appeared { 1i32 } else { -1i32 })
                },
    {
        let mut guard_conditions: Vec<Arc<G>> = Vec::new();
        let mut i: usize = 0;
        while i < self.guard_conditions.len()
            invariant
                i <= self.guard_conditions@.len(),
                guard_conditions@ == self.guard_conditions@.take(i as int),
            decreases self.guard_conditions@.len() - i,
        {
            guard_conditions.push(share(&self.guard_conditions[i]));
            i = i + 1;
            assert(guard_conditions@ =~= self.guard_conditions@.take(i as int));
        }
        assert(self.guard_conditions@.take(i as int) =~= self.guard_conditions@);
        let change: i32 = if appeared { 1 } else { -1 };
        let notices: Vec<Notice<C>> = match entity {
            Entity::Node(_) => Vec::new(),
            Entity::Endpoint(endpoint) => match endpoint.kind {
                EndpointKind::Publisher => self.notices_on(
                    &endpoint.topic,
                    ZenohEventType::SubscriptionMatched,
                    change,
                ),
                EndpointKind::Subscription => self.notices_on(
                    &endpoint.topic,
                    ZenohEventType::PublicationMatched,
                    change,
                ),
                EndpointKind::Service => Vec::new(),
                EndpointKind::Client => Vec::new(),
            },
        };
        GraphNotices { guard_conditions, notices }
    }

    /// The notices for the entities on `topic`.
    fn notices_on(&self, topic: &str, event_type: ZenohEventType, change: i32) -> (r: Vec<
        Notice<C>,
    >)
        requires
            self.wf(),
        ensures
            r@.len() == callbacks_on(self.entities@, topic@, event_type).len(),
            forall|i: int|
                0 <= i < r@.len() ==> {
                    &&& (#[trigger] r@[i]).callback == callbacks_on(
                        self.entities@,
                        topic@,
                        event_type,
                    )[i]
                    &&& r@[i].change == change
                },
    {
        let id: usize = event_type.id();
        let mut r: Vec<Notice<C>> = Vec::new();
        let mut i: usize = 0;
        while i < self.entities.len()
            invariant
                self.wf(),
                id == event_id(event_type),
                id < ZENOH_EVENT_ID_MAX,
                i <= self.entities@.len(),
                r@.len() == callbacks_on(
                    self.entities@.take(i as int),
                    topic@,
                    event_type,
                ).len(),
                forall|j: int|
                    0 <= j < r@.len() ==> {
                        &&& (#[trigger] r@[j]).callback == callbacks_on(
                            self.entities@.take(i as int),
                            topic@,
                            event_type,
                        )[j]
                        &&& r@[j].change == change
                    },
            decreases self.entities@.len() - i,
        {
            let entry = &self.entities[i];
            assert(self.entities@.take(i + 1).drop_last() =~= self.entities@.take(i as int));
            match &entry.callbacks[id] {
                Some(callback) => {
                    if same_text(&entry.topic, topic) {
                        r.push(Notice { callback: share(callback), change });
                    }
                },
                None => {},
            }
            i = i + 1;
        }
        assert(self.entities@.take(i as int) =~= self.entities@);
        r
    }
}

impl<C, G> Default for GraphEventManager<C, G> {
    fn default() -> (r: Self)
        ensures
            r.wf(),
            r.entities@.len() == 0,
            r.guard_conditions@.len() == 0,
    {
        GraphEventManager::new()
    }
}

/// Every callback that a change of the graph notifies is that of a registered
/// entity on the topic of the change.
pub proof fn graph_changes_notify_registered_entities_only<C, G>(
    manager: GraphEventManager<C, G>,
    endpoint: EndpointEntity,
    t: ZenohEventType,
    i: int,
)
    requires
        manager.wf(),
        matched_event(endpoint.kind) == Some(t),
        0 <= i < notified(manager.entities@, Entity::Endpoint(endpoint)).len(),
    ensures
        exists|gid: Seq<u8>|
            {
                &&& #[trigger] manager.callback_of(gid, t) == Some(
                    notified(manager.entities@, Entity::Endpoint(endpoint))[i],
                )
                &&& manager.topic_of(gid) == Some(endpoint.topic@)
            },
{
    let es = manager.entities@;
    let k = callback_has_an_entity(es, endpoint.topic@, t, i);
    let gid = es[k].gid@;
    entity_index_finds(es, gid);
    if entity_index(es, gid) > k {
        entity_index_misses(es, gid, k);
    }
    if entity_index(es, gid) < k {
        assert(es[entity_index(es, gid) as int].gid@ != es[k].gid@);
    }
    assert(manager.callback_of(gid, t) == Some(
        notified(es, Entity::Endpoint(endpoint))[i],
    ));
}

/// An entity that is not registered is called by no trigger, and a change of the
/// graph calls others only.
pub proof fn unregistered_entities_are_not_called<C, G>(
    manager: GraphEventManager<C, G>,
    gone: Seq<u8>,
    endpoint: EndpointEntity,
    t: ZenohEventType,
    i: int,
)
    requires
        manager.wf(),
        manager.topic_of(gone) is None,
        matched_event(endpoint.kind) == Some(t),
        0 <= i < notified(manager.entities@, Entity::Endpoint(endpoint)).len(),
    ensures
        forall|kind: ZenohEventType| #[trigger] manager.callback_of(gone, kind) is None,
        exists|gid: Seq<u8>|
            {
                &&& gid != gone
                &&& #[trigger] manager.callback_of(gid, t) == Some(
                    notified(manager.entities@, Entity::Endpoint(endpoint))[i],
                )
            },
{
    graph_changes_notify_registered_entities_only(manager, endpoint, t, i);
}

proof fn callback_has_an_entity<C>(
    es: Seq<EntityEvents<C>>,
    topic: Seq<char>,
    t: ZenohEventType,
    i: int,
) -> (k: int)
    requires
        0 <= i < callbacks_on(es, topic, t).len(),
    ensures
        0 <= k < es.len(),
        es[k].topic@ == topic,
        es[k].callbacks@[event_id(t) as int] == Some(callbacks_on(es, topic, t)[i]),
    decreases es.len(),
{
    let before = callbacks_on(es.drop_last(), topic, t);
    if i < before.len() {
        callback_has_an_entity(es.drop_last(), topic, t, i)
    } else {
        es.len() - 1
    }
}

proof fn entity_index_finds<C>(es: Seq<EntityEvents<C>>, gid: Seq<u8>)
    ensures
        entity_index(es, gid) <= es.len(),
        entity_index(es, gid) < es.len() ==> es[entity_index(es, gid) as int].gid@ == gid,
    decreases es.len(),
{
    if es.len() > 0 && es[0].gid@ != gid {
        entity_index_finds(es.skip(1), gid);
    }
}

proof fn entity_index_misses<C>(es: Seq<EntityEvents<C>>, gid: Seq<u8>, i: int)
    requires
        0 <= i < es.len(),
        i < entity_index(es, gid),
    ensures
        es[i].gid@ != gid,
    decreases es.len(),
{
    if i > 0 {
        entity_index_misses(es.skip(1), gid, i - 1);
    }
}

proof fn entity_index_by_gid<C>(a: Seq<EntityEvents<C>>, b: Seq<EntityEvents<C>>, gid: Seq<u8>)
    requires
        a.len() == b.len(),
        forall|i: int| 0 <= i < a.len() ==> (#[trigger] a[i]).gid == b[i].gid,
    ensures
        entity_index(a, gid) == entity_index(b, gid),
    decreases a.len(),
{
    if a.len() > 0 {
        assert(a[0].gid == b[0].gid);
        entity_index_by_gid(a.skip(1), b.skip(1), gid);
    }
}

proof fn entity_index_after_push<C>(es: Seq<EntityEvents<C>>, e: EntityEvents<C>, gid: Seq<u8>)
    ensures
        entity_index(es.push(e), gid) == (if entity_index(es, gid) < es.len() {
            entity_index(es, gid)
        } else if e.gid@ == gid {
            es.len()
        } else {
            es.len() + 1
        }),
        entity_index(es, gid) <= es.len(),
    decreases es.len(),
{
    if es.len() == 0 {
        assert(entity_index(es.push(e).skip(1), gid) == 0);
        assert(es.push(e)[0] == e);
    } else if es[0].gid@ != gid {
        entity_index_after_push(es.skip(1), e, gid);
        assert(es.push(e).skip(1) =~= es.skip(1).push(e));
    }
}

proof fn entity_index_after_remove<C>(es: Seq<EntityEvents<C>>, i: int, gid: Seq<u8>)
    requires
        0 <= i < es.len(),
        forall|j: int, k: int|
            0 <= j < k < es.len() ==> (#[trigger] es[j]).gid@ != (#[trigger] es[k]).gid@,
    ensures
        entity_index(es.remove(i), gid) == (if gid == es[i].gid@ {
            (es.len() - 1) as nat
        } else if entity_index(es, gid) > i {
            (entity_index(es, gid) - 1) as nat
        } else {
            entity_index(es, gid)
        }),
    decreases es.len(),
{
    let rest = es.skip(1);
    assert(forall|j: int| 0 <= j < rest.len() ==> #[trigger] rest[j] == es[j + 1]);
    entity_index_finds(es, gid);
    if i == 0 {
        assert(es.remove(0) =~= rest);
        if es[0].gid@ == gid {
            entity_index_finds(rest, gid);
            if entity_index(rest, gid) < rest.len() {
                assert(rest[entity_index(rest, gid) as int] == es[entity_index(rest, gid) as int + 1]);
            }
        }
    } else {
        assert(es.remove(i).skip(1) =~= rest.remove(i - 1));
        assert(es.remove(i)[0] == es[0]);
        if es[0].gid@ != gid {
            entity_index_after_remove(rest, i - 1, gid);
        } else {
            assert(es[0].gid@ != es[i].gid@);
        }
    }
}

/// Whether a waiter was woken by an event.
#[derive(Debug)]
pub struct EventWaitData {
    pub triggered: bool,
}

impl EventWaitData {
    pub fn new() -> (r: Self)
        ensures
            !r.triggered,
    {
        EventWaitData { triggered: false }
    }

    pub fn is_triggered(&self) -> (r: bool)
        ensures
            r == self.triggered,
    {
        self.triggered
    }

    pub fn set_triggered(&mut self, triggered: bool)
        ensures
            final(self).triggered == triggered,
    {
        self.triggered = triggered;
    }
}

impl Default for EventWaitData {
    fn default() -> (r: Self)
        ensures
            !r.triggered,
    {
        EventWaitData::new()
    }
}

/// Installs a callback on a manager that others share; the notice is to be
/// delivered once the manager is let go.
pub fn set_shared_callback<C>(
    events_mgr: &mut EventsManager<C>,
    event_type: ZenohEventType,
    callback: Arc<C>,
) -> (r: Option<Notice<C>>)
    requires
        old(events_mgr).wf(),
    ensures
        final(events_mgr).wf(),
        final(events_mgr).event_statuses@ == old(events_mgr).event_statuses@.update(
            event_id(event_type) as int,
            after_backlog(old(events_mgr).status(event_type)),
        ),
        final(events_mgr).event_callbacks@ == old(events_mgr).event_callbacks@.update(
            event_id(event_type) as int,
            Some(callback),
        ),
        final(events_mgr).entity_gid == old(events_mgr).entity_gid,
        r == (if old(events_mgr).status(event_type).total_count_change != 0 {
            Some(
                Notice {
                    callback,
                    change: old(events_mgr).status(event_type).total_count_change,
                },
            )
        } else {
            None
        }),
{
    events_mgr.set_callback(event_type, callback)
}

/// Records a change on a manager that others share.
pub fn update_shared_event_status<C>(
    events_mgr: &mut EventsManager<C>,
    event_type: ZenohEventType,
    change: i32,
) -> (r: Option<Notice<C>>)
    requires
        old(events_mgr).wf(),
        fits(old(events_mgr).status(event_type), change),
    ensures
        final(events_mgr).wf(),
        old(events_mgr).with_status(
            final(events_mgr),
            event_type,
            recorded(old(events_mgr).status(event_type), change, 0),
        ),
        r == (match old(events_mgr).callback(event_type) {
            Some(callback) => Some(Notice { callback, change }),
            None => None,
        }),
{
    update_shared_event_status_with_policy(events_mgr, event_type, change, 0)
}

/// Records a change that a QoS policy caused, on a manager that others share.
pub fn update_shared_event_status_with_policy<C>(
    events_mgr: &mut EventsManager<C>,
    event_type: ZenohEventType,
    change: i32,
    policy_kind: u32,
) -> (r: Option<Notice<C>>)
    requires
        old(events_mgr).wf(),
        fits(old(events_mgr).status(event_type), change),
    ensures
        final(events_mgr).wf(),
        old(events_mgr).with_status(
            final(events_mgr),
            event_type,
            recorded(old(events_mgr).status(event_type), change, policy_kind),
        ),
        r == (match old(events_mgr).callback(event_type) {
            Some(callback) => Some(Notice { callback, change }),
            None => None,
        }),
{
    events_mgr.update_event_status_with_policy(event_type, change, policy_kind)
}

/// A handle to one event kind of a shared manager, which each call is given.
#[derive(Debug)]
pub struct RmEventHandle {
    pub event_type: ZenohEventType,
}

impl RmEventHandle {
    pub fn new(event_type: ZenohEventType) -> (r: Self)
        ensures
            r.event_type == event_type,
    {
        RmEventHandle { event_type }
    }

    /// Takes the counters; the changes start again at zero.
    pub fn take_event<C>(&self, events_mgr: &mut EventsManager<C>) -> (r: ZenohEventStatus)
        requires
            old(events_mgr).wf(),
        ensures
            final(events_mgr).wf(),
            r == old(events_mgr).status(self.event_type),
            old(events_mgr).with_status(
                final(events_mgr),
                self.event_type,
                after_take(old(events_mgr).status(self.event_type)),
            ),
    {
        events_mgr.take_event_status(self.event_type)
    }

    /// Whether there is a change that was not taken.
    pub fn is_ready<C>(&self, events_mgr: &EventsManager<C>) -> (r: bool)
        requires
            events_mgr.wf(),
        ensures
            r == events_mgr.status(self.event_type).changed,
    {
        events_mgr.event_statuses[self.event_type.id()].changed
    }

    /// Installs a callback; it is owed the events that nobody was told of.
    pub fn set_callback<C>(&self, events_mgr: &mut EventsManager<C>, callback: Arc<C>) -> (r:
        Option<Notice<C>>)
        requires
            old(events_mgr).wf(),
        ensures
            final(events_mgr).wf(),
            final(events_mgr).event_statuses@ == old(events_mgr).event_statuses@.update(
                event_id(self.event_type) as int,
                after_backlog(old(events_mgr).status(self.event_type)),
            ),
            final(events_mgr).event_callbacks@ == old(events_mgr).event_callbacks@.update(
                event_id(self.event_type) as int,
                Some(callback),
            ),
            final(events_mgr).entity_gid == old(events_mgr).entity_gid,
            r == (if old(events_mgr).status(self.event_type).total_count_change != 0 {
                Some(
                    Notice {
                        callback,
                        change: old(events_mgr).status(self.event_type).total_count_change,
                    },
                )
            } else {
                None
            }),
    {
        events_mgr.set_callback(self.event_type, callback)
    }
}

/// Whether `c` is what an entity on `topic` registered for event kind `t`.
pub open spec fn registered_on<C, G>(
    manager: GraphEventManager<C, G>,
    topic: Seq<char>,
    t: ZenohEventType,
    c: Arc<C>,
) -> bool {
    exists|gid: Seq<u8>| #[trigger]
        manager.callback_of(gid, t) == Some(c) && manager.topic_of(gid) == Some(topic)
}

/// When a subscription comes or goes, the callbacks that are notified are just
/// those that entities on its topic registered for matched publications; when a
/// publisher does, those for matched subscriptions; and none when a service, a
/// client or a node does.
pub proof fn peers_on_the_topic_are_notified<C, G>(
    manager: GraphEventManager<C, G>,
    entity: Entity,
    c: Arc<C>,
)
    requires
        manager.wf(),
    ensures
        notified(manager.entities@, entity).contains(c) <==> (match entity {
            Entity::Node(_) => false,
            Entity::Endpoint(e) => match e.kind {
                EndpointKind::Subscription => registered_on(
                    manager,
                    e.topic@,
                    ZenohEventType::PublicationMatched,
                    c,
                ),
                EndpointKind::Publisher => registered_on(
                    manager,
                    e.topic@,
                    ZenohEventType::SubscriptionMatched,
                    c,
                ),
                EndpointKind::Service | EndpointKind::Client => false,
            },
        }),
{
    if let Entity::Endpoint(e) = entity {
        callbacks_on_has(manager, e.topic@, ZenohEventType::PublicationMatched, c);
        callbacks_on_has(manager, e.topic@, ZenohEventType::SubscriptionMatched, c);
    }
}

proof fn callbacks_on_has<C, G>(
    manager: GraphEventManager<C, G>,
    topic: Seq<char>,
    t: ZenohEventType,
    c: Arc<C>,
)
    requires
        manager.wf(),
    ensures
        callbacks_on(manager.entities@, topic, t).contains(c) <==> registered_on(
            manager,
            topic,
            t,
            c,
        ),
{
    let es = manager.entities@;
    let all = callbacks_on(es, topic, t);
    if all.contains(c) {
        let i = choose|i: int| 0 <= i < all.len() && all[i] == c;
        let k = callback_has_an_entity(es, topic, t, i);
        let gid = es[k].gid@;
        entity_index_finds(es, gid);
        if entity_index(es, gid) > k {
            entity_index_misses(es, gid, k);
        }
        if entity_index(es, gid) < k {
            assert(es[entity_index(es, gid) as int].gid@ != es[k].gid@);
        }
        assert(manager.callback_of(gid, t) == Some(c));
    }
    if registered_on(manager, topic, t, c) {
        let gid = choose|gid: Seq<u8>| #[trigger]
            manager.callback_of(gid, t) == Some(c) && manager.topic_of(gid) == Some(topic);
        entity_is_called(es, topic, t, entity_index(es, gid) as int);
    }
}

proof fn entity_is_called<C>(
    es: Seq<EntityEvents<C>>,
    topic: Seq<char>,
    t: ZenohEventType,
    k: int,
)
    requires
        0 <= k < es.len(),
        es[k].topic@ == topic,
        es[k].callbacks@[event_id(t) as int] is Some,
    ensures
        callbacks_on(es, topic, t).contains(es[k].callbacks@[event_id(t) as int].unwrap()),
    decreases es.len(),
{
    let c = es[k].callbacks@[event_id(t) as int].unwrap();
    let before = callbacks_on(es.drop_last(), topic, t);
    let after = callbacks_on(es, topic, t);
    if k < es.len() - 1 {
        entity_is_called(es.drop_last(), topic, t, k);
        let i = choose|i: int| 0 <= i < before.len() && before[i] == c;
        assert(after[i] == c);
    } else {
        assert(after[before.len() as int] == c);
    }
}

/// One more entity on the topic is notified once, behind the others, and one on
/// another topic or without a callback not at all.
pub proof fn each_entity_is_notified_once<C>(
    es: Seq<EntityEvents<C>>,
    e: EntityEvents<C>,
    topic: Seq<char>,
    t: ZenohEventType,
)
    ensures
        callbacks_on(es.push(e), topic, t) == (match e.callbacks@[event_id(t) as int] {
            Some(c) if e.topic@ == topic => callbacks_on(es, topic, t).push(c),
            _ => callbacks_on(es, topic, t),
        }),
        callbacks_on(Seq::<EntityEvents<C>>::empty(), topic, t).len() == 0,
{
    assert(es.push(e).drop_last() =~= es);
}

/// The numbers of the event kinds.
pub proof fn event_kinds_have_their_numbers()
    ensures
        event_id(ZenohEventType::RequestedQosIncompatible) == 0,
        event_id(ZenohEventType::OfferedQosIncompatible) == 1,
        event_id(ZenohEventType::MessageLost) == 2,
        event_id(ZenohEventType::SubscriptionMatched) == 3,
        event_id(ZenohEventType::PublicationMatched) == 4,
        event_id(ZenohEventType::SubscriptionIncompatibleType) == 5,
        event_id(ZenohEventType::PublisherIncompatibleType) == 6,
        event_id(ZenohEventType::OfferedDeadlineMissed) == 7,
        event_id(ZenohEventType::RequestedDeadlineMissed) == 8,
        event_id(ZenohEventType::LivelinessLost) == 9,
        event_id(ZenohEventType::LivelinessChanged) == 10,
{
}

/// What comes is counted in the totals and the current count, what goes in the
/// current count only, which stays at zero once it is there; the changes add up,
/// and a policy is remembered until another one is given.
pub proof fn comings_and_goings_are_counted(s: ZenohEventStatus, n: i32, policy_kind: u32)
    requires
        n > 0,
        fits(s, n),
        fits(s, (-n) as i32),
    ensures
        ({
            let come = recorded(s, n, policy_kind);
            let gone = recorded(s, (-n) as i32, policy_kind);
            &&& come.changed && gone.changed
            &&& come.total_count - s.total_count == n
            &&& come.total_count_change - s.total_count_change == n
            &&& gone.total_count == s.total_count
            &&& gone.total_count_change == s.total_count_change
            &&& s.current_count >= 0 ==> come.current_count - s.current_count == n
            &&& s.current_count >= n ==> s.current_count - gone.current_count == n
            &&& s.current_count <= n ==> gone.current_count == 0
            &&& come.current_count_change - s.current_count_change == n
            &&& s.current_count_change - gone.current_count_change == n
            &&& come.data == s.data && gone.data == s.data
            &&& policy_kind > 0 ==> come.last_policy_kind == policy_kind && gone.last_policy_kind
                == policy_kind
            &&& policy_kind == 0 ==> come.last_policy_kind == s.last_policy_kind
                && gone.last_policy_kind == s.last_policy_kind
        }),
        recorded(s, 0, policy_kind).total_count == s.total_count,
        s.current_count >= 0 ==> recorded(s, 0, policy_kind).current_count == s.current_count,
{
}

/// A status without events counts nothing, and one that comes and goes again has
/// been counted once.
pub proof fn what_comes_and_goes_is_counted_once(s: ZenohEventStatus)
    requires
        fits(s, 1),
        s.current_count >= 0,
    ensures
        recorded(recorded(s, 1, 0), -1i32, 0).current_count == s.current_count,
        recorded(recorded(s, 1, 0), -1i32, 0).total_count == s.total_count + 1,
        recorded(recorded(s, 1, 0), -1i32, 0).current_count_change == s.current_count_change,
        is_initial(s) ==> recorded(s, 1, 0).total_count == 1 && recorded(s, 1, 0).current_count == 1,
{
}

/// A callback that is installed is told of the appearances since the last one and
/// takes nothing else away.
pub proof fn the_backlog_is_told_once(s: ZenohEventStatus)
    ensures
        after_backlog(s).total_count_change == 0,
        after_backlog(s).total_count == s.total_count,
        after_backlog(s).current_count == s.current_count,
        after_backlog(s).current_count_change == s.current_count_change,
        after_backlog(s).changed == s.changed,
        after_backlog(s).data == s.data,
        after_backlog(s).last_policy_kind == s.last_policy_kind,
        after_take(s).data == s.data,
        after_take(s).last_policy_kind == s.last_policy_kind,
{
}

/// What a callback is told of an incompatible quality of service is 65536 times the
/// policy and the lower sixteen bits of the change; of anything else, and where no
/// policy is given, the change.
pub proof fn policies_are_told_in_the_upper_half(t: ZenohEventType, change: i32, policy_kind: u32)
    requires
        policy_kind < 0x8000,
    ensures
        ({
            let told = told_change(t, change, policy_kind);
            if (t is RequestedQosIncompatible || t is OfferedQosIncompatible) && policy_kind > 0 {
                told == 0x1_0000 * policy_kind + (change as int) % 0x1_0000
            } else {
                told == change
            }
        }),
{
    let p = policy_kind as i32;
    let low = change & 0xFFFF;
    assert(0 <= change & 0xFFFF <= 0xFFFF) by (bit_vector);
    assert(((p << 16) | (change & 0xFFFF)) == p * 0x1_0000 + (change & 0xFFFF)) by (bit_vector)
        requires
            0 <= p < 0x8000,
    ;
    assert((change - (change & 0xFFFF)) % 0x1_0000 == 0) by (bit_vector);
    assert((change as int) % 0x1_0000 == low);
}

/// Of the guard conditions, those that are marked go and the others stay in their
/// order.
pub proof fn unmarked_guard_conditions_stay<G>(
    gs: Seq<Arc<G>>,
    marks: Seq<bool>,
    g: Arc<G>,
    mark: bool,
)
    requires
        gs.len() == marks.len(),
    ensures
        unmarked(gs.push(g), marks.push(mark), gs.len() + 1) == (if mark {
            unmarked(gs, marks, gs.len())
        } else {
            unmarked(gs, marks, gs.len()).push(g)
        }),
        unmarked(gs, marks, 0).len() == 0,
{
    unmarked_of_longer(gs, marks, g, mark, gs.len());
    assert(gs.push(g)[gs.len() as int] == g);
    assert(((gs.len() + 1) - 1) as nat == gs.len());
}

proof fn unmarked_of_longer<G>(gs: Seq<Arc<G>>, marks: Seq<bool>, g: Arc<G>, mark: bool, n: nat)
    requires
        n <= gs.len(),
        gs.len() == marks.len(),
    ensures
        unmarked(gs.push(g), marks.push(mark), n) == unmarked(gs, marks, n),
    decreases n,
{
    if n > 0 {
        unmarked_of_longer(gs, marks, g, mark, (n - 1) as nat);
    }
}

/// A change of the graph triggers every guard condition and tells, of a subscription
/// that came or went, just the callbacks that entities on its topic registered for
/// matched publications, and of a publisher those for matched subscriptions: one
/// more where it came, one less where it went. Of anything else it tells nobody.
pub proof fn graph_changes_tell_the_peers<C, G>(
    manager: &GraphEventManager<C, G>,
    entity: &Entity,
    appeared: bool,
    r: GraphNotices<C, G>,
    c: Arc<C>,
)
    requires
        call_ensures(
            GraphEventManager::<C, G>::trigger_graph_change,
            (manager, entity, appeared),
            r,
        ),
        manager.wf(),
    ensures
        r.guard_conditions@ == manager.guard_conditions@,
        forall|k: int|
            0 <= k < r.notices@.len() ==> (#[trigger] r.notices@[k]).change == (if appeared {
                1int
            } else {
                -1int
            }),
        (exists|k: int| 0 <= k < r.notices@.len() && (#[trigger] r.notices@[k]).callback == c)
            <==> (match *entity {
            Entity::Endpoint(e) => {
                ||| e.kind is Subscription && registered_on(
                    *manager,
                    e.topic@,
                    ZenohEventType::PublicationMatched,
                    c,
                )
                ||| e.kind is Publisher && registered_on(
                    *manager,
                    e.topic@,
                    ZenohEventType::SubscriptionMatched,
                    c,
                )
            },
            Entity::Node(_) => false,
        }),
{
    peers_on_the_topic_are_notified(*manager, *entity, c);
    let all = notified(manager.entities@, *entity);
    if exists|k: int| 0 <= k < r.notices@.len() && (#[trigger] r.notices@[k]).callback == c {
        let k = choose|k: int|
            0 <= k < r.notices@.len() && (#[trigger] r.notices@[k]).callback == c;
        assert(all[k] == c);
    }
    if all.contains(c) {
        let k = choose|k: int| 0 <= k < all.len() && all[k] == c;
        assert(r.notices@[k].callback == c);
    }
}

/// An event is counted and its callback, if there is one, is told the change; a
/// callback that is set later is told of the appearances that nobody was told of,
/// and once. What is taken is what was counted.
pub proof fn events_are_counted_and_told<C>(
    manager: &mut EventsManager<C>,
    t: ZenohEventType,
    change: i32,
    callback: Arc<C>,
    told: Option<Notice<C>>,
    late: Option<Notice<C>>,
    taken: ZenohEventStatus,
)
    requires
        old(manager).wf(),
        fits(old(manager).status(t), change),
    ensures
        call_ensures(EventsManager::<C>::update_event_status, (manager, t, change), told) ==> {
            &&& told is Some <==> old(manager).callback(t) is Some
            &&& told matches Some(n) ==> n.change == change && Some(n.callback) == old(
                manager,
            ).callback(t)
            &&& change > 0 ==> final(manager).status(t).total_count == old(manager).status(
                t,
            ).total_count + change
            &&& change <= 0 ==> final(manager).status(t).total_count == old(manager).status(
                t,
            ).total_count
            &&& old(manager).status(t).current_count + change >= 0 ==> final(manager).status(
                t,
            ).current_count == old(manager).status(t).current_count + change
            &&& final(manager).status(t).changed
            &&& final(manager).callback(t) == old(manager).callback(t)
        },
        call_ensures(EventsManager::<C>::set_callback, (manager, t, callback), late) ==> {
            &&& late is Some <==> old(manager).status(t).total_count_change != 0
            &&& late matches Some(n) ==> n.change == old(manager).status(t).total_count_change
                && n.callback == callback
            &&& final(manager).callback(t) == Some(callback)
            &&& final(manager).status(t).total_count_change == 0
            &&& final(manager).status(t).total_count == old(manager).status(t).total_count
        },
        call_ensures(EventsManager::<C>::take_event_status, (manager, t), taken) ==> {
            &&& taken == old(manager).status(t)
            &&& !final(manager).status(t).changed
            &&& final(manager).status(t).total_count_change == 0
            &&& final(manager).status(t).current_count_change == 0
            &&& final(manager).status(t).total_count == taken.total_count
            &&& final(manager).status(t).current_count == taken.current_count
        },
{
}

/// A callback that is triggered is that of the entity for this kind of event, and is
/// told the change, with the policy in front where the quality of service does not
/// fit.
pub proof fn triggers_call_the_registered_callback<C, G>(
    manager: &GraphEventManager<C, G>,
    gid: &GidArray,
    t: ZenohEventType,
    change: i32,
    policy_kind: u32,
    r: Option<Notice<C>>,
)
    requires
        call_ensures(
            GraphEventManager::<C, G>::trigger_event_with_policy,
            (manager, gid, t, change, policy_kind),
            r,
        ),
        manager.wf(),
        policy_kind < 0x8000,
    ensures
        r is Some <==> manager.callback_of(gid@, t) is Some,
        r matches Some(n) ==> Some(n.callback) == manager.callback_of(gid@, t) && n.change == (if (
        t is RequestedQosIncompatible || t is OfferedQosIncompatible) && policy_kind > 0 {
            0x1_0000 * policy_kind + (change as int) % 0x1_0000
        } else {
            change as int
        }),
{
    policies_are_told_in_the_upper_half(t, change, policy_kind);
}

} // verus!
