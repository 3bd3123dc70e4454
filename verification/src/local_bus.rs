//! Delivery of messages inside one process, without encoding them.
//!
//! A publisher and the subscribers of a channel agree on the exact type of a
//! message, by a number that stands for the type. The functions on lists of
//! subscribers are the rules; a [`Channel`] holds such a list so that a publish
//! runs against the list it found, while subscribers come and go.

use crate::shared::{share, strong_count};
use crate::text::same_text;
use arc_swap::ArcSwap;
use std::sync::Arc;
use vstd::prelude::*;

verus! {

/// How deep a chain of publishes from callbacks may go.
pub const MAX_DELIVERY_DEPTH: u32 = 8;

/// How a subscriber takes a message.
#[derive(Debug, Clone, Copy, PartialEq, Eq, Structural)]
pub enum Sink {
    /// By reference; any number may share it.
    Shared,
    /// By value; only a sole subscriber can.
    Owned,
}

/// A subscriber.
#[derive(Debug)]
pub struct Entry<C> {
    pub id: u64,
    /// The number of the message type.
    pub type_key: u64,
    pub sink: Sink,
    pub callback: Arc<C>,
}

/// What one publish on the bus did.
///
/// Where nobody was there a caller may take another way, but not where delivery
/// was refused: the message would come round again.
#[derive(Debug, Clone, Copy, PartialEq, Eq, Structural)]
#[non_exhaustive]
pub enum Delivery {
    /// Handed to this many subscribers.
    Sent(usize),
    /// No subscriber of this type is on the bus.
    NoTaker,
    /// Refused: delivery is nested too deeply.
    DepthExceeded,
}

/// Which ways one publish took, and what the bus did.
#[derive(Debug, Clone, Copy, PartialEq, Eq, Structural)]
#[non_exhaustive]
pub enum Published {
    /// The wire only.
    Wire,
    /// The bus only.
    Bus(Delivery),
    /// The bus for this session and the wire for everyone else.
    BusAndWire(Delivery),
}

/// How deeply deliveries are nested on one thread.
#[derive(Debug)]
pub struct DeliveryDepth {
    pub depth: u32,
}

impl DeliveryDepth {
    pub fn new() -> (r: Self)
        ensures
            r.depth == 0,
    {
        DeliveryDepth { depth: 0 }
    }

    /// Leaves one level.
    pub fn leave(&mut self)
        ensures
            final(self).depth == (if old(self).depth == 0 {
                0
            } else {
                old(self).depth - 1
            }),
    {
        if self.depth > 0 {
            self.depth = self.depth - 1;
        }
    }
}

/// Which subscribers among the first `n` share messages of type `key`, in order.
pub open spec fn takers<C>(entries: Seq<Entry<C>>, key: u64, n: nat) -> Seq<Arc<C>>
    decreases n,
{
    if n == 0 || n > entries.len() {
        Seq::empty()
    } else {
        let before = takers(entries, key, (n - 1) as nat);
        let e = entries[n - 1];
        if e.type_key == key && e.sink == Sink::Shared {
            before.push(e.callback)
        } else {
            before
        }
    }
}

/// How many subscribers among the first `n` take messages of type `key` by
/// value.
pub open spec fn owners<C>(entries: Seq<Entry<C>>, key: u64, n: nat) -> nat
    decreases n,
{
    if n == 0 || n > entries.len() {
        0
    } else {
        owners(entries, key, (n - 1) as nat) + if entries[n - 1].type_key == key && entries[n
            - 1].sink == Sink::Owned {
            1nat
        } else {
            0nat
        }
    }
}

/// How many subscribers among the first `n` take messages of type `key` at all.
pub open spec fn subscribers<C>(entries: Seq<Entry<C>>, key: u64, n: nat) -> nat
    decreases n,
{
    if n == 0 || n > entries.len() {
        0
    } else {
        subscribers(entries, key, (n - 1) as nat) + if entries[n - 1].type_key == key {
            1nat
        } else {
            0nat
        }
    }
}

/// The one who takes messages of type `key` by value, where nobody else takes
/// them.
pub open spec fn sole_owner<C>(entries: Seq<Entry<C>>, key: u64, i: int) -> bool {
    &&& 0 <= i < entries.len()
    &&& entries[i].type_key == key
    &&& entries[i].sink == Sink::Owned
    &&& subscribers(entries, key, entries.len()) == 1
}

/// What a publish is to do.
#[derive(Debug)]
pub enum Plan<C> {
    /// Nothing, with this outcome.
    Done(Delivery),
    /// Call each of these, and then [`settle`].
    Call(Vec<Arc<C>>),
}

/// Whether `r` is what a publish of a message of type `key` to `entries` is to
/// do, where callbacks that are to be called take one level.
pub open spec fn shared_outcome<C>(
    entries: Seq<Entry<C>>,
    key: u64,
    before: u32,
    after: u32,
    r: Plan<C>,
) -> bool {
    if before >= MAX_DELIVERY_DEPTH {
        r == Plan::<C>::Done(Delivery::DepthExceeded) && after == before
    } else if takers(entries, key, entries.len()).len() == 0 {
        r == Plan::<C>::Done(Delivery::NoTaker) && after == before
    } else {
        &&& r matches Plan::Call(callbacks) && callbacks@ == takers(entries, key, entries.len())
        &&& after == before + 1
    }
}

/// Decides a publish of a message of type `key` to a list of subscribers.
pub fn plan_shared<C>(entries: &Vec<Entry<C>>, key: u64, depth: &mut DeliveryDepth) -> (r: Plan<C>)
    ensures
        shared_outcome(entries@, key, old(depth).depth, final(depth).depth, r),
{
    if depth.depth >= MAX_DELIVERY_DEPTH {
        return Plan::Done(Delivery::DepthExceeded);
    }
    let mut callbacks: Vec<Arc<C>> = Vec::new();
    let mut i: usize = 0;
    while i < entries.len()
        invariant
            i <= entries@.len(),
            callbacks@ == takers(entries@, key, i as nat),
        decreases entries@.len() - i,
    {
        let e = &entries[i];
        let shared: bool = match e.sink {
            Sink::Shared => true,
            Sink::Owned => false,
        };
        if e.type_key == key && shared {
            callbacks.push(share(&e.callback));
        }
        i = i + 1;
    }
    if callbacks.len() == 0 {
        return Plan::Done(Delivery::NoTaker);
    }
    depth.depth = depth.depth + 1;
    Plan::Call(callbacks)
}

/// The outcome of a publish of which `completed` callbacks returned normally;
/// the level is left.
pub fn settle(completed: usize, depth: &mut DeliveryDepth) -> (r: Delivery)
    ensures
        r == (if completed == 0 {
            Delivery::NoTaker
        } else {
            Delivery::Sent(completed)
        }),
        final(depth).depth == (if old(depth).depth == 0 {
            0
        } else {
            old(depth).depth - 1
        }),
{
    depth.leave();
    if completed == 0 {
        Delivery::NoTaker
    } else {
        Delivery::Sent(completed)
    }
}

/// What a publish by value is to do.
#[derive(Debug)]
pub enum OwnedPlan<C, T> {
    /// Nothing: nested too deeply. The message is dropped.
    Dropped,
    /// Give the message to this one, and then [`settle`].
    Give(Arc<C>, T),
}

/// Whether `r` is what a publish by value of a message of type `key` to `entries`
/// is to do: the message comes back where nobody takes it by value or somebody
/// else is there too.
pub open spec fn owned_outcome<C, T>(
    entries: Seq<Entry<C>>,
    key: u64,
    payload: T,
    before: u32,
    after: u32,
    r: Result<OwnedPlan<C, T>, T>,
) -> bool {
    match r {
        Err(back) => {
            &&& back == payload
            &&& forall|i: int| !#[trigger] sole_owner(entries, key, i)
            &&& after == before
        },
        Ok(OwnedPlan::Dropped) => {
            &&& exists|i: int| #[trigger] sole_owner(entries, key, i)
            &&& before >= MAX_DELIVERY_DEPTH
            &&& after == before
        },
        Ok(OwnedPlan::Give(callback, given)) => {
            &&& given == payload
            &&& exists|i: int|
                #[trigger] sole_owner(entries, key, i) && entries[i].callback == callback
            &&& before < MAX_DELIVERY_DEPTH
            &&& after == before + 1
        },
    }
}

/// Decides a publish by value of a message of type `key`.
pub fn plan_owned<C, T>(
    entries: &Vec<Entry<C>>,
    key: u64,
    payload: T,
    depth: &mut DeliveryDepth,
) -> (r: Result<OwnedPlan<C, T>, T>)
    ensures
        owned_outcome(entries@, key, payload, old(depth).depth, final(depth).depth, r),
{
    let mut count: usize = 0;
    let mut at: usize = 0;
    let mut i: usize = 0;
    while i < entries.len()
        invariant
            i <= entries@.len(),
            count <= i,
            count == subscribers(entries@, key, i as nat),
            count > 0 ==> at < i && entries@[at as int].type_key == key,
            count == 1 ==> forall|j: int|
                0 <= j < i && j != at ==> (#[trigger] entries@[j]).type_key != key,
            count == 0 ==> forall|j: int| 0 <= j < i ==> (#[trigger] entries@[j]).type_key != key,
        decreases entries@.len() - i,
    {
        if entries[i].type_key == key {
            if count == 0 {
                at = i;
            }
            count = count + 1;
        }
        i = i + 1;
    }
    if count != 1 {
        return Err(payload);
    }
    let owned: bool = match entries[at].sink {
        Sink::Owned => true,
        Sink::Shared => false,
    };
    if !owned {
        assert forall|i: int| !sole_owner(entries@, key, i) by {
            if 0 <= i < entries@.len() && i != at {
                assert(entries@[i].type_key != key);
            }
        }
        return Err(payload);
    }
    assert(sole_owner(entries@, key, at as int));
    if depth.depth >= MAX_DELIVERY_DEPTH {
        return Ok(OwnedPlan::Dropped);
    }
    depth.depth = depth.depth + 1;
    Ok(OwnedPlan::Give(share(&entries[at].callback), payload))
}

/// How many of the list take messages of type `key` by value.
pub fn count_owned<C>(entries: &Vec<Entry<C>>, key: u64) -> (r: usize)
    ensures
        r == owners(entries@, key, entries@.len()),
{
    let mut r: usize = 0;
    let mut i: usize = 0;
    while i < entries.len()
        invariant
            i <= entries@.len(),
            r <= i,
            r == owners(entries@, key, i as nat),
        decreases entries@.len() - i,
    {
        let owned: bool = match entries[i].sink {
            Sink::Owned => true,
            Sink::Shared => false,
        };
        if entries[i].type_key == key && owned {
            r = r + 1;
        }
        i = i + 1;
    }
    r
}

fn copy_entry<C>(e: &Entry<C>) -> (r: Entry<C>)
    ensures
        r == *e,
{
    Entry { id: e.id, type_key: e.type_key, sink: e.sink, callback: share(&e.callback) }
}

/// The list with another subscriber at its end.
pub fn with_entry<C>(entries: &Vec<Entry<C>>, entry: &Entry<C>) -> (r: Vec<Entry<C>>)
    ensures
        r@ == entries@.push(*entry),
{
    let mut r: Vec<Entry<C>> = Vec::new();
    let mut i: usize = 0;
    while i < entries.len()
        invariant
            i <= entries@.len(),
            r@ == entries@.take(i as int),
        decreases entries@.len() - i,
    {
        r.push(copy_entry(&entries[i]));
        i = i + 1;
        assert(r@ =~= entries@.take(i as int));
    }
    r.push(copy_entry(entry));
    assert(r@ =~= entries@.push(*entry));
    r
}

/// The list without the subscribers of number `id`.
pub open spec fn removed<C>(entries: Seq<Entry<C>>, id: u64, n: nat) -> Seq<Entry<C>>
    decreases n,
{
    if n == 0 || n > entries.len() {
        Seq::empty()
    } else if entries[n - 1].id == id {
        removed(entries, id, (n - 1) as nat)
    } else {
        removed(entries, id, (n - 1) as nat).push(entries[n - 1])
    }
}

/// The list without the subscribers of number `id`.
pub fn without_entry<C>(entries: &Vec<Entry<C>>, id: u64) -> (r: Vec<Entry<C>>)
    ensures
        r@ == removed(entries@, id, entries@.len()),
{
    let mut r: Vec<Entry<C>> = Vec::new();
    let mut i: usize = 0;
    while i < entries.len()
        invariant
            i <= entries@.len(),
            r@ == removed(entries@, id, i as nat),
        decreases entries@.len() - i,
    {
        if entries[i].id != id {
            r.push(copy_entry(&entries[i]));
        }
        i = i + 1;
    }
    r
}

/// A subscriber that comes takes messages of its type only.
pub proof fn subscribers_hear_their_type_only<C>(
    entries: Seq<Entry<C>>,
    e: Entry<C>,
    key: u64,
    n: nat,
)
    requires
        n <= entries.len(),
    ensures
        takers(entries.push(e), key, n) == takers(entries, key, n),
        n == entries.len() ==> takers(entries.push(e), key, n + 1) == (if e.type_key == key
            && e.sink == Sink::Shared {
            takers(entries, key, n).push(e.callback)
        } else {
            takers(entries, key, n)
        }),
    decreases n,
{
    if n > 0 {
        subscribers_hear_their_type_only(entries, e, key, (n - 1) as nat);
        assert(entries.push(e)[n - 1] == entries[n - 1]);
    }
    if n == entries.len() {
        let list = entries.push(e);
        assert(list.len() == n + 1);
        assert(list[(n + 1) - 1] == e);
        assert(takers(list, key, ((n + 1) - 1) as nat) == takers(entries, key, n));
        reveal_with_fuel(takers, 2);
    }
}

/// Whether subscriber `i` shares messages of type `key`.
pub open spec fn shares_type<C>(entries: Seq<Entry<C>>, key: u64, i: int) -> bool {
    &&& 0 <= i < entries.len()
    &&& entries[i].type_key == key
    &&& entries[i].sink == Sink::Shared
}

/// Whether `callback` is that of one of the first `n` subscribers, who shares
/// messages of type `key`.
pub open spec fn shares_by<C>(entries: Seq<Entry<C>>, key: u64, n: nat, callback: Arc<C>) -> bool {
    exists|i: int|
        i < n && #[trigger] shares_type(entries, key, i) && entries[i].callback == callback
}

/// A publish calls everyone who shares messages of its type, and nobody else.
pub proof fn a_publish_calls_those_who_share_its_type<C>(
    entries: Seq<Entry<C>>,
    key: u64,
    n: nat,
)
    requires
        n <= entries.len(),
    ensures
        forall|i: int|
            i < n && #[trigger] shares_type(entries, key, i) ==> takers(entries, key, n).contains(
                entries[i].callback,
            ),
        forall|k: int|
            0 <= k < takers(entries, key, n).len() ==> shares_by(
                entries,
                key,
                n,
                #[trigger] takers(entries, key, n)[k],
            ),
    decreases n,
{
    if n > 0 {
        let before = takers(entries, key, (n - 1) as nat);
        let after = takers(entries, key, n);
        a_publish_calls_those_who_share_its_type(entries, key, (n - 1) as nat);
        assert forall|i: int| i < n && #[trigger] shares_type(entries, key, i) implies after.contains(
            entries[i].callback,
        ) by {
            if i < n - 1 {
                let k = choose|k: int| 0 <= k < before.len() && before[k] == entries[i].callback;
                assert(after[k] == entries[i].callback);
            } else {
                assert(after[before.len() as int] == entries[i].callback);
            }
        }
        assert forall|k: int| 0 <= k < after.len() implies shares_by(
            entries,
            key,
            n,
            #[trigger] after[k],
        ) by {
            if k < before.len() {
                assert(shares_by(entries, key, (n - 1) as nat, before[k]));
                let i = choose|i: int|
                    i < n - 1 && #[trigger] shares_type(entries, key, i) && entries[i].callback
                        == before[k];
                assert(shares_type(entries, key, i));
            } else {
                assert(shares_type(entries, key, n - 1));
            }
        }
    }
}

/// No publish takes the nesting beyond its bound.
pub proof fn nesting_is_bounded<C, T>(
    entries: Seq<Entry<C>>,
    key: u64,
    payload: T,
    before: u32,
    after: u32,
    shared: Plan<C>,
    owned: Result<OwnedPlan<C, T>, T>,
)
    requires
        before <= MAX_DELIVERY_DEPTH,
        shared_outcome(entries, key, before, after, shared) || owned_outcome(
            entries,
            key,
            payload,
            before,
            after,
            owned,
        ),
    ensures
        after <= MAX_DELIVERY_DEPTH,
{
}

/// A subscriber that leaves as it came leaves the list as it was.
pub proof fn leaving_undoes_subscribing<C>(entries: Seq<Entry<C>>, e: Entry<C>)
    requires
        forall|i: int| 0 <= i < entries.len() ==> (#[trigger] entries[i]).id != e.id,
    ensures
        removed(entries.push(e), e.id, entries.len() + 1) == entries,
{
    removed_prefix(entries, e, entries.len());
    assert(entries.push(e)[entries.len() as int] == e);
    assert(entries.take(entries.len() as int) =~= entries);
}

proof fn removed_prefix<C>(entries: Seq<Entry<C>>, e: Entry<C>, n: nat)
    requires
        n <= entries.len(),
        forall|i: int| 0 <= i < entries.len() ==> (#[trigger] entries[i]).id != e.id,
    ensures
        removed(entries.push(e), e.id, n) == entries.take(n as int),
    decreases n,
{
    if n > 0 {
        removed_prefix(entries, e, (n - 1) as nat);
        assert(entries.push(e)[n - 1] == entries[n - 1]);
        assert(entries.take(n - 1).push(entries[n - 1]) =~= entries.take(n as int));
    } else {
        assert(entries.take(0) =~= Seq::<Entry<C>>::empty());
    }
}

/// A list of subscribers that is replaced as a whole, in an `ArcSwap` of
/// arc-swap. Others may replace it at any time, so nothing is said of what it
/// holds.
#[verifier::external_body]
#[verifier::reject_recursive_types(C)]
pub struct EntryCell<C> {
    inner: ArcSwap<Vec<Entry<C>>>,
}

/// `ArcSwap::from_pointee` of arc-swap: a cell that holds this list, until another
/// is put in its place. So nothing is said of the cell but that it was made so.
#[verifier::external_body]
fn cell_of<C>(list: Vec<Entry<C>>) -> (r: EntryCell<C>)
{
    EntryCell { inner: ArcSwap::from_pointee(list) }
}

/// `ArcSwap::load_full` of arc-swap: the list at this moment.
#[verifier::external_body]
fn load<C>(cell: &EntryCell<C>) -> (r: Arc<Vec<Entry<C>>>)
{
    cell.inner.load_full()
}

/// `ArcSwap::rcu` of arc-swap, which replaces the list by one made from it: the
/// one with another subscriber, who is returned. What the list is then is not
/// stated, for others may have replaced it meanwhile.
#[verifier::external_body]
fn add_to<C>(cell: &EntryCell<C>, entry: Entry<C>) -> (r: Entry<C>)
    ensures
        r == entry,
{
    cell.inner.rcu(|current| with_entry(current, &entry));
    entry
}

/// `ArcSwap::rcu` of arc-swap, which replaces the list by one made from it: the
/// one without a subscriber, who is returned. What the list is then is not stated,
/// for others may have replaced it meanwhile.
#[verifier::external_body]
fn remove_from<C>(cell: &EntryCell<C>, entry: Entry<C>) -> (r: Entry<C>)
    ensures
        r == entry,
{
    cell.inner.rcu(|current| without_entry(current, entry.id));
    entry
}

/// The subscribers of one topic in one session.
#[verifier::reject_recursive_types(C)]
pub struct Channel<C> {
    pub entries: EntryCell<C>,
}

impl<C> Channel<C> {
    /// Whether the channel was made with these subscribers, others aside who came
    /// later.
    pub closed spec fn made_with(&self, entries: Seq<Entry<C>>) -> bool {
        exists|list: Vec<Entry<C>>|
            list@ == entries && #[trigger] call_ensures(cell_of::<C>, (list,), self.entries)
    }

    /// Whether these were the subscribers when the channel was asked.
    pub closed spec fn told(&self, entries: Seq<Entry<C>>) -> bool {
        exists|list: Arc<Vec<Entry<C>>>|
            list@ == entries && #[trigger] call_ensures(load::<C>, (&self.entries,), list)
    }

    /// A channel without subscribers.
    pub fn new() -> (r: Self)
        ensures
            r.made_with(Seq::empty()),
    {
        let list: Vec<Entry<C>> = Vec::new();
        let ghost given = list;
        let r = Channel { entries: cell_of(list) };
        assert(given@ =~= Seq::empty());
        assert(call_ensures(cell_of::<C>, (given,), r.entries));
        r
    }

    /// The subscribers of this moment.
    fn now(&self) -> (r: Arc<Vec<Entry<C>>>)
        ensures
            self.told(r@),
    {
        let r = load(&self.entries);
        assert(call_ensures(load::<C>, (&self.entries,), r));
        r
    }

    /// Decides a publish of a message of type `key` against the subscribers of
    /// this moment.
    pub fn publish(&self, key: u64, depth: &mut DeliveryDepth) -> (r: Plan<C>)
        ensures
            exists|entries: Seq<Entry<C>>|
                #[trigger] self.told(entries) && shared_outcome(
                    entries,
                    key,
                    old(depth).depth,
                    final(depth).depth,
                    r,
                ),
    {
        let entries = self.now();
        plan_shared(&*entries, key, depth)
    }

    /// Decides a publish by value against the subscribers of this moment.
    pub fn publish_owned<T>(&self, key: u64, payload: T, depth: &mut DeliveryDepth) -> (r: Result<
        OwnedPlan<C, T>,
        T,
    >)
        ensures
            exists|entries: Seq<Entry<C>>|
                #[trigger] self.told(entries) && owned_outcome(
                    entries,
                    key,
                    payload,
                    old(depth).depth,
                    final(depth).depth,
                    r,
                ),
    {
        let entries = self.now();
        plan_owned(&*entries, key, payload, depth)
    }

    /// How many subscribers take messages of type `key` by value at this moment.
    pub fn owned_receivers(&self, key: u64) -> (r: usize)
        ensures
            exists|entries: Seq<Entry<C>>|
                #[trigger] self.told(entries) && r == owners(entries, key, entries.len()),
    {
        let entries = self.now();
        count_owned(&*entries, key)
    }

    /// How many subscribers there are at this moment.
    pub fn subscriber_count(&self) -> (r: usize)
        ensures
            exists|entries: Seq<Entry<C>>| #[trigger] self.told(entries) && r == entries.len(),
    {
        self.now().len()
    }
}

/// A registered subscriber; it is gone once [`LocalSubscription::unsubscribe`]
/// returns, except for deliveries that are under way.
#[verifier::reject_recursive_types(C)]
pub struct LocalSubscription<C> {
    pub channel: Arc<Channel<C>>,
    pub entry: Entry<C>,
}

impl<C> LocalSubscription<C> {
    /// Whether the subscriber was put on its channel.
    pub closed spec fn added(&self) -> bool {
        call_ensures(add_to::<C>, (&self.channel.entries, self.entry), self.entry)
    }

    /// Whether the subscriber was taken off its channel.
    pub closed spec fn taken_off(&self) -> bool {
        call_ensures(remove_from::<C>, (&self.channel.entries, self.entry), self.entry)
    }

    /// Takes the subscriber off its channel.
    pub fn unsubscribe(self) -> (r: Entry<C>)
        ensures
            r == self.entry,
            self.taken_off(),
    {
        let ghost given = self.entry;
        let r = remove_from(&self.channel.entries, self.entry);
        assert(call_ensures(remove_from::<C>, (&self.channel.entries, given), r));
        r
    }
}

/// Registers a subscriber that shares messages of type `key`.
pub fn subscribe<C>(channel: Arc<Channel<C>>, id: u64, key: u64, callback: Arc<C>) -> (r:
    LocalSubscription<C>)
    ensures
        r.channel == channel,
        r.entry == (Entry { id, type_key: key, sink: Sink::Shared, callback }),
        r.added(),
{
    let entry = add_to(
        &channel.entries,
        Entry { id, type_key: key, sink: Sink::Shared, callback },
    );
    assert(call_ensures(add_to::<C>, (&channel.entries, entry), entry));
    LocalSubscription { channel, entry }
}

/// Registers a subscriber that takes messages of type `key` by value.
pub fn subscribe_owned<C>(channel: Arc<Channel<C>>, id: u64, key: u64, callback: Arc<C>) -> (r:
    LocalSubscription<C>)
    ensures
        r.channel == channel,
        r.entry == (Entry { id, type_key: key, sink: Sink::Owned, callback }),
        r.added(),
{
    let entry = add_to(
        &channel.entries,
        Entry { id, type_key: key, sink: Sink::Owned, callback },
    );
    assert(call_ensures(add_to::<C>, (&channel.entries, entry), entry));
    LocalSubscription { channel, entry }
}

/// A channel of the registry.
#[verifier::reject_recursive_types(C)]
pub struct ChannelEntry<C> {
    /// The session, by the number of its identifier.
    pub zid: u128,
    pub topic: String,
    pub channel: Arc<Channel<C>>,
}

/// All channels, by session and topic.
#[verifier::reject_recursive_types(C)]
pub struct BusRegistry<C> {
    pub channels: Vec<ChannelEntry<C>>,
    /// The number of the next subscriber.
    pub next_id: u64,
}

/// The index of a channel, or the number of channels.
pub open spec fn channel_index<C>(cs: Seq<ChannelEntry<C>>, zid: u128, topic: Seq<char>) -> nat
    decreases cs.len(),
{
    if cs.len() == 0 || cs[0].zid == zid && cs[0].topic@ == topic {
        0
    } else {
        1 + channel_index(cs.skip(1), zid, topic)
    }
}

/// The channels among the first `n` that are to be kept, given how many
/// references to each and how many subscribers of it were seen.
pub open spec fn kept_channels<C>(
    cs: Seq<ChannelEntry<C>>,
    seen: Seq<(usize, usize)>,
    n: nat,
) -> Seq<ChannelEntry<C>>
    decreases n,
{
    if n == 0 || n > cs.len() {
        Seq::empty()
    } else if worth_keeping(seen[n - 1].0, seen[n - 1].1) {
        kept_channels(cs, seen, (n - 1) as nat).push(cs[n - 1])
    } else {
        kept_channels(cs, seen, (n - 1) as nat)
    }
}

/// Whether a channel is to be kept: somebody besides the registry refers to it,
/// or it has subscribers.
pub open spec fn worth_keeping(references: usize, subscribers: usize) -> bool {
    references > 1 || subscribers > 0
}

/// Whether a channel can give this number of references to it and this number of
/// subscribers of it when it is asked.
pub closed spec fn seen_of<C>(channel: Arc<Channel<C>>, seen: (usize, usize)) -> bool {
    &&& call_ensures(strong_count::<Channel<C>>, (&channel,), seen.0)
    &&& exists|entries: Seq<Entry<C>>| #[trigger]
        channel.told(entries) && seen.1 == entries.len()
}

impl<C> BusRegistry<C> {
    /// Whether no channel is entered twice.
    pub open spec fn wf(&self) -> bool {
        forall|i: int, j: int|
            0 <= i < j < self.channels@.len() ==> {
                ||| (#[trigger] self.channels@[i]).zid != (#[trigger] self.channels@[j]).zid
                ||| self.channels@[i].topic@ != self.channels@[j].topic@
            }
    }

    /// A registry without channels.
    pub fn new() -> (r: Self)
        ensures
            r.wf(),
            r.channels@.len() == 0,
            r.next_id == 0,
    {
        BusRegistry { channels: Vec::new(), next_id: 0 }
    }

    /// A number for a new subscriber.
    pub fn fresh_id(&mut self) -> (r: u64)
        ensures
            r == old(self).next_id,
            final(self).next_id == (if old(self).next_id == u64::MAX {
                0
            } else {
                old(self).next_id + 1
            }),
            final(self).channels == old(self).channels,
    {
        let id: u64 = self.next_id;
        self.next_id = if id == u64::MAX { 0 } else { id + 1 };
        id
    }

    fn find(&self, zid: u128, topic: &str) -> (r: Option<usize>)
        ensures
            match r {
                Some(i) => i < self.channels@.len() && i == channel_index(
                    self.channels@,
                    zid,
                    topic@,
                ),
                None => channel_index(self.channels@, zid, topic@) == self.channels@.len(),
            },
    {
        let ghost cs = self.channels@;
        let mut i: usize = 0;
        assert(cs.skip(0) =~= cs);
        while i < self.channels.len()
            invariant
                i <= self.channels@.len(),
                cs == self.channels@,
                channel_index(cs, zid, topic@) == i + channel_index(
                    cs.skip(i as int),
                    zid,
                    topic@,
                ),
            decreases self.channels@.len() - i,
        {
            assert(cs.skip(i as int)[0] == cs[i as int]);
            if self.channels[i].zid == zid && same_text(&self.channels[i].topic, topic) {
                return Some(i);
            }
            assert(cs.skip(i as int).skip(1) =~= cs.skip(i + 1));
            i = i + 1;
        }
        None
    }

    /// Drops the channels that nobody uses, given how many references to each
    /// and how many subscribers of it were seen.
    pub fn sweep(&mut self, seen: &Vec<(usize, usize)>)
        requires
            old(self).wf(),
            seen@.len() == old(self).channels@.len(),
        ensures
            final(self).wf(),
            final(self).channels@ == kept_channels(
                old(self).channels@,
                seen@,
                old(self).channels@.len(),
            ),
            final(self).next_id == old(self).next_id,
    {
        let ghost cs = self.channels@;
        let mut kept: Vec<ChannelEntry<C>> = Vec::new();
        let mut i: usize = 0;
        while i < self.channels.len()
            invariant
                i <= self.channels@.len(),
                cs == self.channels@,
                seen@.len() == cs.len(),
                self.next_id == old(self).next_id,
                old(self).channels@ == cs,
                kept@ == kept_channels(cs, seen@, i as nat),
            decreases self.channels@.len() - i,
        {
            if is_used(seen[i].0, seen[i].1) {
                let c = &self.channels[i];
                kept.push(
                    ChannelEntry {
                        zid: c.zid,
                        topic: c.topic.clone(),
                        channel: share(&c.channel),
                    },
                );
            }
            i = i + 1;
        }
        proof {
            kept_channels_are_channels(cs, seen@, cs.len());
        }
        self.channels = kept;
    }

    /// The channel of a topic in a session. Where there is none yet, channels that
    /// nobody uses are dropped, in every session, and a new one is made.
    pub fn channel(&mut self, zid: u128, topic: &str) -> (r: Arc<Channel<C>>)
        requires
            old(self).wf(),
        ensures
            final(self).wf(),
            final(self).next_id == old(self).next_id,
            ({
                let cs = old(self).channels@;
                let i = channel_index(cs, zid, topic@) as int;
                if i < cs.len() {
                    r == cs[i].channel && final(self).channels@ == cs
                } else {
                    exists|seen: Seq<(usize, usize)>|
                        {
                            &&& seen.len() == cs.len()
                            &&& forall|k: int|
                                0 <= k < cs.len() ==> seen_of(
                                    cs[k].channel,
                                    #[trigger] seen[k],
                                )
                            &&& final(self).channels@.drop_last() == #[trigger] kept_channels(
                                cs,
                                seen,
                                cs.len(),
                            )
                            &&& final(self).channels@.len() > 0
                            &&& final(self).channels@.last().zid == zid
                            &&& final(self).channels@.last().topic@ == topic@
                            &&& final(self).channels@.last().channel == r
                            &&& r.made_with(Seq::empty())
                        }
                }
            }),
    {
        match self.find(zid, topic) {
            Some(i) => {
                return share(&self.channels[i].channel);
            },
            None => {},
        }
        let ghost cs = self.channels@;
        let mut seen: Vec<(usize, usize)> = Vec::new();
        while seen.len() < self.channels.len()
            invariant
                seen@.len() <= self.channels@.len(),
                self.channels@ == cs,
                self.wf(),
                self.next_id == old(self).next_id,
                forall|k: int|
                    0 <= k < seen@.len() ==> seen_of(cs[k].channel, #[trigger] seen@[k]),
            decreases self.channels@.len() - seen@.len(),
        {
            let c = &self.channels[seen.len()].channel;
            let references: usize = strong_count(c);
            assert(call_ensures(strong_count::<Channel<C>>, (c,), references));
            seen.push((references, c.subscriber_count()));
        }
        self.sweep(&seen);
        let channel: Arc<Channel<C>> = Arc::new(Channel::new());
        let ghost kept = self.channels@;
        proof {
            kept_channels_are_channels(cs, seen@, cs.len());
            channel_index_misses(cs, zid, topic@);
        }
        self.channels.push(
            ChannelEntry { zid, topic: topic.to_owned(), channel: share(&channel) },
        );
        assert(self.channels@.drop_last() =~= kept);
        assert forall|i: int, j: int| 0 <= i < j < self.channels@.len() implies {
            ||| (#[trigger] self.channels@[i]).zid != (#[trigger] self.channels@[j]).zid
            ||| self.channels@[i].topic@ != self.channels@[j].topic@
        } by {
            if j == kept.len() {
                assert(self.channels@[i] == kept[i]);
                assert(one_of(cs, cs.len(), kept[i]));
                let k = choose|k: int| 0 <= k < cs.len() && cs[k] == kept[i];
                assert(cs[k].zid != zid || cs[k].topic@ != topic@);
            } else {
                assert(kept[i].zid != kept[j].zid || kept[i].topic@ != kept[j].topic@);
            }
        }
        channel
    }

    /// How many channels there are, in all sessions.
    pub fn total_channels(&self) -> (r: usize)
        ensures
            r == self.channels@.len(),
    {
        self.channels.len()
    }

    /// How many subscribers a topic has in a session at this moment.
    pub fn subscriber_count(&self, zid: u128, topic: &str) -> (r: usize)
        ensures
            ({
                let i = channel_index(self.channels@, zid, topic@) as int;
                if i < self.channels@.len() {
                    exists|entries: Seq<Entry<C>>| #[trigger]
                        self.channels@[i].channel.told(entries) && r == entries.len()
                } else {
                    r == 0
                }
            }),
    {
        match self.find(zid, topic) {
            Some(i) => self.channels[i].channel.subscriber_count(),
            None => 0,
        }
    }
}

/// Whether a channel is to be kept, given how many references to it and how many
/// subscribers of it there are.
pub fn is_used(references: usize, subscribers: usize) -> (r: bool)
    ensures
        r == worth_keeping(references, subscribers),
{
    references > 1 || subscribers > 0
}

/// How many channels a registry holds, in all sessions.
pub fn total_channels<C>(registry: &BusRegistry<C>) -> (r: usize)
    ensures
        r == registry.channels@.len(),
{
    registry.total_channels()
}

proof fn channel_index_misses<C>(cs: Seq<ChannelEntry<C>>, zid: u128, topic: Seq<char>)
    requires
        channel_index(cs, zid, topic) == cs.len(),
    ensures
        forall|i: int|
            0 <= i < cs.len() ==> (#[trigger] cs[i]).zid != zid || cs[i].topic@ != topic,
    decreases cs.len(),
{
    if cs.len() > 0 {
        let rest = cs.skip(1);
        channel_index_misses(rest, zid, topic);
        assert forall|i: int| 0 <= i < cs.len() implies (#[trigger] cs[i]).zid != zid
            || cs[i].topic@ != topic by {
            if i > 0 {
                assert(rest[i - 1] == cs[i]);
            }
        }
    }
}

/// Whether `c` is one of the first `n` channels.
spec fn one_of<C>(cs: Seq<ChannelEntry<C>>, n: nat, c: ChannelEntry<C>) -> bool {
    exists|k: int| 0 <= k < n && cs[k] == c
}

proof fn kept_channels_are_channels<C>(cs: Seq<ChannelEntry<C>>, seen: Seq<(usize, usize)>, n: nat)
    requires
        n <= cs.len(),
        forall|i: int, j: int|
            0 <= i < j < cs.len() ==> {
                ||| (#[trigger] cs[i]).zid != (#[trigger] cs[j]).zid
                ||| cs[i].topic@ != cs[j].topic@
            },
    ensures
        forall|i: int|
            0 <= i < kept_channels(cs, seen, n).len() ==> one_of(
                cs,
                n,
                #[trigger] kept_channels(cs, seen, n)[i],
            ),
        forall|i: int, j: int|
            0 <= i < j < kept_channels(cs, seen, n).len() ==> {
                ||| (#[trigger] kept_channels(cs, seen, n)[i]).zid != (#[trigger] kept_channels(
                    cs,
                    seen,
                    n,
                )[j]).zid
                ||| kept_channels(cs, seen, n)[i].topic@ != kept_channels(cs, seen, n)[j].topic@
            },
    decreases n,
{
    if n > 0 {
        let before = kept_channels(cs, seen, (n - 1) as nat);
        let after = kept_channels(cs, seen, n);
        kept_channels_are_channels(cs, seen, (n - 1) as nat);
        assert forall|i: int| 0 <= i < after.len() implies one_of(cs, n, #[trigger] after[i]) by {
            if i < before.len() {
                assert(one_of(cs, (n - 1) as nat, before[i]));
                let k = choose|k: int| 0 <= k < n - 1 && cs[k] == before[i];
                assert(cs[k] == after[i]);
            } else {
                assert(cs[n - 1] == after[i]);
            }
        }
        assert forall|i: int, j: int| 0 <= i < j < after.len() implies {
            ||| (#[trigger] after[i]).zid != (#[trigger] after[j]).zid
            ||| after[i].topic@ != after[j].topic@
        } by {
            if j == before.len() {
                assert(one_of(cs, (n - 1) as nat, before[i]));
                let k = choose|k: int| 0 <= k < n - 1 && cs[k] == before[i];
                assert(cs[k].zid != cs[n - 1].zid || cs[k].topic@ != cs[n - 1].topic@);
            } else {
                assert(before[i].zid != before[j].zid || before[i].topic@ != before[j].topic@);
            }
        }
    }
}

/// Subscribers of a type either share its messages or take them by value, and
/// each is counted once.
pub proof fn subscribers_share_or_own<C>(entries: Seq<Entry<C>>, e: Entry<C>, key: u64)
    ensures
        takers(entries, key, entries.len()).len() + owners(entries, key, entries.len())
            == subscribers(entries, key, entries.len()),
        subscribers(entries.push(e), key, entries.len() + 1) == subscribers(
            entries,
            key,
            entries.len(),
        ) + (if e.type_key == key {
            1int
        } else {
            0int
        }),
        owners(entries.push(e), key, entries.len() + 1) == owners(entries, key, entries.len()) + (
        if e.type_key == key && e.sink is Owned {
            1int
        } else {
            0int
        }),
        subscribers(Seq::<Entry<C>>::empty(), key, 0) == 0,
{
    counts_add_up(entries, key, entries.len());
    counts_of_longer(entries, e, key, entries.len());
    assert(entries.push(e)[entries.len() as int] == e);
    assert(((entries.len() + 1) - 1) as nat == entries.len());
}

proof fn counts_add_up<C>(entries: Seq<Entry<C>>, key: u64, n: nat)
    requires
        n <= entries.len(),
    ensures
        takers(entries, key, n).len() + owners(entries, key, n) == subscribers(entries, key, n),
    decreases n,
{
    if n > 0 {
        counts_add_up(entries, key, (n - 1) as nat);
    }
}

proof fn counts_of_longer<C>(entries: Seq<Entry<C>>, e: Entry<C>, key: u64, n: nat)
    requires
        n <= entries.len(),
    ensures
        subscribers(entries.push(e), key, n) == subscribers(entries, key, n),
        owners(entries.push(e), key, n) == owners(entries, key, n),
    decreases n,
{
    if n > 0 {
        counts_of_longer(entries, e, key, (n - 1) as nat);
    }
}

/// A message is given away by value just to one who takes messages of its type by
/// value while nobody else takes messages of that type.
pub proof fn messages_are_given_to_a_sole_owner<C>(entries: Seq<Entry<C>>, key: u64, i: int)
    requires
        0 <= i < entries.len(),
    ensures
        sole_owner(entries, key, i) <==> {
            &&& entries[i].type_key == key
            &&& entries[i].sink is Owned
            &&& forall|j: int|
                0 <= j < entries.len() && j != i ==> (#[trigger] entries[j]).type_key != key
        },
{
    subscribers_but_one(entries, key, entries.len(), i);
}

proof fn subscribers_but_one<C>(entries: Seq<Entry<C>>, key: u64, n: nat, i: int)
    requires
        n <= entries.len(),
    ensures
        subscribers(entries, key, n) == 0 <==> forall|j: int|
            0 <= j < n ==> (#[trigger] entries[j]).type_key != key,
        0 <= i < n && entries[i].type_key == key ==> (subscribers(entries, key, n) == 1 <==> forall|
            j: int,
        |
            0 <= j < n && j != i ==> (#[trigger] entries[j]).type_key != key),
    decreases n,
{
    if n > 0 {
        let m = (n - 1) as nat;
        subscribers_but_one(entries, key, m, i);
        assert(entries[m as int] == entries[n - 1]);
        if subscribers(entries, key, m) > 0 {
            let j = choose|j: int| 0 <= j < m && (#[trigger] entries[j]).type_key == key;
            assert(0 <= j < n && entries[j].type_key == key);
        }
        if 0 <= i < m && entries[i].type_key == key {
            if entries[m as int].type_key != key && subscribers(entries, key, m) == 1 {
                assert forall|j: int| 0 <= j < n && j != i implies (#[trigger] entries[j]).type_key
                    != key by {
                    if j == m {
                    }
                }
            }
            if subscribers(entries, key, m) != 1 {
                let j = choose|j: int|
                    0 <= j < m && j != i && (#[trigger] entries[j]).type_key == key;
                assert(0 <= j < n && j != i && entries[j].type_key == key);
            }
            assert(subscribers(entries, key, m) > 0);
        }
    }
}

/// Those who leave are the subscribers of that number; the others stay in their
/// order.
pub proof fn others_stay_when_one_leaves<C>(entries: Seq<Entry<C>>, e: Entry<C>, id: u64)
    ensures
        removed(entries.push(e), id, entries.len() + 1) == (if e.id == id {
            removed(entries, id, entries.len())
        } else {
            removed(entries, id, entries.len()).push(e)
        }),
        removed(Seq::<Entry<C>>::empty(), id, 0).len() == 0,
{
    removed_of_longer(entries, e, id, entries.len());
    assert(entries.push(e)[entries.len() as int] == e);
    assert(((entries.len() + 1) - 1) as nat == entries.len());
}

proof fn removed_of_longer<C>(entries: Seq<Entry<C>>, e: Entry<C>, id: u64, n: nat)
    requires
        n <= entries.len(),
    ensures
        removed(entries.push(e), id, n) == removed(entries, id, n),
    decreases n,
{
    if n > 0 {
        removed_of_longer(entries, e, id, (n - 1) as nat);
    }
}

/// A publish is refused where eight others are under way around it, and not before;
/// otherwise it calls those who share the type, or finds nobody.
pub proof fn publishes_nest_up_to_a_bound<C>(
    entries: Seq<Entry<C>>,
    key: u64,
    before: u32,
    after: u32,
    r: Plan<C>,
)
    requires
        shared_outcome(entries, key, before, after, r),
    ensures
        r == Plan::<C>::Done(Delivery::DepthExceeded) <==> before >= 8,
        before < 8 ==> (r is Call <==> exists|i: int| shares_type(entries, key, i)),
        before < 8 && r !is Call ==> r == Plan::<C>::Done(Delivery::NoTaker),
        r is Call ==> after == before + 1,
        r !is Call ==> after == before,
        r matches Plan::Call(callbacks) ==> callbacks@.len() == subscribers(
            entries,
            key,
            entries.len(),
        ) - owners(entries, key, entries.len()),
{
    let all = takers(entries, key, entries.len());
    counts_add_up(entries, key, entries.len());
    a_publish_calls_those_who_share_its_type(entries, key, entries.len());
    if all.len() > 0 {
        assert(shares_by(entries, key, entries.len(), all[0]));
    }
    if exists|i: int| shares_type(entries, key, i) {
        let i = choose|i: int| shares_type(entries, key, i);
        assert(all.contains(entries[i].callback));
    }
}

/// The channel of a topic in a session is the first that is entered for both.
pub proof fn channels_are_found_by_session_and_topic<C>(
    cs: Seq<ChannelEntry<C>>,
    zid: u128,
    topic: Seq<char>,
)
    ensures
        ({
            let i = channel_index(cs, zid, topic) as int;
            &&& i <= cs.len()
            &&& i < cs.len() ==> cs[i].zid == zid && cs[i].topic@ == topic
            &&& forall|k: int|
                0 <= k < i ==> (#[trigger] cs[k]).zid != zid || cs[k].topic@ != topic
        }),
    decreases cs.len(),
{
    if cs.len() > 0 && !(cs[0].zid == zid && cs[0].topic@ == topic) {
        let rest = cs.skip(1);
        channels_are_found_by_session_and_topic(rest, zid, topic);
        assert forall|k: int| 0 <= k < channel_index(cs, zid, topic) implies (
        #[trigger] cs[k]).zid != zid || cs[k].topic@ != topic by {
            if k > 0 {
                assert(rest[k - 1] == cs[k]);
            }
        }
    }
}

/// A channel is dropped just where nobody else refers to it and nobody subscribes
/// to it; the others stay in their order.
pub proof fn channels_in_use_stay<C>(
    cs: Seq<ChannelEntry<C>>,
    seen: Seq<(usize, usize)>,
    c: ChannelEntry<C>,
    references: usize,
    count: usize,
)
    requires
        cs.len() == seen.len(),
    ensures
        kept_channels(cs.push(c), seen.push((references, count)), cs.len() + 1) == (if references
            <= 1 && count == 0 {
            kept_channels(cs, seen, cs.len())
        } else {
            kept_channels(cs, seen, cs.len()).push(c)
        }),
        kept_channels(cs, seen, 0).len() == 0,
{
    kept_of_longer(cs, seen, c, references, count, cs.len());
    assert(cs.push(c)[cs.len() as int] == c);
    assert(((cs.len() + 1) - 1) as nat == cs.len());
}

proof fn kept_of_longer<C>(
    cs: Seq<ChannelEntry<C>>,
    seen: Seq<(usize, usize)>,
    c: ChannelEntry<C>,
    references: usize,
    count: usize,
    n: nat,
)
    requires
        cs.len() == seen.len(),
        n <= cs.len(),
    ensures
        kept_channels(cs.push(c), seen.push((references, count)), n) == kept_channels(cs, seen, n),
    decreases n,
{
    if n > 0 {
        kept_of_longer(cs, seen, c, references, count, (n - 1) as nat);
    }
}

/// What came of a publish is how many callbacks returned, and the level is left.
pub proof fn a_publish_counts_those_who_returned(
    completed: usize,
    depth: &mut DeliveryDepth,
    r: Delivery,
)
    requires
        call_ensures(settle, (completed, depth), r),
    ensures
        completed > 0 ==> r == Delivery::Sent(completed),
        completed == 0 ==> r == Delivery::NoTaker,
        old(depth).depth > 0 ==> final(depth).depth == old(depth).depth - 1,
{
}

/// A subscriber that is entered stands behind the others, as it is, and leaves them
/// alone; one that is taken off is gone.
pub proof fn subscribers_come_and_go<C>(
    entries: &Vec<Entry<C>>,
    e: &Entry<C>,
    with: Vec<Entry<C>>,
    id: u64,
    without: Vec<Entry<C>>,
    i: int,
)
    requires
        call_ensures(with_entry::<C>, (entries, e), with),
        call_ensures(without_entry::<C>, (entries, id), without),
    ensures
        with@ == entries@.push(*e),
        0 <= i < without@.len() ==> without@[i].id != id && entries@.contains(without@[i]),
        0 <= i < entries@.len() && entries@[i].id != id ==> without@.contains(entries@[i]),
{
    removed_has(entries@, id, entries@.len());
    if 0 <= i < without@.len() {
        assert(kept_of(entries@, id, entries@.len(), without@[i]));
        let k = choose|k: int|
            0 <= k < entries@.len() && entries@[k].id != id && entries@[k] == without@[i];
        assert(entries@[k] == without@[i]);
    }
}

spec fn kept_of<C>(entries: Seq<Entry<C>>, id: u64, n: nat, e: Entry<C>) -> bool {
    exists|k: int| 0 <= k < n && entries[k].id != id && entries[k] == e
}

proof fn removed_has<C>(entries: Seq<Entry<C>>, id: u64, n: nat)
    requires
        n <= entries.len(),
    ensures
        forall|i: int|
            0 <= i < removed(entries, id, n).len() ==> kept_of(
                entries,
                id,
                n,
                #[trigger] removed(entries, id, n)[i],
            ),
        forall|k: int|
            0 <= k < n && (#[trigger] entries[k]).id != id ==> removed(entries, id, n).contains(
                entries[k],
            ),
    decreases n,
{
    if n > 0 {
        let m = (n - 1) as nat;
        let before = removed(entries, id, m);
        let after = removed(entries, id, n);
        removed_has(entries, id, m);
        assert forall|i: int| 0 <= i < after.len() implies kept_of(
            entries,
            id,
            n,
            #[trigger] after[i],
        ) by {
            if i < before.len() {
                assert(kept_of(entries, id, m, before[i]));
                let k = choose|k: int|
                    0 <= k < m && entries[k].id != id && entries[k] == before[i];
                assert(0 <= k < n && entries[k].id != id && entries[k] == after[i]);
            } else {
                assert(entries[n - 1] == after[i] && entries[n - 1].id != id);
            }
        }
        assert forall|k: int| 0 <= k < n && (#[trigger] entries[k]).id != id implies after.contains(
            entries[k],
        ) by {
            if k < m {
                assert(before.contains(entries[k]));
                let i = choose|i: int| 0 <= i < before.len() && before[i] == entries[k];
                assert(after[i] == entries[k]);
            } else {
                assert(after[before.len() as int] == entries[k]);
            }
        }
    }
}

} // verus!
