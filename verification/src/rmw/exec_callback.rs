//! How an executor is told that something arrived.
//!
//! A callback runs after the lock on its slot is released, for it may come back
//! to the slot. So that nobody frees what a callback was handed while it runs,
//! each call is entered in the slot before the lock is released, and whoever
//! changes the slot waits for the calls on other threads to end. The caller takes
//! the lock, waits, and calls; the functions here say when and what.

use vstd::multiset::Multiset;
use vstd::prelude::*;

verus! {

/// The slot of one subscription, service or client. `F` is the callback; threads
/// are numbers.
#[derive(Debug)]
pub struct ExecCallback<F> {
    /// The callback, where an executor is attached.
    pub callback: Option<F>,
    /// What the executor wants back with each call.
    pub user_data: usize,
    /// What arrived while there was no callback.
    pub unread: usize,
    /// The threads that are in a call, one entry for each call.
    pub in_flight: Vec<u64>,
    /// The kind of entity, for messages.
    pub site: String,
}

/// A call to be made, which is entered in the slot.
#[derive(Debug, Clone, Copy, PartialEq, Eq)]
pub struct Dispatch<F> {
    pub callback: F,
    pub user_data: usize,
    pub count: usize,
}

/// How many items a call tells of.
pub open spec fn told<F>(d: Option<Dispatch<F>>) -> nat {
    match d {
        Some(call) => call.count as nat,
        None => 0,
    }
}

impl<F: Copy> ExecCallback<F> {
    /// The calls under way.
    pub open spec fn running(&self) -> Multiset<u64> {
        self.in_flight@.to_multiset()
    }

    /// A slot without a callback.
    pub fn new(site: &str) -> (r: Self)
        ensures
            r.callback is None,
            r.user_data == 0,
            r.unread == 0,
            r.in_flight@ == Seq::<u64>::empty(),
            r.site@ == site@,
    {
        ExecCallback {
            callback: None,
            user_data: 0,
            unread: 0,
            in_flight: Vec::new(),
            site: site.to_owned(),
        }
    }

    fn enter_dispatch(&mut self, thread: u64)
        ensures
            final(self).running() == old(self).running().insert(thread),
            *final(self) == (ExecCallback { in_flight: final(self).in_flight, ..*old(self) }),
    {
        proof {
            broadcast use vstd::seq_lib::group_to_multiset_ensures;

        }
        self.in_flight.push(thread);
    }

    /// One item arrived, on `thread`: the call to be made, or the item is counted
    /// for later.
    pub fn notify_one(&mut self, thread: u64) -> (r: Option<Dispatch<F>>)
        requires
            old(self).callback is None ==> old(self).unread < usize::MAX,
        ensures
            match old(self).callback {
                Some(callback) => {
                    &&& r == Some(
                        Dispatch { callback, user_data: old(self).user_data, count: 1 },
                    )
                    &&& final(self).running() == old(self).running().insert(thread)
                    &&& *final(self) == ExecCallback {
                        in_flight: final(self).in_flight,
                        ..*old(self)
                    }
                },
                None => {
                    &&& r is None
                    &&& *final(self) == ExecCallback {
                        unread: (old(self).unread + 1) as usize,
                        ..*old(self)
                    }
                },
            },
            told(r) + final(self).unread == old(self).unread + 1,
    {
        match self.callback {
            Some(callback) => {
                self.enter_dispatch(thread);
                Some(Dispatch { callback, user_data: self.user_data, count: 1 })
            },
            None => {
                self.unread = self.unread + 1;
                None
            },
        }
    }

    /// Attaches an executor, or detaches it, from `thread`: the call to be made for
    /// what arrived meanwhile, once [`ExecCallback::must_wait`] no longer holds.
    pub fn set(&mut self, callback: Option<F>, user_data: usize, thread: u64) -> (r: Option<
        Dispatch<F>,
    >)
        ensures
            final(self).callback == callback,
            final(self).user_data == user_data,
            final(self).site == old(self).site,
            match callback {
                Some(f) if old(self).unread > 0 => {
                    &&& r == Some(Dispatch { callback: f, user_data, count: old(self).unread })
                    &&& final(self).unread == 0
                    &&& final(self).running() == old(self).running().insert(thread)
                },
                _ => {
                    &&& r is None
                    &&& final(self).unread == old(self).unread
                    &&& final(self).in_flight == old(self).in_flight
                },
            },
            told(r) + final(self).unread == old(self).unread,
    {
        self.callback = callback;
        self.user_data = user_data;
        let count: usize = self.unread;
        match callback {
            Some(f) => {
                if count == 0 {
                    return None;
                }
                self.enter_dispatch(thread);
                self.unread = 0;
                Some(Dispatch { callback: f, user_data, count })
            },
            None => None,
        }
    }

    /// Whether one who changed the slot from `thread` must wait: a call is under
    /// way on another thread. A thread never waits for itself.
    pub fn must_wait(&self, thread: u64) -> (r: bool)
        ensures
            r == exists|i: int| 0 <= i < self.in_flight@.len() && self.in_flight@[i] != thread,
    {
        let mut i: usize = 0;
        while i < self.in_flight.len()
            invariant
                i <= self.in_flight@.len(),
                forall|j: int| 0 <= j < i ==> self.in_flight@[j] == thread,
            decreases self.in_flight@.len() - i,
        {
            if self.in_flight[i] != thread {
                return true;
            }
            i = i + 1;
        }
        false
    }

    /// A call on `thread` ended.
    pub fn finish_dispatch(&mut self, thread: u64)
        ensures
            final(self).running() == old(self).running().remove(thread),
            *final(self) == (ExecCallback { in_flight: final(self).in_flight, ..*old(self) }),
    {
        proof {
            broadcast use vstd::seq_lib::group_to_multiset_ensures;

        }
        let mut i: usize = 0;
        while i < self.in_flight.len()
            invariant
                i <= self.in_flight@.len(),
                *self == *old(self),
                forall|j: int| 0 <= j < i ==> self.in_flight@[j] != thread,
            decreases self.in_flight@.len() - i,
        {
            if self.in_flight[i] == thread {
                proof {
                    vstd::seq_lib::to_multiset_remove(self.in_flight@, i as int);
                }
                let _call: u64 = self.in_flight.remove(i);
                return;
            }
            i = i + 1;
        }
        assert(!self.in_flight@.contains(thread));
        assert(self.running() =~= old(self).running().remove(thread));
    }

    /// What arrived while there was no callback.
    pub fn unread(&self) -> (r: usize)
        ensures
            r == self.unread,
    {
        self.unread
    }
}

/// A call that ends leaves the calls that were under way when it began.
pub proof fn calls_are_entered_and_left(running: Multiset<u64>, thread: u64)
    ensures
        running.insert(thread).remove(thread) == running,
{
    assert(running.insert(thread).remove(thread) =~= running);
}

/// Once one who changed the slot need not wait, no call on another thread is under
/// way, so what the callback before was handed may be freed.
pub proof fn a_change_outlives_other_calls<F: Copy>(slot: ExecCallback<F>, thread: u64, other: u64)
    requires
        !(exists|i: int| 0 <= i < slot.in_flight@.len() && slot.in_flight@[i] != thread),
        other != thread,
    ensures
        slot.running().count(other) == 0,
{
    broadcast use vstd::seq_lib::group_to_multiset_ensures;

    if slot.in_flight@.contains(other) {
        let i = choose|i: int| 0 <= i < slot.in_flight@.len() && slot.in_flight@[i] == other;
        assert(slot.in_flight@[i] != thread);
    }
}

/// An item that arrives on a thread is told in a call that is entered there, or
/// counted; an executor that is attached is told of all that was counted; and one
/// waits only for calls on other threads.
pub proof fn items_reach_the_executor_once<F: Copy>(
    slot: &mut ExecCallback<F>,
    thread: u64,
    r: Option<Dispatch<F>>,
    callback: Option<F>,
    user_data: usize,
    late: Option<Dispatch<F>>,
    waits: bool,
)
    requires
        old(slot).unread < usize::MAX,
    ensures
        call_ensures(ExecCallback::<F>::notify_one, (slot, thread), r) ==> {
            &&& r is Some <==> old(slot).callback is Some
            &&& r matches Some(d) ==> d.count == 1 && Some(d.callback) == old(slot).callback
                && d.user_data == old(slot).user_data && final(slot).unread == old(slot).unread
                && final(slot).running().count(thread) == old(slot).running().count(thread) + 1
            &&& r is None ==> final(slot).unread == old(slot).unread + 1
        },
        call_ensures(ExecCallback::<F>::set, (slot, callback, user_data, thread), late) ==> {
            &&& final(slot).callback == callback && final(slot).user_data == user_data
            &&& late is Some <==> callback is Some && old(slot).unread > 0
            &&& late matches Some(d) ==> d.count == old(slot).unread && Some(d.callback) == callback
                && d.user_data == user_data && final(slot).unread == 0
            &&& late is None ==> final(slot).unread == old(slot).unread
        },
        call_ensures(ExecCallback::<F>::must_wait, (&*old(slot), thread), waits) ==> (waits
            <==> exists|i: int|
            0 <= i < old(slot).in_flight@.len() && #[trigger] old(slot).in_flight@[i] != thread),
        call_ensures(ExecCallback::<F>::finish_dispatch, (slot, thread), ()) ==> {
            &&& old(slot).running().count(thread) > 0 ==> final(slot).running().count(thread) == old(
                slot,
            ).running().count(thread) - 1
            &&& final(slot).callback == old(slot).callback && final(slot).unread == old(
                slot,
            ).unread
        },
{
}

} // verus!
