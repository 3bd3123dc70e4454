//! A pool of reusable message allocations for the intra-process path.
//!
//! A slot of the pool is free while nobody else refers to its message. Whether
//! one is depends on what receivers do, so [`PayloadPool::acquire`] asks, and
//! [`PayloadPool::settle`] says what follows from the answer.

use crate::shared::{share, sole, strong_count, weak_count};
use std::sync::Arc;
use vstd::prelude::*;

verus! {

/// How many acquires in a row a slot is unavailable before it counts as stuck.
pub const STUCK_AFTER: u32 = 64;

/// A fixed set of messages, reused across sends.
#[derive(Debug)]
pub struct PayloadPool<T> {
    pub slots: Vec<Arc<T>>,
    /// How many acquires in a row found each slot unavailable.
    pub busy_streak: Vec<u32>,
    /// Whether a slot was reported as stuck.
    pub warned: Vec<bool>,
    /// Where the next search begins.
    pub cursor: usize,
    /// How often no slot was free.
    pub exhaustions: u64,
}

/// A slot of a pool, writable in place.
pub struct Pooled<'a, T> {
    pub slot: &'a mut Arc<T>,
}

/// The occupancy of a pool at one moment.
#[derive(Debug, Clone, Copy, PartialEq, Eq)]
pub struct PoolStats {
    /// Slots the pool was built with.
    pub capacity: usize,
    /// Slots that can be acquired.
    pub available: usize,
    /// Slots that were unavailable for [`STUCK_AFTER`] acquires in a row.
    pub stuck: usize,
    /// How often no slot was free.
    pub exhaustions: u64,
}

/// How many steps slot `i` is away from the cursor, around the ring of `n`.
pub open spec fn steps_to(cursor: int, i: int, n: int) -> int {
    if i >= cursor {
        i - cursor
    } else {
        i + n - cursor
    }
}

/// The slot that is `steps` away from the cursor.
pub open spec fn slot_at(cursor: int, steps: int, n: int) -> int {
    if cursor + steps < n {
        cursor + steps
    } else {
        cursor + steps - n
    }
}

/// One more than `n`, or the largest number.
pub open spec fn one_more(n: u32) -> u32 {
    if n == u32::MAX {
        n
    } else {
        (n + 1) as u32
    }
}

/// The streaks after a search that found `busy` slots unavailable and then, if
/// that were not all, a free one.
pub open spec fn streaks_after(streaks: Seq<u32>, cursor: int, busy: int) -> Seq<u32> {
    Seq::new(
        streaks.len(),
        |i: int|
            {
                let d = steps_to(cursor, i, streaks.len() as int);
                if d < busy {
                    one_more(streaks[i])
                } else if d == busy {
                    0u32
                } else {
                    streaks[i]
                }
            },
    )
}

/// Which slots were reported as stuck, after such a search.
pub open spec fn warned_after(
    warned: Seq<bool>,
    streaks: Seq<u32>,
    cursor: int,
    busy: int,
) -> Seq<bool> {
    Seq::new(
        warned.len(),
        |i: int|
            {
                let d = steps_to(cursor, i, warned.len() as int);
                if d < busy {
                    warned[i] || one_more(streaks[i]) >= STUCK_AFTER
                } else if d == busy {
                    false
                } else {
                    warned[i]
                }
            },
    )
}

/// How many of the first `n` streaks are stuck.
pub open spec fn stuck_among(streaks: Seq<u32>, n: nat) -> nat
    decreases n,
{
    if n == 0 || n > streaks.len() {
        0
    } else {
        stuck_among(streaks, (n - 1) as nat) + if streaks[n - 1] >= STUCK_AFTER {
            1nat
        } else {
            0nat
        }
    }
}

/// How many of the first `n` slots have no reference but the pool's own.
pub open spec fn free_among(counts: Seq<(usize, usize)>, n: nat) -> nat
    decreases n,
{
    if n == 0 || n > counts.len() {
        0
    } else {
        free_among(counts, (n - 1) as nat) + if counts[n - 1].0 == 1 && counts[n - 1].1 == 0 {
            1nat
        } else {
            0nat
        }
    }
}

/// How many slots are free, given the strong and weak references to each.
pub fn count_free(counts: &Vec<(usize, usize)>) -> (r: usize)
    ensures
        r == free_among(counts@, counts@.len()),
        r <= counts@.len(),
{
    let mut r: usize = 0;
    let mut i: usize = 0;
    while i < counts.len()
        invariant
            i <= counts@.len(),
            r == free_among(counts@, i as nat),
            r <= i,
        decreases counts@.len() - i,
    {
        if counts[i].0 == 1 && counts[i].1 == 0 {
            r = r + 1;
        }
        i = i + 1;
    }
    r
}

/// Whether counting the references to each slot can give these numbers of strong
/// and of weak ones.
pub closed spec fn counted<T>(slots: Seq<Arc<T>>, counts: Seq<(usize, usize)>) -> bool {
    &&& counts.len() == slots.len()
    &&& forall|i: int|
        0 <= i < slots.len() ==> {
            &&& call_ensures(strong_count::<T>, (&slots[i],), (#[trigger] counts[i]).0)
            &&& call_ensures(weak_count::<T>, (&slots[i],), counts[i].1)
        }
}

/// Whether asking for the sole access to a slot can give this answer.
pub closed spec fn answered<T>(slot: Arc<T>, free: bool) -> bool {
    exists|a: &mut Arc<T>, r: Option<&mut T>|
        *a == slot && free == (r is Some) && #[trigger] call_ensures(sole::<T>, (a,), r)
}

/// Whether nobody else refers to the message in `slot`, at the moment of asking.
fn is_free<T>(slot: &mut Arc<T>) -> (r: bool)
    ensures
        *final(slot) == *old(slot),
        answered(*old(slot), r),
{
    let access = sole(slot);
    let ghost free = access is Some;
    assert(exists|a: &mut Arc<T>, r: Option<&mut T>|
        *a == *old(slot) && free == (r is Some) && #[trigger] call_ensures(sole::<T>, (a,), r));
    match access {
        Some(_) => true,
        None => false,
    }
}

impl<T> PayloadPool<T> {
    /// Whether there is a streak and a mark for each slot and the cursor is at
    /// one of them.
    pub open spec fn wf(&self) -> bool {
        &&& self.busy_streak@.len() == self.slots@.len()
        &&& self.warned@.len() == self.slots@.len()
        &&& self.cursor < self.slots@.len() || self.cursor == 0
    }

    /// Whether `after` is this pool after a search that found `busy` slots
    /// unavailable.
    pub open spec fn searched(&self, after: &Self, busy: nat) -> bool {
        let n = self.slots@.len();
        &&& after.busy_streak@ == streaks_after(
            self.busy_streak@,
            self.cursor as int,
            busy as int,
        )
        &&& after.warned@ == warned_after(
            self.warned@,
            self.busy_streak@,
            self.cursor as int,
            busy as int,
        )
        &&& if busy < n {
            let i = slot_at(self.cursor as int, busy as int, n as int);
            after.cursor == (if i + 1 < n { i + 1 } else { 0 }) && after.exhaustions
                == self.exhaustions
        } else {
            after.cursor == self.cursor && after.exhaustions == (if self.exhaustions == u64::MAX {
                self.exhaustions
            } else {
                (self.exhaustions + 1) as u64
            })
        }
    }

    /// Whether the slots of this pool can answer so that a search finds the first
    /// `busy` of them unavailable, counted from the cursor, and then, if that is
    /// not all, a free one.
    pub open spec fn asked(&self, busy: nat) -> bool {
        let n = self.slots@.len();
        &&& busy <= n
        &&& forall|d: int|
            0 <= d < busy ==> answered(
                #[trigger] self.slots@[slot_at(self.cursor as int, d, n as int)],
                false,
            )
        &&& busy < n ==> answered(
            self.slots@[slot_at(self.cursor as int, busy as int, n as int)],
            true,
        )
    }

    /// A pool of `capacity` messages, each made by `init`.
    pub fn new(capacity: usize, mut init: impl FnMut() -> T) -> (r: Self)
        requires
            call_requires(init, ()),
        ensures
            r.wf(),
            r.slots@.len() == capacity,
            forall|i: int| 0 <= i < capacity ==> call_ensures(init, (), *#[trigger] r.slots@[i]),
            forall|i: int| 0 <= i < capacity ==> #[trigger] r.busy_streak@[i] == 0,
            forall|i: int| 0 <= i < capacity ==> !#[trigger] r.warned@[i],
            r.cursor == 0,
            r.exhaustions == 0,
    {
        let mut slots: Vec<Arc<T>> = Vec::new();
        let mut busy_streak: Vec<u32> = Vec::new();
        let mut warned: Vec<bool> = Vec::new();
        let ghost given = init;
        let mut i: usize = 0;
        while i < capacity
            invariant
                i <= capacity,
                init == given,
                call_requires(init, ()),
                slots@.len() == i,
                busy_streak@.len() == i,
                warned@.len() == i,
                forall|j: int| 0 <= j < i ==> call_ensures(init, (), *#[trigger] slots@[j]),
                forall|j: int| 0 <= j < i ==> #[trigger] busy_streak@[j] == 0,
                forall|j: int| 0 <= j < i ==> !#[trigger] warned@[j],
            decreases capacity - i,
        {
            slots.push(Arc::new(init()));
            busy_streak.push(0);
            warned.push(false);
            i = i + 1;
        }
        PayloadPool { slots, busy_streak, warned, cursor: 0, exhaustions: 0 }
    }

    /// How many slots from the cursor on are unavailable before the first free
    /// one.
    fn search(&mut self) -> (busy: usize)
        requires
            old(self).wf(),
        ensures
            final(self).wf(),
            final(self).slots@ == old(self).slots@,
            final(self).busy_streak == old(self).busy_streak,
            final(self).warned == old(self).warned,
            final(self).cursor == old(self).cursor,
            final(self).exhaustions == old(self).exhaustions,
            old(self).asked(busy as nat),
    {
        let n: usize = self.slots.len();
        let mut busy: usize = 0;
        while busy < n
            invariant
                busy <= n,
                n == self.slots@.len(),
                self.wf(),
                self.slots@ == old(self).slots@,
                self.busy_streak == old(self).busy_streak,
                self.warned == old(self).warned,
                self.cursor == old(self).cursor,
                self.exhaustions == old(self).exhaustions,
                forall|d: int|
                    0 <= d < busy ==> answered(
                        #[trigger] self.slots@[slot_at(self.cursor as int, d, n as int)],
                        false,
                    ),
            decreases n - busy,
        {
            let i: usize = if self.cursor < n - busy {
                self.cursor + busy
            } else {
                self.cursor - (n - busy)
            };
            let ghost before = self.slots@;
            let free: bool = is_free(&mut self.slots[i]);
            assert(self.slots@ =~= before);
            if free {
                return busy;
            }
            busy = busy + 1;
        }
        busy
    }

    /// Takes note of a search that found `busy` slots unavailable: their streaks
    /// grow, and the slot after them, if any, is the one to hand out.
    pub fn settle(&mut self, busy: usize) -> (r: Option<usize>)
        requires
            old(self).wf(),
            busy <= old(self).slots@.len(),
        ensures
            final(self).wf(),
            final(self).slots == old(self).slots,
            old(self).searched(final(self), busy as nat),
            match r {
                Some(i) => busy < old(self).slots@.len() && i == slot_at(
                    old(self).cursor as int,
                    busy as int,
                    old(self).slots@.len() as int,
                ),
                None => busy == old(self).slots@.len(),
            },
    {
        let n: usize = self.slots.len();
        let ghost streaks = self.busy_streak@;
        let ghost warned = self.warned@;
        let ghost cursor = self.cursor as int;
        let mut step: usize = 0;
        while step < busy
            invariant
                step <= busy <= n,
                n == self.slots@.len(),
                self.wf(),
                self.slots == old(self).slots,
                self.cursor == old(self).cursor,
                self.exhaustions == old(self).exhaustions,
                cursor == self.cursor,
                cursor < n || cursor == 0,
                streaks.len() == n,
                warned.len() == n,
                forall|i: int|
                    0 <= i < n ==> #[trigger] self.busy_streak@[i] == (if steps_to(
                        cursor,
                        i,
                        n as int,
                    ) < step {
                        one_more(streaks[i])
                    } else {
                        streaks[i]
                    }),
                forall|i: int|
                    0 <= i < n ==> #[trigger] self.warned@[i] == (if steps_to(
                        cursor,
                        i,
                        n as int,
                    ) < step {
                        warned[i] || one_more(streaks[i]) >= STUCK_AFTER
                    } else {
                        warned[i]
                    }),
            decreases busy - step,
        {
            let i: usize = if self.cursor < n - step {
                self.cursor + step
            } else {
                self.cursor - (n - step)
            };
            let streak: u32 = self.busy_streak[i].saturating_add(1);
            self.busy_streak.set(i, streak);
            if streak >= STUCK_AFTER {
                self.warned.set(i, true);
            }
            step = step + 1;
        }
        if busy == n {
            self.exhaustions = self.exhaustions.saturating_add(1);
            assert(self.busy_streak@ =~= streaks_after(streaks, cursor, busy as int));
            assert(self.warned@ =~= warned_after(warned, streaks, cursor, busy as int));
            return None;
        }
        let i: usize = if self.cursor < n - busy {
            self.cursor + busy
        } else {
            self.cursor - (n - busy)
        };
        self.busy_streak.set(i, 0);
        self.warned.set(i, false);
        self.cursor = if i + 1 < n { i + 1 } else { 0 };
        assert(self.busy_streak@ =~= streaks_after(streaks, cursor, busy as int));
        assert(self.warned@ =~= warned_after(warned, streaks, cursor, busy as int));
        Some(i)
    }

    /// Takes a slot that nobody else refers to, or nothing when all are out. No
    /// message is ever allocated here.
    pub fn acquire(&mut self) -> (r: Option<Pooled<'_, T>>)
        requires
            old(self).wf(),
        ensures
            final(self).wf(),
            exists|busy: nat|
                #![trigger old(self).asked(busy)]
                {
                    let n = old(self).slots@.len();
                    let i = slot_at(old(self).cursor as int, busy as int, n as int);
                    &&& old(self).asked(busy)
                    &&& old(self).searched(final(self), busy)
                    &&& match r {
                        Some(p) => {
                            &&& busy < n
                            &&& *p.slot == old(self).slots@[i]
                            &&& final(self).slots@ == old(self).slots@.update(i, *final(p.slot))
                        },
                        None => busy == n && final(self).slots@ == old(self).slots@,
                    }
                },
    {
        let busy: usize = self.search();
        match self.settle(busy) {
            Some(i) => Some(Pooled { slot: &mut self.slots[i] }),
            None => None,
        }
    }

    /// The occupancy of the pool.
    pub fn stats(&self) -> (r: PoolStats)
        requires
            self.wf(),
        ensures
            r.capacity == self.slots@.len(),
            r.available <= self.slots@.len(),
            exists|counts: Seq<(usize, usize)>|
                {
                    &&& #[trigger] counted(self.slots@, counts)
                    &&& counts.len() == self.slots@.len()
                    &&& r.available == free_among(counts, counts.len())
                },
            r.stuck == stuck_among(self.busy_streak@, self.busy_streak@.len()),
            r.exhaustions == self.exhaustions,
    {
        let mut counts: Vec<(usize, usize)> = Vec::new();
        let mut stuck: usize = 0;
        let mut i: usize = 0;
        while i < self.slots.len()
            invariant
                self.wf(),
                i <= self.slots@.len(),
                counts@.len() == i,
                forall|k: int|
                    0 <= k < i ==> {
                        &&& call_ensures(
                            strong_count::<T>,
                            (&self.slots@[k],),
                            (#[trigger] counts@[k]).0,
                        )
                        &&& call_ensures(weak_count::<T>, (&self.slots@[k],), counts@[k].1)
                    },
                stuck <= i,
                stuck == stuck_among(self.busy_streak@, i as nat),
            decreases self.slots@.len() - i,
        {
            let slot = &self.slots[i];
            let strong: usize = strong_count(slot);
            assert(call_ensures(strong_count::<T>, (slot,), strong));
            let weak: usize = weak_count(slot);
            assert(call_ensures(weak_count::<T>, (slot,), weak));
            counts.push((strong, weak));
            if self.busy_streak[i] >= STUCK_AFTER {
                stuck = stuck + 1;
            }
            i = i + 1;
        }
        assert(counted(self.slots@, counts@));
        PoolStats {
            capacity: self.slots.len(),
            available: count_free(&counts),
            stuck,
            exhaustions: self.exhaustions,
        }
    }

    /// The number of slots the pool was built with.
    pub fn capacity(&self) -> (r: usize)
        ensures
            r == self.slots@.len(),
    {
        self.slots.len()
    }
}

impl<'a, T> Pooled<'a, T> {
    /// The message, to be written in place; there is none while somebody else
    /// refers to it, which nobody does right after the slot was acquired.
    pub fn get_mut(&mut self) -> (r: Option<&mut T>)
        ensures
            match r {
                Some(x) => {
                    &&& *x == **old(self).slot
                    &&& **final(self).slot == *final(x)
                },
                None => **final(self).slot == **old(self).slot,
            },
            *final(final(self).slot) == *final(old(self).slot),
            answered(*old(self).slot, r is Some),
    {
        let ghost slot = *self.slot;
        let access = sole(self.slot);
        let ghost free = access is Some;
        assert(exists|a: &mut Arc<T>, r: Option<&mut T>|
            *a == slot && free == (r is Some) && #[trigger] call_ensures(sole::<T>, (a,), r));
        access
    }

    /// Takes the message for publishing, which makes its slot busy.
    pub fn into_shared(self) -> (r: Arc<T>)
        ensures
            r == *old(self.slot),
            *final(self.slot) == *old(self.slot),
    {
        share(self.slot)
    }
}

impl<'a, T> std::ops::Deref for Pooled<'a, T> {
    type Target = T;

    /// The message.
    fn deref(&self) -> (r: &T)
        ensures
            *r == **old(self.slot),
    {
        &**self.slot
    }
}

/// A slot that was unavailable for [`STUCK_AFTER`] searches in a row, this one
/// included, counts as stuck and is reported.
pub proof fn a_held_slot_is_reported(
    streaks: Seq<u32>,
    warned: Seq<bool>,
    cursor: int,
    busy: int,
    i: int,
)
    requires
        0 <= i < streaks.len(),
        warned.len() == streaks.len(),
        steps_to(cursor, i, streaks.len() as int) < busy,
        streaks[i] >= STUCK_AFTER - 1,
    ensures
        streaks_after(streaks, cursor, busy)[i] >= STUCK_AFTER,
        warned_after(warned, streaks, cursor, busy)[i],
{
}

/// A slot that is handed out is stuck no longer.
pub proof fn a_slot_handed_out_starts_afresh(
    streaks: Seq<u32>,
    warned: Seq<bool>,
    cursor: int,
    busy: int,
)
    requires
        0 <= cursor < streaks.len(),
        0 <= busy < streaks.len(),
        warned.len() == streaks.len(),
    ensures
        ({
            let i = slot_at(cursor, busy, streaks.len() as int);
            &&& streaks_after(streaks, cursor, busy)[i] == 0
            &&& !warned_after(warned, streaks, cursor, busy)[i]
        }),
{
}

/// A search that finds nothing was told of every slot that it is taken, and one
/// that finds a slot was told that this one is free.
pub proof fn a_search_finds_a_slot_where_one_is_free<T>(pool: PayloadPool<T>, busy: nat)
    requires
        pool.wf(),
        pool.asked(busy),
    ensures
        busy == pool.slots@.len() ==> forall|i: int|
            0 <= i < pool.slots@.len() ==> answered(#[trigger] pool.slots@[i], false),
        busy < pool.slots@.len() ==> exists|i: int|
            0 <= i < pool.slots@.len() && answered(#[trigger] pool.slots@[i], true),
{
    let n = pool.slots@.len() as int;
    let c = pool.cursor as int;
    if busy < n {
        let i = slot_at(c, busy as int, n);
        assert(answered(pool.slots@[i], true));
    } else {
        assert forall|i: int| 0 <= i < n implies answered(#[trigger] pool.slots@[i], false) by {
            let d = steps_to(c, i, n);
            assert(slot_at(c, d, n) == i);
            assert(answered(pool.slots@[slot_at(c, d, n)], false));
        }
    }
}

/// `n` more than `a`, or the largest number.
pub open spec fn more(a: int, n: nat, largest: int) -> int {
    if a + n <= largest {
        a + n
    } else {
        largest
    }
}

/// Where `k` searches in a row found nothing, every streak and the count of such
/// searches have grown by `k`, and the slots and the cursor are as they were.
pub proof fn failed_searches_add_up<T>(pools: Seq<PayloadPool<T>>, k: nat)
    requires
        pools.len() == k + 1,
        pools[0].wf(),
        forall|j: int|
            0 <= j < k ==> {
                let n = pools[j].slots@.len();
                &&& (#[trigger] pools[j]).searched(&pools[j + 1], n)
                &&& pools[j + 1].slots@ == pools[j].slots@
            },
    ensures
        pools[k as int].wf(),
        pools[k as int].slots@ == pools[0].slots@,
        pools[k as int].cursor == pools[0].cursor,
        pools[k as int].exhaustions == more(pools[0].exhaustions as int, k, u64::MAX as int),
        forall|i: int|
            0 <= i < pools[0].slots@.len() ==> #[trigger] pools[k as int].busy_streak@[i] == more(
                pools[0].busy_streak@[i] as int,
                k,
                u32::MAX as int,
            ),
    decreases k,
{
    if k > 0 {
        let before = pools.drop_last();
        assert forall|j: int| 0 <= j < k - 1 implies {
            let n = before[j].slots@.len();
            &&& (#[trigger] before[j]).searched(&before[j + 1], n)
            &&& before[j + 1].slots@ == before[j].slots@
        } by {
            assert(before[j] == pools[j]);
            assert(before[j + 1] == pools[j + 1]);
        }
        failed_searches_add_up(before, (k - 1) as nat);
        let p = pools[k - 1];
        let q = pools[k as int];
        assert(before[k - 1] == p);
        assert(p.searched(&q, p.slots@.len()));
        let c = p.cursor as int;
        let n = p.slots@.len() as int;
        assert forall|i: int| 0 <= i < n implies #[trigger] q.busy_streak@[i] == more(
            pools[0].busy_streak@[i] as int,
            k,
            u32::MAX as int,
        ) by {
            assert(steps_to(c, i, n) < n);
            assert(before[k - 1].busy_streak@[i] == p.busy_streak@[i]);
        }
    }
}

/// Of a pool without free slots that was new, `k` searches on: as many slots as it
/// has are stuck once `k` is [`STUCK_AFTER`], and none before.
pub proof fn held_slots_are_stuck_after_so_many_searches(streaks: Seq<u32>, k: nat, n: nat)
    requires
        n <= streaks.len(),
        forall|i: int|
            0 <= i < streaks.len() ==> #[trigger] streaks[i] == more(0, k, u32::MAX as int),
    ensures
        stuck_among(streaks, n) == (if k >= STUCK_AFTER {
            n
        } else {
            0
        }),
    decreases n,
{
    if n > 0 {
        held_slots_are_stuck_after_so_many_searches(streaks, k, (n - 1) as nat);
        assert(streaks[n - 1] == more(0, k, u32::MAX as int));
    }
}

/// All slots are available exactly where nobody else refers to any of them, and
/// one that somebody else refers to is not.
pub proof fn slots_are_available_while_nobody_refers_to_them(
    counts: Seq<(usize, usize)>,
    n: nat,
)
    requires
        n <= counts.len(),
    ensures
        free_among(counts, n) <= n,
        free_among(counts, n) == n <==> forall|i: int|
            0 <= i < n ==> #[trigger] counts[i] == (1usize, 0usize),
        free_among(counts, n) == 0 <==> forall|i: int|
            0 <= i < n ==> #[trigger] counts[i] != (1usize, 0usize),
    decreases n,
{
    if n > 0 {
        let m = (n - 1) as nat;
        slots_are_available_while_nobody_refers_to_them(counts, m);
        let last = counts[n - 1];
        if last.0 == 1 && last.1 == 0 {
            assert(last == (1usize, 0usize));
        } else {
            assert(last != (1usize, 0usize));
        }
    }
}

/// Whether a search that found `busy` slots unavailable was answered as the slots
/// were counted: those that it passed have another reference, and the one that it
/// stopped at, if any, has none.
pub open spec fn answered_as_counted<T>(
    pool: PayloadPool<T>,
    busy: nat,
    counts: Seq<(usize, usize)>,
) -> bool {
    let n = pool.slots@.len() as int;
    let c = pool.cursor as int;
    &&& counts.len() == n
    &&& forall|d: int| 0 <= d < busy ==> #[trigger] counts[slot_at(c, d, n)] != (1usize, 0usize)
    &&& busy < n ==> counts[slot_at(c, busy as int, n)] == (1usize, 0usize)
}

/// Where no reference comes or goes between the count and the search, a search finds
/// a slot exactly where one counts as available.
pub proof fn a_search_finds_what_counts_as_available<T>(
    pool: PayloadPool<T>,
    busy: nat,
    counts: Seq<(usize, usize)>,
)
    requires
        pool.wf(),
        busy <= pool.slots@.len(),
        answered_as_counted(pool, busy, counts),
    ensures
        busy < pool.slots@.len() <==> free_among(counts, counts.len()) > 0,
{
    let n = pool.slots@.len() as int;
    let c = pool.cursor as int;
    slots_are_available_while_nobody_refers_to_them(counts, counts.len());
    if busy < n {
        let i = slot_at(c, busy as int, n);
        assert(0 <= i < n);
        assert(counts[i] == (1usize, 0usize));
    } else {
        assert forall|i: int| 0 <= i < n implies #[trigger] counts[i] != (1usize, 0usize) by {
            let d = steps_to(c, i, n);
            assert(slot_at(c, d, n) == i);
            assert(counts[slot_at(c, d, n)] != (1usize, 0usize));
        }
    }
}

/// Slots are tried one after the other around the ring, beginning at the cursor,
/// and none is tried twice before all were.
pub proof fn slots_are_tried_around_the_ring(cursor: int, d: int, n: int)
    requires
        0 <= cursor < n,
        0 <= d < n,
    ensures
        0 <= slot_at(cursor, d, n) < n,
        (slot_at(cursor, d, n) - cursor - d) % n == 0,
        slot_at(cursor, 0, n) == cursor,
        steps_to(cursor, slot_at(cursor, d, n), n) == d,
        0 <= steps_to(cursor, d, n) < n,
        slot_at(cursor, steps_to(cursor, d, n), n) == d,
{
    if cursor + d < n {
        assert((slot_at(cursor, d, n) - cursor - d) == 0);
        assert(0int % n == 0) by (nonlinear_arith)
            requires
                n > 0,
        ;
    } else {
        assert((slot_at(cursor, d, n) - cursor - d) == -n);
        assert((-n) % n == 0) by (nonlinear_arith)
            requires
                n > 0,
        ;
    }
}

/// A search counts against the slots that it found taken, clears the one that it
/// hands out and leaves those alone that it did not come to. A slot is reported as
/// stuck from the sixty-fourth time on.
pub proof fn searches_count_what_they_pass(
    streaks: Seq<u32>,
    warned: Seq<bool>,
    cursor: int,
    busy: int,
    d: int,
)
    requires
        0 <= cursor < streaks.len(),
        warned.len() == streaks.len(),
        0 <= d < streaks.len(),
        0 <= busy <= streaks.len(),
    ensures
        ({
            let i = slot_at(cursor, d, streaks.len() as int);
            let after = streaks_after(streaks, cursor, busy);
            let marks = warned_after(warned, streaks, cursor, busy);
            &&& after.len() == streaks.len() && marks.len() == warned.len()
            &&& d < busy && streaks[i] < u32::MAX ==> after[i] == streaks[i] + 1
            &&& d < busy && streaks[i] == u32::MAX ==> after[i] == streaks[i]
            &&& d < busy ==> (marks[i] <==> warned[i] || after[i] >= 64)
            &&& d == busy ==> after[i] == 0 && !marks[i]
            &&& d > busy ==> after[i] == streaks[i] && marks[i] == warned[i]
        }),
{
    slots_are_tried_around_the_ring(cursor, d, streaks.len() as int);
}

/// A slot counts as stuck from the sixty-fourth time on that it was found taken, and
/// as free where the pool holds the only reference to it.
pub proof fn stuck_and_free_slots_are_counted(
    streaks: Seq<u32>,
    streak: u32,
    counts: Seq<(usize, usize)>,
    strong: usize,
    weak: usize,
)
    ensures
        stuck_among(streaks.push(streak), streaks.len() + 1) == stuck_among(streaks, streaks.len())
            + (if streak >= 64 {
            1int
        } else {
            0int
        }),
        stuck_among(streaks, 0) == 0,
        free_among(counts.push((strong, weak)), counts.len() + 1) == free_among(
            counts,
            counts.len(),
        ) + (if strong == 1 && weak == 0 {
            1int
        } else {
            0int
        }),
        free_among(counts, 0) == 0,
{
    stuck_of_longer(streaks, streak, streaks.len());
    free_of_longer(counts, (strong, weak), counts.len());
    assert(streaks.push(streak)[streaks.len() as int] == streak);
    assert(((streaks.len() + 1) - 1) as nat == streaks.len());
    assert(counts.push((strong, weak))[counts.len() as int] == (strong, weak));
    assert(((counts.len() + 1) - 1) as nat == counts.len());
}

proof fn stuck_of_longer(streaks: Seq<u32>, streak: u32, n: nat)
    requires
        n <= streaks.len(),
    ensures
        stuck_among(streaks.push(streak), n) == stuck_among(streaks, n),
    decreases n,
{
    if n > 0 {
        stuck_of_longer(streaks, streak, (n - 1) as nat);
    }
}

proof fn free_of_longer(counts: Seq<(usize, usize)>, c: (usize, usize), n: nat)
    requires
        n <= counts.len(),
    ensures
        free_among(counts.push(c), n) == free_among(counts, n),
    decreases n,
{
    if n > 0 {
        free_of_longer(counts, c, (n - 1) as nat);
    }
}

/// A search that hands out a slot leaves the cursor at the one behind it and counts
/// nothing; one that finds none leaves the cursor and is counted.
pub proof fn the_next_search_begins_behind_the_last<T>(
    before: PayloadPool<T>,
    after: PayloadPool<T>,
    busy: nat,
)
    requires
        before.wf(),
        before.slots@.len() > 0,
        before.searched(&after, busy),
        before.exhaustions < u64::MAX,
    ensures
        busy < before.slots@.len() ==> {
            &&& after.exhaustions == before.exhaustions
            &&& after.cursor == slot_at(
                slot_at(before.cursor as int, busy as int, before.slots@.len() as int),
                1,
                before.slots@.len() as int,
            )
        },
        busy >= before.slots@.len() ==> {
            &&& after.exhaustions == before.exhaustions + 1
            &&& after.cursor == before.cursor
        },
{
}

} // verus!
