//! A queue that makes room by dropping its oldest item.

use std::collections::VecDeque;
use vstd::prelude::*;

verus! {

/// Items in the order in which they came, at most as many as the capacity says,
/// though always room for one.
#[derive(Debug)]
pub struct BoundedQueue<T> {
    pub items: VecDeque<T>,
    pub capacity: usize,
}

/// How many items a queue of a capacity holds at most.
pub open spec fn room(capacity: usize) -> nat {
    if capacity == 0 {
        1
    } else {
        capacity as nat
    }
}

/// What a queue holds after an item came.
pub open spec fn pushed<T>(items: Seq<T>, capacity: usize, item: T) -> Seq<T> {
    if items.len() >= room(capacity) {
        items.skip(1).push(item)
    } else {
        items.push(item)
    }
}

impl<T> BoundedQueue<T> {
    /// Whether the queue holds no more than it may.
    pub open spec fn wf(&self) -> bool {
        self.items@.len() <= room(self.capacity)
    }

    /// An empty queue.
    pub fn new(capacity: usize) -> (r: Self)
        ensures
            r.wf(),
            r.items@.len() == 0,
            r.capacity == capacity,
    {
        BoundedQueue { items: VecDeque::new(), capacity }
    }

    /// Appends an item; where the queue is full, the oldest is dropped first.
    /// Returns whether one was dropped.
    pub fn push(&mut self, item: T) -> (r: bool)
        requires
            old(self).wf(),
        ensures
            final(self).wf(),
            final(self).capacity == old(self).capacity,
            final(self).items@ == pushed(old(self).items@, old(self).capacity, item),
            r == (old(self).items@.len() >= room(old(self).capacity)),
    {
        let full: bool = self.items.len() > 0 && self.items.len() >= self.capacity;
        if full {
            let _oldest = self.items.pop_front();
            assert(self.items@ =~= old(self).items@.skip(1));
        }
        self.items.push_back(item);
        full
    }

    /// The oldest item, which leaves the queue.
    pub fn try_recv(&mut self) -> (r: Option<T>)
        requires
            old(self).wf(),
        ensures
            final(self).wf(),
            final(self).capacity == old(self).capacity,
            match r {
                Some(item) => {
                    &&& old(self).items@.len() > 0
                    &&& item == old(self).items@[0]
                    &&& final(self).items@ == old(self).items@.skip(1)
                },
                None => old(self).items@.len() == 0 && final(self).items@ == old(self).items@,
            },
    {
        let r = self.items.pop_front();
        assert(old(self).items@.len() > 0 ==> self.items@ =~= old(self).items@.skip(1));
        r
    }

    pub fn len(&self) -> (r: usize)
        ensures
            r == self.items@.len(),
    {
        self.items.len()
    }

    pub fn is_empty(&self) -> (r: bool)
        ensures
            r == (self.items@.len() == 0),
    {
        self.items.len() == 0
    }
}

/// What a queue holds after a number of items came, one after the other.
pub open spec fn pushed_all<T>(items: Seq<T>, capacity: usize, more: Seq<T>) -> Seq<T>
    decreases more.len(),
{
    if more.len() == 0 {
        items
    } else {
        pushed(pushed_all(items, capacity, more.drop_last()), capacity, more.last())
    }
}

/// A queue holds the newest items that came to it, as many as it has room for.
pub proof fn the_newest_items_stay<T>(capacity: usize, more: Seq<T>)
    ensures
        pushed_all(Seq::empty(), capacity, more) == (if more.len() > room(capacity) {
            more.skip(more.len() - room(capacity))
        } else {
            more
        }),
    decreases more.len(),
{
    if more.len() > 0 {
        let before = more.drop_last();
        let n = room(capacity) as int;
        the_newest_items_stay(capacity, before);
        if before.len() > n {
            assert(before.skip(before.len() - n).skip(1).push(more.last()) =~= more.skip(
                more.len() - n,
            ));
        } else if before.len() == n {
            assert(before.skip(1).push(more.last()) =~= more.skip(1));
        } else {
            assert(before.push(more.last()) =~= more);
        }
    } else {
        assert(pushed_all(Seq::empty(), capacity, more) =~= more);
    }
}

/// What came first is received first, and an item that was pushed into an empty
/// queue is the next one received.
pub proof fn items_leave_in_the_order_they_came<T>(
    queue: &mut BoundedQueue<T>,
    item: T,
    dropped: bool,
    received: Option<T>,
)
    requires
        old(queue).wf(),
    ensures
        call_ensures(BoundedQueue::<T>::push, (queue, item), dropped) ==> {
            &&& final(queue).items@.len() > 0
            &&& final(queue).items@[final(queue).items@.len() - 1] == item
            &&& final(queue).capacity == old(queue).capacity
            &&& dropped ==> old(queue).items@.len() > 0 && old(queue).items@.len() >= old(
                queue,
            ).capacity && final(queue).items@.len() == old(queue).items@.len()
            &&& !dropped ==> final(queue).items@ == old(queue).items@.push(item)
            &&& old(queue).items@.len() < old(queue).capacity ==> !dropped
        },
        call_ensures(BoundedQueue::<T>::try_recv, (queue,), received) ==> {
            &&& received is Some <==> old(queue).items@.len() > 0
            &&& received matches Some(x) ==> x == old(queue).items@[0] && old(queue).items@
                == seq![x] + final(queue).items@
        },
{
    if call_ensures(BoundedQueue::<T>::try_recv, (queue,), received) && received is Some {
        assert(old(queue).items@ =~= seq![received.unwrap()] + final(queue).items@);
    }
}

} // verus!
