//! What becomes of data that arrives at a subscriber or a server.

use crate::queue::{pushed, room, BoundedQueue};
use vstd::prelude::*;

verus! {

/// Where arriving data goes.
#[derive(Debug)]
pub enum DataHandler<T> {
    /// Stored for later.
    Queue(BoundedQueue<T>),
    /// Handed to the user's callback at once.
    Callback,
    /// Stored for later, and the wait set is told.
    QueueWithNotifier(BoundedQueue<T>),
}

/// What the caller is to do with data that arrived.
#[derive(Debug)]
pub enum HandlerAction<T> {
    /// Nothing more; whether an older item was dropped.
    Stored { dropped: bool },
    /// Call the user's callback with the data.
    Call(T),
    /// Tell the wait set; whether an older item was dropped.
    Notify { dropped: bool },
}

impl<T> DataHandler<T> {
    pub open spec fn wf(&self) -> bool {
        match self {
            DataHandler::Queue(queue) => queue.wf(),
            DataHandler::Callback => true,
            DataHandler::QueueWithNotifier(queue) => queue.wf(),
        }
    }

    /// Whether the user's code runs on the thread that delivers. Telling the wait
    /// set does not count.
    pub fn runs_user_code(&self) -> (r: bool)
        ensures
            r == (self is Callback),
    {
        match self {
            DataHandler::Callback => true,
            DataHandler::Queue(_) => false,
            DataHandler::QueueWithNotifier(_) => false,
        }
    }

    /// Stores the data, or says what to do with it.
    pub fn handle(&mut self, data: T) -> (r: HandlerAction<T>)
        requires
            old(self).wf(),
        ensures
            final(self).wf(),
            match *old(self) {
                DataHandler::Queue(queue) => {
                    &&& *final(self) matches DataHandler::Queue(after)
                    &&& after.items@ == pushed(queue.items@, queue.capacity, data)
                    &&& after.capacity == queue.capacity
                    &&& r == HandlerAction::<T>::Stored {
                        dropped: queue.items@.len() >= room(queue.capacity),
                    }
                },
                DataHandler::Callback => {
                    &&& *final(self) == *old(self)
                    &&& r == HandlerAction::<T>::Call(data)
                },
                DataHandler::QueueWithNotifier(queue) => {
                    &&& *final(self) matches DataHandler::QueueWithNotifier(after)
                    &&& after.items@ == pushed(queue.items@, queue.capacity, data)
                    &&& after.capacity == queue.capacity
                    &&& r == HandlerAction::<T>::Notify {
                        dropped: queue.items@.len() >= room(queue.capacity),
                    }
                },
            },
    {
        match self {
            DataHandler::Queue(queue) => {
                let dropped: bool = queue.push(data);
                HandlerAction::Stored { dropped }
            },
            DataHandler::Callback => HandlerAction::Call(data),
            DataHandler::QueueWithNotifier(queue) => {
                let dropped: bool = queue.push(data);
                HandlerAction::Notify { dropped }
            },
        }
    }
}

/// Data that arrives is handed to the callback where there is one and not stored;
/// otherwise it is stored behind the rest, and the oldest goes where there was no
/// room. The wait set is told where that was asked for.
pub proof fn data_is_stored_or_handed_on<T>(
    handler: &mut DataHandler<T>,
    data: T,
    r: HandlerAction<T>,
    user_code: bool,
)
    requires
        old(handler).wf(),
    ensures
        call_ensures(DataHandler::<T>::handle, (handler, data), r) ==> match *old(handler) {
            DataHandler::Callback => r == HandlerAction::<T>::Call(data),
            DataHandler::Queue(q) => {
                &&& *final(handler) matches DataHandler::Queue(after) && after.items@.len() > 0
                    && after.items@[after.items@.len() - 1] == data && (if q.items@.len()
                    < q.capacity {
                    after.items@ == q.items@.push(data) && r == HandlerAction::<T>::Stored {
                        dropped: false,
                    }
                } else {
                    q.capacity > 0 ==> after.items@.len() == q.items@.len() && r
                        == HandlerAction::<T>::Stored { dropped: true }
                })
            },
            DataHandler::QueueWithNotifier(q) => {
                &&& *final(handler) matches DataHandler::QueueWithNotifier(after)
                    && after.items@.len() > 0 && after.items@[after.items@.len() - 1] == data && (
                if q.items@.len() < q.capacity {
                    after.items@ == q.items@.push(data) && r == HandlerAction::<T>::Notify {
                        dropped: false,
                    }
                } else {
                    q.capacity > 0 ==> after.items@.len() == q.items@.len() && r
                        == HandlerAction::<T>::Notify { dropped: true }
                })
            },
        },
        call_ensures(DataHandler::<T>::runs_user_code, (&*old(handler),), user_code) ==> (user_code
            <==> *old(handler) is Callback),
{
}

} // verus!
