//! The callbacks of subscriptions, services and clients.
//!
//! The lock on a slot is released before the callback runs; the functions here
//! give the call to be made.

use vstd::prelude::*;

verus! {

/// A callback, what it wants back, and what arrived while there was none.
#[derive(Debug, Clone, Copy, PartialEq, Eq)]
pub struct CallbackSlot<F> {
    pub callback: Option<F>,
    pub user_data: usize,
    pub unread: usize,
}

/// A call to be made once the slot is released.
#[derive(Debug, Clone, Copy, PartialEq, Eq)]
pub struct CallOut<F> {
    pub callback: F,
    pub user_data: usize,
    pub count: usize,
}

/// The call that tells of what arrived before a callback was set.
pub open spec fn late_call<F>(callback: Option<F>, user_data: usize, unread: usize) -> Option<
    CallOut<F>,
> {
    match callback {
        Some(f) => if unread > 0 {
            Some(CallOut { callback: f, user_data, count: unread })
        } else {
            None
        },
        None => None,
    }
}

impl<F: Copy> CallbackSlot<F> {
    pub fn new() -> (r: Self)
        ensures
            r == (CallbackSlot::<F> { callback: None, user_data: 0, unread: 0 }),
    {
        CallbackSlot { callback: None, user_data: 0, unread: 0 }
    }

    /// One item arrived: the call to be made, or the item is counted for later.
    /// Those who wait are woken in any case.
    pub fn notify(&mut self) -> (r: Option<CallOut<F>>)
        requires
            old(self).callback is None ==> old(self).unread < usize::MAX,
        ensures
            match old(self).callback {
                Some(callback) => {
                    &&& r == Some(CallOut { callback, user_data: old(self).user_data, count: 1 })
                    &&& *final(self) == *old(self)
                },
                None => {
                    &&& r is None
                    &&& *final(self) == CallbackSlot {
                        unread: (old(self).unread + 1) as usize,
                        ..*old(self)
                    }
                },
            },
    {
        match self.callback {
            Some(callback) => Some(CallOut { callback, user_data: self.user_data, count: 1 }),
            None => {
                self.unread = self.unread + 1;
                None
            },
        }
    }

    fn store(&mut self, callback: Option<F>, stored: usize, user_data: usize) -> (r: Option<
        CallOut<F>,
    >)
        ensures
            r == late_call(callback, user_data, old(self).unread),
            *final(self) == (CallbackSlot {
                callback,
                user_data: stored,
                unread: if callback is Some {
                    0
                } else {
                    old(self).unread
                },
            }),
    {
        let n: usize = self.unread;
        self.callback = callback;
        self.user_data = stored;
        match callback {
            Some(f) => {
                self.unread = 0;
                if n > 0 {
                    Some(CallOut { callback: f, user_data, count: n })
                } else {
                    None
                }
            },
            None => None,
        }
    }

    /// Sets or clears the callback of a subscription; the call to be made for what
    /// arrived before.
    pub fn set_subscription_callback_core(&mut self, callback: Option<F>, user_data: usize) -> (r:
        Option<CallOut<F>>)
        ensures
            r == late_call(callback, user_data, old(self).unread),
            *final(self) == (CallbackSlot {
                callback,
                user_data,
                unread: if callback is Some {
                    0
                } else {
                    old(self).unread
                },
            }),
    {
        self.store(callback, user_data, user_data)
    }

    /// Sets or clears the callback of a service; the call to be made for what
    /// arrived before. Clearing it forgets what it wanted back.
    pub fn set_service_callback_core(&mut self, callback: Option<F>, user_data: usize) -> (r:
        Option<CallOut<F>>)
        ensures
            r == late_call(callback, user_data, old(self).unread),
            *final(self) == (CallbackSlot {
                callback,
                user_data: if callback is Some {
                    user_data
                } else {
                    0
                },
                unread: if callback is Some {
                    0
                } else {
                    old(self).unread
                },
            }),
    {
        let stored: usize = if callback.is_some() {
            user_data
        } else {
            0
        };
        self.store(callback, stored, user_data)
    }

    /// Sets or clears the callback of a client, as that of a service.
    pub fn set_client_callback_core(&mut self, callback: Option<F>, user_data: usize) -> (r: Option<
        CallOut<F>,
    >)
        ensures
            r == late_call(callback, user_data, old(self).unread),
            *final(self) == (CallbackSlot {
                callback,
                user_data: if callback is Some {
                    user_data
                } else {
                    0
                },
                unread: if callback is Some {
                    0
                } else {
                    old(self).unread
                },
            }),
    {
        self.set_service_callback_core(callback, user_data)
    }
}

/// Nothing that arrives is lost: what is told now and what is counted for later is
/// what was counted before.
pub proof fn late_calls_tell_of_everything<F>(
    callback: Option<F>,
    user_data: usize,
    unread: usize,
)
    ensures
        (match late_call(callback, user_data, unread) {
            Some(call) => call.count as int,
            None => 0,
        }) + (if callback is Some {
            0
        } else {
            unread as int
        }) == unread,
{
}

/// A callback that is set is called with its own data for what arrived before, if
/// anything did, and for as many.
pub proof fn late_calls_are_those_of_the_callback<F>(f: F, user_data: usize, unread: usize)
    ensures
        late_call(Some(f), user_data, unread) is Some <==> unread > 0,
        late_call(Some(f), user_data, unread) matches Some(call) ==> call.callback == f
            && call.user_data == user_data && call.count == unread,
        late_call(None::<F>, user_data, unread) is None,
{
}

/// One item that arrives is told at once where there is a callback and counted
/// otherwise; a callback that is set is told of what was counted.
pub proof fn items_are_told_or_counted<F: Copy>(
    slot: &mut CallbackSlot<F>,
    r: Option<CallOut<F>>,
    callback: Option<F>,
    user_data: usize,
    late: Option<CallOut<F>>,
)
    requires
        old(slot).unread < usize::MAX,
    ensures
        call_ensures(CallbackSlot::<F>::notify, (slot,), r) ==> {
            &&& r is Some <==> old(slot).callback is Some
            &&& r matches Some(call) ==> call.count == 1 && Some(call.callback) == old(
                slot,
            ).callback && call.user_data == old(slot).user_data && final(slot).unread == old(
                slot,
            ).unread
            &&& r is None ==> final(slot).unread == old(slot).unread + 1
        },
        call_ensures(
            CallbackSlot::<F>::set_subscription_callback_core,
            (slot, callback, user_data),
            late,
        ) ==> {
            &&& final(slot).callback == callback
            &&& late is Some <==> callback is Some && old(slot).unread > 0
            &&& late matches Some(call) ==> call.count == old(slot).unread && Some(call.callback)
                == callback && call.user_data == user_data
            &&& final(slot).unread == (if callback is Some {
                0int
            } else {
                old(slot).unread as int
            })
        },
{
}

} // verus!
