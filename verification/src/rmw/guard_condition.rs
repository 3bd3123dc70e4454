//! Guard conditions, by which a wait is ended from outside.

use crate::shared::share;
use std::sync::Arc;
use vstd::prelude::*;

verus! {

/// Whether a guard condition is triggered, and who is told. `N` wakes those who
/// wait.
#[derive(Debug)]
pub struct GuardConditionState<N> {
    pub notifier: Option<Arc<N>>,
    pub triggered: bool,
}

impl<N> GuardConditionState<N> {
    /// Triggers the condition; returns whom to notify. One that nobody waits on
    /// cannot be triggered.
    pub fn fire(&mut self) -> (r: Result<Arc<N>, ()>)
        ensures
            final(self).notifier == old(self).notifier,
            match r {
                Ok(n) => old(self).notifier == Some(n) && final(self).triggered,
                Err(_) => old(self).notifier is None && final(self).triggered
                    == old(self).triggered,
            },
    {
        match &self.notifier {
            Some(n) => {
                let notifier = share(n);
                self.triggered = true;
                Ok(notifier)
            },
            None => Err(()),
        }
    }

    pub fn reset(&mut self)
        ensures
            *final(self) == (GuardConditionState { triggered: false, ..*old(self) }),
    {
        self.triggered = false;
    }

    pub fn is_triggered(&self) -> (r: bool)
        ensures
            r == self.triggered,
    {
        self.triggered
    }
}

/// A guard condition.
#[derive(Debug)]
pub struct GuardConditionImpl<N> {
    pub state: GuardConditionState<N>,
}

impl<N> GuardConditionImpl<N> {
    /// A condition that is not triggered.
    pub fn new(notifier: Option<Arc<N>>) -> (r: Self)
        ensures
            r.state == (GuardConditionState { notifier, triggered: false }),
    {
        GuardConditionImpl { state: GuardConditionState { notifier, triggered: false } }
    }

    /// Triggers the condition; returns whom to notify.
    pub fn trigger(&mut self) -> (r: Result<Arc<N>, ()>)
        ensures
            final(self).state.notifier == old(self).state.notifier,
            match r {
                Ok(n) => old(self).state.notifier == Some(n) && final(self).state.triggered,
                Err(_) => old(self).state.notifier is None && final(self).state.triggered
                    == old(self).state.triggered,
            },
    {
        self.state.fire()
    }

    pub fn reset(&mut self)
        ensures
            final(self).state == (GuardConditionState { triggered: false, ..old(self).state }),
    {
        self.state.reset();
    }

    /// Whether a wait on the condition may end.
    pub fn is_ready(&self) -> (r: bool)
        ensures
            r == self.state.triggered,
    {
        self.state.is_triggered()
    }
}

/// A condition that was triggered is ready until it is reset; one that nobody waits
/// on cannot be triggered.
pub proof fn triggered_conditions_are_ready<N>(
    first: &mut GuardConditionImpl<N>,
    second: &mut GuardConditionImpl<N>,
    r: Result<Arc<N>, ()>,
    before: bool,
    after: bool,
)
    requires
        *final(first) == *old(second),
        call_ensures(GuardConditionImpl::<N>::trigger, (first,), r),
        call_ensures(GuardConditionImpl::<N>::is_ready, (&*old(second),), before),
        call_ensures(GuardConditionImpl::<N>::reset, (second,), ()),
        call_ensures(GuardConditionImpl::<N>::is_ready, (&*final(second),), after),
    ensures
        r is Ok <==> old(first).state.notifier is Some,
        r matches Ok(n) ==> old(first).state.notifier == Some(n),
        r is Ok ==> before,
        r is Err ==> before == old(first).state.triggered,
        !after,
        final(second).state.notifier == old(first).state.notifier,
{
}

} // verus!
