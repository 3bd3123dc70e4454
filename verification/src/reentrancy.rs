//! The rule that no user callback runs while a lock is held.
//!
//! A callback that runs under a lock and comes back to the library waits for a
//! lock that its own thread holds. So each thread counts the guards that it
//! holds, and before user code runs the count must be zero. The counter is
//! handed to each operation; blocking until another thread releases a lock is
//! the caller's work.

use crate::text::{decimal, decimal_text, join3};
use vstd::prelude::*;

verus! {

/// The guards that one thread holds.
#[derive(Debug)]
pub struct LiveGuards {
    pub live: usize,
}

/// A guard was released that was not counted: the count no longer follows the
/// guards.
#[derive(Debug, PartialEq, Eq)]
pub struct GuardUnderflow {
    pub message: String,
}

pub open spec fn underflow_text() -> Seq<char> {
    "hiroz GuardCount underflow: guard released with the live count already 0. The counter has desynced from the guards it tracks, so `assert_no_guards_held` can no longer detect a callback invoked under a lock."@
}

impl LiveGuards {
    /// A thread that holds no guard.
    pub fn new() -> (r: Self)
        ensures
            r.live == 0,
    {
        LiveGuards { live: 0 }
    }

    /// One guard less, where one was counted.
    pub fn release_one(&mut self) -> (r: Result<(), GuardUnderflow>)
        ensures
            match r {
                Ok(()) => old(self).live > 0 && final(self).live == old(self).live - 1,
                Err(e) => old(self).live == 0 && final(self).live == 0 && e.message@
                    == underflow_text(),
            },
    {
        if self.live == 0 {
            return Err(
                GuardUnderflow {
                    message:
                        "hiroz GuardCount underflow: guard released with the live count already 0. The counter has desynced from the guards it tracks, so `assert_no_guards_held` can no longer detect a callback invoked under a lock.".to_owned(),
                },
            );
        }
        self.live = self.live - 1;
        Ok(())
    }
}

/// How many guards a thread holds.
pub fn live_guards(guards: &LiveGuards) -> (r: usize)
    ensures
        r == guards.live,
{
    guards.live
}

/// One guard in a thread's count. Only the locks of this module make one.
#[derive(Debug)]
pub struct GuardCount {
    counted: bool,
}

impl GuardCount {
    fn new(guards: &mut LiveGuards) -> (r: Self)
        requires
            old(guards).live < usize::MAX,
        ensures
            final(guards).live == old(guards).live + 1,
    {
        guards.live = guards.live + 1;
        GuardCount { counted: true }
    }

    /// Takes this guard out of the count.
    pub fn release(self, guards: &mut LiveGuards) -> (r: Result<(), GuardUnderflow>)
        ensures
            match r {
                Ok(()) => old(guards).live > 0 && final(guards).live == old(guards).live - 1,
                Err(e) => old(guards).live == 0 && final(guards).live == 0 && e.message@
                    == underflow_text(),
            },
    {
        guards.release_one()
    }
}

/// User code was about to run under a lock.
#[derive(Debug, PartialEq, Eq)]
#[non_exhaustive]
pub struct ReentrancyViolation {
    pub message: String,
}

/// What a violation of the rule says to the user.
pub open spec fn violation_text(site: Seq<char>, live: nat) -> Seq<char> {
    "hiroz re-entrancy rule violated at `"@ + site + ("`: about to invoke a user callback with "@
        + decimal(live)
        + " lock guard(s) live on this thread. A callback that re-enters hiroz will deadlock if it touches a lock this thread holds. Fix: collect what you need into an owned value, drop every guard, then invoke the callback."@)
}

/// Checks that user code may run at `site`: the thread holds no guard.
pub fn assert_no_guards_held(guards: &LiveGuards, site: &str) -> (r: Result<
    (),
    ReentrancyViolation,
>)
    ensures
        match r {
            Ok(()) => guards.live == 0,
            Err(e) => guards.live > 0 && e.message@ == violation_text(site@, guards.live as nat),
        },
{
    if guards.live == 0 {
        return Ok(());
    }
    let rest: String = join3(
        "`: about to invoke a user callback with ",
        &decimal_text(guards.live as u64),
        " lock guard(s) live on this thread. A callback that re-enters hiroz will deadlock if it touches a lock this thread holds. Fix: collect what you need into an owned value, drop every guard, then invoke the callback.",
    );
    Err(ReentrancyViolation { message: join3("hiroz re-entrancy rule violated at `", site, &rest) })
}

/// A guard of a lock whose last holder panicked.
#[derive(Debug)]
pub struct Poisoned<G> {
    pub guard: G,
}

impl<G> Poisoned<G> {
    /// The guard, in spite of the panic.
    pub fn into_inner(self) -> (r: G)
        ensures
            r == self.guard,
    {
        self.guard
    }
}

/// A mutex whose guards are counted.
#[derive(Debug)]
pub struct TrackedMutex<T> {
    pub value: T,
    /// Whether a holder panicked.
    pub poisoned: bool,
}

/// A guard of a [`TrackedMutex`].
#[derive(Debug)]
pub struct TrackedMutexGuard<'a, T> {
    pub inner: &'a mut T,
    pub count: GuardCount,
}

impl<T> TrackedMutex<T> {
    pub fn new(value: T) -> (r: Self)
        ensures
            r.value == value,
            !r.poisoned,
    {
        TrackedMutex { value, poisoned: false }
    }

    /// Locks the mutex. A guard counts also where a holder panicked.
    pub fn lock<'a>(&'a mut self, guards: &mut LiveGuards) -> (r: Result<
        TrackedMutexGuard<'a, T>,
        Poisoned<TrackedMutexGuard<'a, T>>,
    >)
        requires
            old(guards).live < usize::MAX,
        ensures
            final(guards).live == old(guards).live + 1,
            final(self).poisoned == old(self).poisoned,
            match r {
                Ok(g) => {
                    &&& !old(self).poisoned
                    &&& *g.inner == old(self).value
                    &&& final(self).value == *final(g.inner)
                },
                Err(e) => {
                    &&& old(self).poisoned
                    &&& *e.guard.inner == old(self).value
                    &&& final(self).value == *final(e.guard.inner)
                },
            },
    {
        let count = GuardCount::new(guards);
        if self.poisoned {
            Err(Poisoned { guard: TrackedMutexGuard { inner: &mut self.value, count } })
        } else {
            Ok(TrackedMutexGuard { inner: &mut self.value, count })
        }
    }
}

impl<'a, T> TrackedMutexGuard<'a, T> {
    pub fn get(&self) -> (r: &T)
        ensures
            *r == *old(self.inner),
    {
        &*self.inner
    }

    /// Unlocks the mutex and takes the guard out of the count.
    pub fn release(self, guards: &mut LiveGuards) -> (r: Result<(), GuardUnderflow>)
        ensures
            match r {
                Ok(()) => old(guards).live > 0 && final(guards).live == old(guards).live - 1,
                Err(e) => old(guards).live == 0 && final(guards).live == 0 && e.message@
                    == underflow_text(),
            },
            *final(self.inner) == *old(self.inner),
    {
        self.count.release(guards)
    }
}

/// A lock for many readers or one writer whose guards are counted.
#[derive(Debug)]
pub struct TrackedRwLock<T> {
    pub value: T,
    /// Whether a writer panicked.
    pub poisoned: bool,
}

/// A reader's guard of a [`TrackedRwLock`].
#[derive(Debug)]
pub struct TrackedReadGuard<'a, T> {
    pub inner: &'a T,
    pub count: GuardCount,
}

/// A writer's guard of a [`TrackedRwLock`].
#[derive(Debug)]
pub struct TrackedWriteGuard<'a, T> {
    pub inner: &'a mut T,
    pub count: GuardCount,
}

impl<T> TrackedRwLock<T> {
    pub fn new(value: T) -> (r: Self)
        ensures
            r.value == value,
            !r.poisoned,
    {
        TrackedRwLock { value, poisoned: false }
    }

    /// Locks for reading. A guard counts also where a writer panicked.
    pub fn read<'a>(&'a self, guards: &mut LiveGuards) -> (r: Result<
        TrackedReadGuard<'a, T>,
        Poisoned<TrackedReadGuard<'a, T>>,
    >)
        requires
            old(guards).live < usize::MAX,
        ensures
            final(guards).live == old(guards).live + 1,
            match r {
                Ok(g) => !self.poisoned && *g.inner == self.value,
                Err(e) => self.poisoned && *e.guard.inner == self.value,
            },
    {
        let count = GuardCount::new(guards);
        if self.poisoned {
            Err(Poisoned { guard: TrackedReadGuard { inner: &self.value, count } })
        } else {
            Ok(TrackedReadGuard { inner: &self.value, count })
        }
    }

    /// Locks for writing. A guard counts also where a writer panicked.
    pub fn write<'a>(&'a mut self, guards: &mut LiveGuards) -> (r: Result<
        TrackedWriteGuard<'a, T>,
        Poisoned<TrackedWriteGuard<'a, T>>,
    >)
        requires
            old(guards).live < usize::MAX,
        ensures
            final(guards).live == old(guards).live + 1,
            final(self).poisoned == old(self).poisoned,
            match r {
                Ok(g) => {
                    &&& !old(self).poisoned
                    &&& *g.inner == old(self).value
                    &&& final(self).value == *final(g.inner)
                },
                Err(e) => {
                    &&& old(self).poisoned
                    &&& *e.guard.inner == old(self).value
                    &&& final(self).value == *final(e.guard.inner)
                },
            },
    {
        let count = GuardCount::new(guards);
        if self.poisoned {
            Err(Poisoned { guard: TrackedWriteGuard { inner: &mut self.value, count } })
        } else {
            Ok(TrackedWriteGuard { inner: &mut self.value, count })
        }
    }
}

impl<'a, T> TrackedReadGuard<'a, T> {
    pub fn get(&self) -> (r: &T)
        ensures
            *r == *self.inner,
    {
        self.inner
    }

    /// Unlocks and takes the guard out of the count.
    pub fn release(self, guards: &mut LiveGuards) -> (r: Result<(), GuardUnderflow>)
        ensures
            match r {
                Ok(()) => old(guards).live > 0 && final(guards).live == old(guards).live - 1,
                Err(e) => old(guards).live == 0 && final(guards).live == 0 && e.message@
                    == underflow_text(),
            },
    {
        self.count.release(guards)
    }
}

impl<'a, T> TrackedWriteGuard<'a, T> {
    pub fn get(&self) -> (r: &T)
        ensures
            *r == *old(self.inner),
    {
        &*self.inner
    }

    /// Unlocks and takes the guard out of the count.
    pub fn release(self, guards: &mut LiveGuards) -> (r: Result<(), GuardUnderflow>)
        ensures
            match r {
                Ok(()) => old(guards).live > 0 && final(guards).live == old(guards).live - 1,
                Err(e) => old(guards).live == 0 && final(guards).live == 0 && e.message@
                    == underflow_text(),
            },
            *final(self.inner) == *old(self.inner),
    {
        self.count.release(guards)
    }
}

/// User code may run just where the thread holds no guard, and each guard that is
/// released is counted once.
pub proof fn user_code_runs_without_guards(
    guards: &mut LiveGuards,
    site: &str,
    r: Result<(), ReentrancyViolation>,
    released: Result<(), GuardUnderflow>,
)
    ensures
        call_ensures(assert_no_guards_held, (&*old(guards), site), r) ==> (r is Ok <==> old(
            guards,
        ).live == 0),
        call_ensures(LiveGuards::release_one, (guards,), released) ==> {
            &&& released is Ok <==> old(guards).live > 0
            &&& released is Ok ==> final(guards).live + 1 == old(guards).live
            &&& released is Err ==> final(guards).live == 0
        },
{
}

} // verus!
