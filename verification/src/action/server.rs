//! The goals of an action server.
//!
//! The server decides; its caller talks to clients. Each operation returns what
//! is owed: answers to requests, results for those who wait, and the status to
//! publish.

use crate::action::types::{
    active, expiry, no_time, not_later, rejection, status_code, status_of,
    CancelGoalServiceResponse, FeedbackMessage, GetResultResponse, GoalId, GoalInfo, GoalResponse,
    GoalStatus, GoalStatusInfo, ServerGoalState, StatusMessage, Time,
};
use crate::shared::share;
use std::marker::PhantomData;
use std::sync::Arc;
use vstd::prelude::*;

verus! {

/// A goal and its state.
#[derive(Debug)]
pub struct GoalEntry<G, R> {
    pub id: GoalId,
    pub state: ServerGoalState<G, R>,
}

/// A request that waits for the result of a goal.
#[derive(Debug, Clone, Copy, PartialEq, Eq, Structural)]
pub struct Waiter {
    pub goal_id: GoalId,
    /// The number that the caller knows the request by.
    pub request: u64,
}

/// A result for a request that waited.
#[derive(Debug)]
pub struct ResultReply<R> {
    pub request: u64,
    pub response: GetResultResponse<R>,
}

/// What an operation owes: results for those who wait, and then the status.
#[must_use]
#[derive(Debug)]
pub struct Owed<R> {
    pub replies: Vec<ResultReply<R>>,
    pub status: Option<StatusMessage>,
}

/// The goals of an action server.
#[derive(Debug)]
pub struct ZActionServer<G, R> {
    pub goals: Vec<GoalEntry<G, R>>,
    pub waiters: Vec<Waiter>,
    /// Whether cancellation was requested, by the number of each goal's flag.
    pub cancel_flags: Vec<bool>,
    /// How long a result is kept, in nanoseconds.
    pub result_timeout: u128,
    /// How long a goal may take, in nanoseconds.
    pub goal_timeout: Option<u128>,
    /// The result of goals that end without one.
    pub default_result: Arc<R>,
}

/// The index of the goal `id`, or the number of goals.
pub open spec fn goal_index<G, R>(goals: Seq<GoalEntry<G, R>>, id: GoalId) -> nat
    decreases goals.len(),
{
    if goals.len() == 0 || goals[0].id == id {
        0
    } else {
        1 + goal_index(goals.skip(1), id)
    }
}

/// The status of each goal.
pub open spec fn status_list<G, R>(goals: Seq<GoalEntry<G, R>>) -> Seq<GoalStatusInfo> {
    Seq::new(
        goals.len(),
        |i: int|
            GoalStatusInfo {
                goal_info: GoalInfo { goal_id: goals[i].id, stamp: status_of(goals[i].state).1 },
                status: status_of(goals[i].state).0,
            },
    )
}

/// Those who wait for goal `id`, in order.
pub open spec fn waiting_for(waiters: Seq<Waiter>, id: GoalId) -> Seq<u64>
    decreases waiters.len(),
{
    if waiters.len() == 0 {
        Seq::empty()
    } else if waiters.last().goal_id == id {
        waiting_for(waiters.drop_last(), id).push(waiters.last().request)
    } else {
        waiting_for(waiters.drop_last(), id)
    }
}

/// Those who wait for another goal, in order.
pub open spec fn waiting_for_others(waiters: Seq<Waiter>, id: GoalId) -> Seq<Waiter>
    decreases waiters.len(),
{
    if waiters.len() == 0 {
        Seq::empty()
    } else if waiters.last().goal_id == id {
        waiting_for_others(waiters.drop_last(), id)
    } else {
        waiting_for_others(waiters.drop_last(), id).push(waiters.last())
    }
}

/// Whether `replies` give each of `requests` the same result.
pub open spec fn answers<R>(
    replies: Seq<ResultReply<R>>,
    requests: Seq<u64>,
    result: Arc<R>,
    status: GoalStatus,
) -> bool {
    &&& replies.len() == requests.len()
    &&& forall|i: int|
        0 <= i < replies.len() ==> {
            &&& (#[trigger] replies[i]).request == requests[i]
            &&& replies[i].response.status == status_code(status)
            &&& replies[i].response.result == result
        }
}

/// Whether `owed` publishes the status of `goals`.
pub open spec fn publishes<G, R>(status: Option<StatusMessage>, goals: Seq<GoalEntry<G, R>>) -> bool {
    status matches Some(m) && m.status_list@ == status_list(goals)
}

/// Whether a request to cancel selects a goal: one that is accepted or executing
/// and is named, or was accepted not later than the time asked for, or any where
/// neither is given.
pub open spec fn selected<G, R>(e: GoalEntry<G, R>, requested: GoalInfo) -> bool {
    let specific = requested.goal_id.uuid != 0;
    let timed = requested.stamp != no_time();
    &&& e.state is Accepted || e.state is Executing
    &&& !specific && !timed || specific && e.id == requested.goal_id || timed && not_later(
        status_of(e.state).1,
        requested.stamp,
    )
}

/// The number of the cancel flag of an active goal.
pub open spec fn flag_of<G, R>(s: ServerGoalState<G, R>) -> usize {
    match s {
        ServerGoalState::Accepted { cancel_flag, .. } => cancel_flag,
        ServerGoalState::Executing { cancel_flag, .. } => cancel_flag,
        ServerGoalState::Canceling { cancel_flag, .. } => cancel_flag,
        ServerGoalState::Terminated { .. } => 0,
    }
}

/// The state of a goal that is to be canceled.
pub open spec fn canceling<G, R>(s: ServerGoalState<G, R>) -> ServerGoalState<G, R> {
    match s {
        ServerGoalState::Accepted { goal, cancel_flag, accepted_at, expires_at } => {
            ServerGoalState::Canceling { goal, cancel_flag, accepted_at, expires_at }
        },
        ServerGoalState::Executing { goal, cancel_flag, accepted_at, expires_at } => {
            ServerGoalState::Canceling { goal, cancel_flag, accepted_at, expires_at }
        },
        other => other,
    }
}

/// The goals after a request to cancel.
pub open spec fn goals_after_cancel<G, R>(
    goals: Seq<GoalEntry<G, R>>,
    requested: GoalInfo,
) -> Seq<GoalEntry<G, R>> {
    Seq::new(
        goals.len(),
        |i: int|
            if selected(goals[i], requested) {
                GoalEntry { id: goals[i].id, state: canceling(goals[i].state) }
            } else {
                goals[i]
            },
    )
}

/// The goals that a request to cancel selects among the first `n`.
pub open spec fn cancel_list<G, R>(
    goals: Seq<GoalEntry<G, R>>,
    requested: GoalInfo,
    n: nat,
) -> Seq<GoalInfo>
    decreases n,
{
    if n == 0 || n > goals.len() {
        Seq::empty()
    } else {
        let before = cancel_list(goals, requested, (n - 1) as nat);
        if selected(goals[n - 1], requested) {
            before.push(
                GoalInfo { goal_id: goals[n - 1].id, stamp: status_of(goals[n - 1].state).1 },
            )
        } else {
            before
        }
    }
}

/// The cancel flags after a request to cancel reached the first `n` goals.
pub open spec fn flags_after_cancel<G, R>(
    goals: Seq<GoalEntry<G, R>>,
    flags: Seq<bool>,
    requested: GoalInfo,
    n: nat,
) -> Seq<bool>
    decreases n,
{
    if n == 0 || n > goals.len() {
        flags
    } else {
        let before = flags_after_cancel(goals, flags, requested, (n - 1) as nat);
        if selected(goals[n - 1], requested) {
            before.update(flag_of(goals[n - 1].state) as int, true)
        } else {
            before
        }
    }
}

/// The return code of a request to cancel: 0 where a goal is canceled or none was
/// named, 2 where the named goal is unknown, 3 where it has ended, and 1 where it
/// cannot be canceled.
pub open spec fn cancel_code<G, R>(goals: Seq<GoalEntry<G, R>>, requested: GoalInfo) -> i8 {
    let i = goal_index(goals, requested.goal_id) as int;
    if cancel_list(goals, requested, goals.len()).len() > 0 || requested.goal_id.uuid == 0 {
        0
    } else if i >= goals.len() {
        2
    } else if active(goals[i].state) {
        1
    } else {
        3
    }
}

/// Whether a goal is forgotten at time `now`.
pub open spec fn is_expired<G, R>(e: GoalEntry<G, R>, now: u128) -> bool {
    expiry(e.state) matches Some(t) && now >= t
}

/// The goals among the first `n` that are kept at time `now`.
pub open spec fn kept_goals<G, R>(goals: Seq<GoalEntry<G, R>>, now: u128, n: nat) -> Seq<
    GoalEntry<G, R>,
>
    decreases n,
{
    if n == 0 || n > goals.len() {
        Seq::empty()
    } else if is_expired(goals[n - 1], now) {
        kept_goals(goals, now, (n - 1) as nat)
    } else {
        kept_goals(goals, now, (n - 1) as nat).push(goals[n - 1])
    }
}

/// The goals among the first `n` that are forgotten at time `now`.
pub open spec fn expired_ids<G, R>(goals: Seq<GoalEntry<G, R>>, now: u128, n: nat) -> Seq<GoalId>
    decreases n,
{
    if n == 0 || n > goals.len() {
        Seq::empty()
    } else if is_expired(goals[n - 1], now) {
        expired_ids(goals, now, (n - 1) as nat).push(goals[n - 1].id)
    } else {
        expired_ids(goals, now, (n - 1) as nat)
    }
}

/// Those who wait for one of `ids`: first those for the first, and so on.
pub open spec fn waiting_for_each(waiters: Seq<Waiter>, ids: Seq<GoalId>) -> Seq<u64>
    decreases ids.len(),
{
    if ids.len() == 0 {
        Seq::empty()
    } else {
        waiting_for_each(waiters, ids.drop_last()) + waiting_for(
            waiting_for_none(waiters, ids.drop_last()),
            ids.last(),
        )
    }
}

/// Those who wait for none of `ids`.
pub open spec fn waiting_for_none(waiters: Seq<Waiter>, ids: Seq<GoalId>) -> Seq<Waiter>
    decreases ids.len(),
{
    if ids.len() == 0 {
        waiters
    } else {
        waiting_for_others(waiting_for_none(waiters, ids.drop_last()), ids.last())
    }
}

/// The state of a goal in state `s` that ends at time `now`.
pub open spec fn ended<G, R>(
    s: ServerGoalState<G, R>,
    result: Arc<R>,
    status: GoalStatus,
    now: u128,
    timeout: u128,
) -> ServerGoalState<G, R> {
    ServerGoalState::Terminated {
        result,
        status,
        accepted_at: status_of(s).1,
        timestamp: now,
        expires_at: Some((now + timeout) as u128),
    }
}

fn replies_for<R>(requests: &Vec<u64>, result: &Arc<R>, status: GoalStatus) -> (r: Vec<
    ResultReply<R>,
>)
    ensures
        answers(r@, requests@, *result, status),
{
    let mut r: Vec<ResultReply<R>> = Vec::new();
    let mut i: usize = 0;
    while i < requests.len()
        invariant
            i <= requests@.len(),
            r@.len() == i,
            forall|j: int|
                0 <= j < r@.len() ==> {
                    &&& (#[trigger] r@[j]).request == requests@[j]
                    &&& r@[j].response.status == status_code(status)
                    &&& r@[j].response.result == *result
                },
        decreases requests@.len() - i,
    {
        r.push(
            ResultReply {
                request: requests[i],
                response: GetResultResponse { status: status.code(), result: share(result) },
            },
        );
        i = i + 1;
    }
    r
}

impl<G, R> ZActionServer<G, R> {
    /// Whether no goal is entered twice and each active goal has a cancel flag.
    pub open spec fn wf(&self) -> bool {
        &&& forall|i: int, j: int|
            0 <= i < j < self.goals@.len() ==> (#[trigger] self.goals@[i]).id != (
            #[trigger] self.goals@[j]).id
        &&& forall|i: int|
            0 <= i < self.goals@.len() && active((#[trigger] self.goals@[i]).state) ==> flag_of(
                self.goals@[i].state,
            ) < self.cancel_flags@.len()
    }

    /// Whether the settings of `after` are those of this server.
    pub open spec fn same_settings(&self, after: &Self) -> bool {
        &&& after.result_timeout == self.result_timeout
        &&& after.goal_timeout == self.goal_timeout
        &&& after.default_result == self.default_result
    }

    /// The state of goal `id`.
    pub open spec fn state_of(&self, id: GoalId) -> Option<ServerGoalState<G, R>> {
        let i = goal_index(self.goals@, id);
        if i < self.goals@.len() {
            Some(self.goals@[i as int].state)
        } else {
            None
        }
    }

    /// A server without goals.
    pub fn new(result_timeout: u128, goal_timeout: Option<u128>, default_result: Arc<R>) -> (r:
        Self)
        ensures
            r.wf(),
            r.goals@.len() == 0,
            r.waiters@.len() == 0,
            r.cancel_flags@.len() == 0,
            r.result_timeout == result_timeout,
            r.goal_timeout == goal_timeout,
            r.default_result == default_result,
    {
        ZActionServer {
            goals: Vec::new(),
            waiters: Vec::new(),
            cancel_flags: Vec::new(),
            result_timeout,
            goal_timeout,
            default_result,
        }
    }

    /// The entry of goal `id`.
    pub(crate) fn find(&self, id: GoalId) -> (r: Option<usize>)
        ensures
            match r {
                Some(i) => i < self.goals@.len() && i == goal_index(self.goals@, id)
                    && self.goals@[i as int].id == id,
                None => goal_index(self.goals@, id) == self.goals@.len(),
            },
    {
        let ghost goals = self.goals@;
        let mut i: usize = 0;
        assert(goals.skip(0) =~= goals);
        while i < self.goals.len()
            invariant
                i <= self.goals@.len(),
                goals == self.goals@,
                goal_index(goals, id) == i + goal_index(goals.skip(i as int), id),
            decreases self.goals@.len() - i,
        {
            assert(goals.skip(i as int)[0] == goals[i as int]);
            if self.goals[i].id == id {
                return Some(i);
            }
            assert(goals.skip(i as int).skip(1) =~= goals.skip(i + 1));
            i = i + 1;
        }
        None
    }

    /// The status of all goals, to be published.
    pub fn publish_status(&self) -> (r: StatusMessage)
        ensures
            r.status_list@ == status_list(self.goals@),
    {
        let mut list: Vec<GoalStatusInfo> = Vec::new();
        let mut i: usize = 0;
        while i < self.goals.len()
            invariant
                i <= self.goals@.len(),
                list@ == status_list(self.goals@.take(i as int)),
            decreases self.goals@.len() - i,
        {
            let (status, stamp) = self.goals[i].state.status();
            list.push(
                GoalStatusInfo {
                    goal_info: GoalInfo { goal_id: self.goals[i].id, stamp },
                    status,
                },
            );
            i = i + 1;
            assert(list@ =~= status_list(self.goals@.take(i as int)));
        }
        assert(self.goals@.take(i as int) =~= self.goals@);
        StatusMessage { status_list: list }
    }

    /// Marks the goals that a request selects as canceling and raises their
    /// flags; the status is owed where there are any.
    pub fn process_cancel_request(&mut self, requested: &GoalInfo) -> (r: (
        CancelGoalServiceResponse,
        Option<StatusMessage>,
    ))
        requires
            old(self).wf(),
        ensures
            final(self).wf(),
            final(self).goals@ == goals_after_cancel(old(self).goals@, *requested),
            final(self).cancel_flags@ == flags_after_cancel(
                old(self).goals@,
                old(self).cancel_flags@,
                *requested,
                old(self).goals@.len(),
            ),
            final(self).waiters == old(self).waiters,
            old(self).same_settings(final(self)),
            r.0.goals_canceling@ == cancel_list(
                old(self).goals@,
                *requested,
                old(self).goals@.len(),
            ),
            r.0.return_code == cancel_code(old(self).goals@, *requested),
            if r.0.goals_canceling@.len() > 0 {
                publishes(r.1, final(self).goals@)
            } else {
                r.1 is None
            },
    {
        let ghost goals = self.goals@;
        let ghost flags = self.cancel_flags@;
        let specific: bool = requested.goal_id.is_valid();
        let timed: bool = requested.stamp != Time::zero();
        let ended: Option<bool> = match self.find(requested.goal_id) {
            Some(i) => Some(!self.goals[i].state.is_active()),
            None => None,
        };
        let mut goals_canceling: Vec<GoalInfo> = Vec::new();
        let mut i: usize = 0;
        while i < self.goals.len()
            invariant
                i <= self.goals@.len(),
                self.goals@.len() == goals.len(),
                specific == (requested.goal_id.uuid != 0),
                timed == (requested.stamp != no_time()),
                old(self).goals@ == goals,
                old(self).cancel_flags@ == flags,
                old(self).wf(),
                self.waiters == old(self).waiters,
                old(self).same_settings(&*self),
                forall|j: int|
                    0 <= j < goals.len() ==> #[trigger] self.goals@[j] == (if j < i {
                        goals_after_cancel(goals, *requested)[j]
                    } else {
                        goals[j]
                    }),
                self.cancel_flags@.len() == flags.len(),
                self.cancel_flags@ == flags_after_cancel(goals, flags, *requested, i as nat),
                goals_canceling@ == cancel_list(goals, *requested, i as nat),
            decreases self.goals@.len() - i,
        {
            assert(self.goals@[i as int] == goals[i as int]);
            let id: GoalId = self.goals[i].id;
            let (goal, cancel_flag, accepted_at, expires_at) = match &self.goals[i].state {
                ServerGoalState::Accepted { goal, cancel_flag, accepted_at, expires_at } => {
                    (share(goal), *cancel_flag, *accepted_at, *expires_at)
                },
                ServerGoalState::Executing { goal, cancel_flag, accepted_at, expires_at } => {
                    (share(goal), *cancel_flag, *accepted_at, *expires_at)
                },
                _ => {
                    assert(!selected(goals[i as int], *requested));
                    i = i + 1;
                    continue;
                },
            };
            let by_id: bool = specific && id == requested.goal_id;
            let by_time: bool = timed && accepted_at.at_or_before(&requested.stamp);
            if !specific && !timed || by_id || by_time {
                self.cancel_flags.set(cancel_flag, true);
                let state = ServerGoalState::Canceling {
                    goal,
                    cancel_flag,
                    accepted_at,
                    expires_at,
                };
                self.goals.set(i, GoalEntry { id, state });
                goals_canceling.push(GoalInfo { goal_id: id, stamp: accepted_at });
            }
            i = i + 1;
        }
        assert(self.goals@ =~= goals_after_cancel(goals, *requested));
        let some: bool = goals_canceling.len() > 0;
        let status: Option<StatusMessage> = if some { Some(self.publish_status()) } else { None };
        let return_code: i8 = if some || !specific {
            0
        } else {
            match ended {
                Some(true) => 3,
                Some(false) => 1,
                None => 2,
            }
        };
        proof {
            assert forall|i: int|
                0 <= i < self.goals@.len() && active((#[trigger] self.goals@[i]).state) implies flag_of(
                self.goals@[i].state,
            ) < self.cancel_flags@.len() by {
                assert(active(goals[i].state));
            }
            assert forall|i: int, j: int| 0 <= i < j < self.goals@.len() implies (
            #[trigger] self.goals@[i]).id != (#[trigger] self.goals@[j]).id by {
                assert(goals[i].id != goals[j].id);
            }
        }
        (CancelGoalServiceResponse { return_code, goals_canceling }, status)
    }
}

/// The index found is that of the first entry of the goal.
pub proof fn goal_index_finds<G, R>(goals: Seq<GoalEntry<G, R>>, id: GoalId)
    ensures
        goal_index(goals, id) <= goals.len(),
        goal_index(goals, id) < goals.len() ==> goals[goal_index(goals, id) as int].id == id,
        forall|i: int| 0 <= i < goal_index(goals, id) ==> (#[trigger] goals[i]).id != id,
    decreases goals.len(),
{
    if goals.len() > 0 && goals[0].id != id {
        let rest = goals.skip(1);
        goal_index_finds(rest, id);
        assert forall|i: int| 0 <= i < goal_index(goals, id) implies (#[trigger] goals[i]).id
            != id by {
            if i > 0 {
                assert(rest[i - 1] == goals[i]);
            }
        }
    }
}

impl<G, R> ZActionServer<G, R> {
    /// Takes those who wait for goal `id`.
    fn take_waiters(&mut self, id: GoalId) -> (r: Vec<u64>)
        ensures
            r@ == waiting_for(old(self).waiters@, id),
            final(self).waiters@ == waiting_for_others(old(self).waiters@, id),
            final(self).goals == old(self).goals,
            final(self).cancel_flags == old(self).cancel_flags,
            old(self).same_settings(final(self)),
    {
        let mut taken: Vec<u64> = Vec::new();
        let mut kept: Vec<Waiter> = Vec::new();
        let ghost all = self.waiters@;
        let mut i: usize = 0;
        assert(taken@ =~= waiting_for(all.take(0), id));
        assert(kept@ =~= waiting_for_others(all.take(0), id));
        while i < self.waiters.len()
            invariant
                i <= self.waiters@.len(),
                all == self.waiters@,
                self.goals == old(self).goals,
                self.cancel_flags == old(self).cancel_flags,
                self.waiters == old(self).waiters,
                old(self).same_settings(&*self),
                taken@ == waiting_for(all.take(i as int), id),
                kept@ == waiting_for_others(all.take(i as int), id),
            decreases self.waiters@.len() - i,
        {
            let w: Waiter = self.waiters[i];
            assert(all.take(i + 1).drop_last() =~= all.take(i as int));
            if w.goal_id == id {
                taken.push(w.request);
            } else {
                kept.push(w);
            }
            i = i + 1;
        }
        assert(all.take(i as int) =~= all);
        self.waiters = kept;
        taken
    }

    /// Ends goal `id`, if it is active, with a result that those who wait are
    /// owed.
    fn end_goal(&mut self, id: GoalId, result: Arc<R>, status: GoalStatus, now: u128) -> (r:
        Option<Owed<R>>)
        requires
            old(self).wf(),
            now + old(self).result_timeout <= u128::MAX,
        ensures
            final(self).wf(),
            final(self).cancel_flags == old(self).cancel_flags,
            old(self).same_settings(final(self)),
            match r {
                Some(owed) => {
                    &&& old(self).state_of(id) matches Some(s) && active(s)
                        && final(self).goals@ == old(self).goals@.update(
                        goal_index(old(self).goals@, id) as int,
                        GoalEntry {
                            id,
                            state: ended(s, result, status, now, old(self).result_timeout),
                        },
                    )
                    &&& final(self).waiters@ == waiting_for_others(old(self).waiters@, id)
                    &&& answers(
                        owed.replies@,
                        waiting_for(old(self).waiters@, id),
                        result,
                        status,
                    )
                    &&& publishes(owed.status, final(self).goals@)
                },
                None => {
                    &&& old(self).state_of(id) matches Some(s) ==> !active(s)
                    &&& *final(self) == *old(self)
                },
            },
    {
        let i: usize = match self.find(id) {
            Some(i) => i,
            None => return None,
        };
        if !self.goals[i].state.is_active() {
            return None;
        }
        let (_, accepted_at) = self.goals[i].state.status();
        let expires_at: u128 = now + self.result_timeout;
        let ghost goals = self.goals@;
        self.goals.set(
            i,
            GoalEntry {
                id,
                state: ServerGoalState::Terminated {
                    result: share(&result),
                    status,
                    accepted_at,
                    timestamp: now,
                    expires_at: Some(expires_at),
                },
            },
        );
        let requests: Vec<u64> = self.take_waiters(id);
        let replies = replies_for(&requests, &result, status);
        proof {
            assert forall|j: int|
                0 <= j < self.goals@.len() && active((#[trigger] self.goals@[j]).state) implies flag_of(
                self.goals@[j].state,
            ) < self.cancel_flags@.len() by {
                assert(j != i);
                assert(active(goals[j].state));
            }
            assert forall|j: int, k: int| 0 <= j < k < self.goals@.len() implies (
            #[trigger] self.goals@[j]).id != (#[trigger] self.goals@[k]).id by {
                assert(goals[j].id != goals[k].id);
            }
        }
        Some(Owed { replies, status: Some(self.publish_status()) })
    }

    /// Marks the goal as canceling, if it is accepted or executing.
    pub fn request_cancel(&mut self, goal_id: GoalId) -> (r: (bool, Option<StatusMessage>))
        requires
            old(self).wf(),
        ensures
            final(self).wf(),
            final(self).goals@ == goals_after_cancel(
                old(self).goals@,
                GoalInfo { goal_id, stamp: no_time() },
            ),
            final(self).cancel_flags@ == flags_after_cancel(
                old(self).goals@,
                old(self).cancel_flags@,
                GoalInfo { goal_id, stamp: no_time() },
                old(self).goals@.len(),
            ),
            final(self).waiters == old(self).waiters,
            old(self).same_settings(final(self)),
            r.0 == (cancel_list(
                old(self).goals@,
                GoalInfo { goal_id, stamp: no_time() },
                old(self).goals@.len(),
            ).len() > 0),
            if r.0 {
                publishes(r.1, final(self).goals@)
            } else {
                r.1 is None
            },
    {
        let (response, status) = self.process_cancel_request(&GoalInfo::new(goal_id));
        (response.goals_canceling.len() > 0, status)
    }

    /// Forgets the goals whose time is over; those who wait for one are told
    /// that it was aborted.
    pub fn expire_goals(&mut self, now: u128) -> (r: (Vec<GoalId>, Owed<R>))
        requires
            old(self).wf(),
        ensures
            final(self).wf(),
            final(self).goals@ == kept_goals(old(self).goals@, now, old(self).goals@.len()),
            r.0@ == expired_ids(old(self).goals@, now, old(self).goals@.len()),
            final(self).waiters@ == waiting_for_none(old(self).waiters@, r.0@),
            final(self).cancel_flags == old(self).cancel_flags,
            old(self).same_settings(final(self)),
            answers(
                r.1.replies@,
                waiting_for_each(old(self).waiters@, r.0@),
                old(self).default_result,
                GoalStatus::Aborted,
            ),
            if r.0@.len() > 0 {
                publishes(r.1.status, final(self).goals@)
            } else {
                r.1.status is None
            },
    {
        let ghost goals = self.goals@;
        let ghost waiters = self.waiters@;
        let mut expired: Vec<GoalId> = Vec::new();
        let mut requests: Vec<u64> = Vec::new();
        let mut kept: Vec<GoalEntry<G, R>> = Vec::new();
        let mut left: Vec<GoalEntry<G, R>> = Vec::new();
        std::mem::swap(&mut left, &mut self.goals);
        let ghost start = *self;
        assert(requests@ =~= waiting_for_each(waiters, expired@));
        assert(kept@ =~= Seq::empty());
        let mut i: usize = 0;
        while i < left.len()
            invariant
                i <= left@.len(),
                left@ == goals,
                kept@ == kept_goals(goals, now, i as nat),
                expired@ == expired_ids(goals, now, i as nat),
                requests@ == waiting_for_each(waiters, expired@),
                self.waiters@ == waiting_for_none(waiters, expired@),
                self.cancel_flags == old(self).cancel_flags,
                old(self).same_settings(&*self),
            decreases left@.len() - i,
        {
            let entry = &left[i];
            let over: bool = match entry.state.expires_at() {
                Some(t) => now >= t,
                None => false,
            };
            if over {
                let ghost before = expired@;
                let mut more: Vec<u64> = self.take_waiters(entry.id);
                expired.push(entry.id);
                assert(expired@.drop_last() =~= before);
                requests.append(&mut more);
            } else {
                kept.push(copy_entry(entry));
            }
            i = i + 1;
        }
        self.goals = kept;
        let replies = replies_for(&requests, &self.default_result, GoalStatus::Aborted);
        let status: Option<StatusMessage> = if expired.len() > 0 {
            Some(self.publish_status())
        } else {
            None
        };
        proof {
            kept_goals_are_goals(goals, now, goals.len(), self.cancel_flags@.len());
        }
        (expired, Owed { replies, status })
    }

    /// How long a result is kept from now on.
    pub fn set_result_timeout(&mut self, timeout: u128)
        ensures
            final(self).result_timeout == timeout,
            final(self).goals == old(self).goals,
            final(self).waiters == old(self).waiters,
            final(self).cancel_flags == old(self).cancel_flags,
            final(self).goal_timeout == old(self).goal_timeout,
            final(self).default_result == old(self).default_result,
    {
        self.result_timeout = timeout;
    }

    /// How long a result is kept.
    pub fn result_timeout(&self) -> (r: u128)
        ensures
            r == self.result_timeout,
    {
        self.result_timeout
    }
}

fn copy_entry<G, R>(e: &GoalEntry<G, R>) -> (r: GoalEntry<G, R>)
    ensures
        r == *e,
{
    let state = match &e.state {
        ServerGoalState::Accepted { goal, cancel_flag, accepted_at, expires_at } => {
            ServerGoalState::Accepted {
                goal: share(goal),
                cancel_flag: *cancel_flag,
                accepted_at: *accepted_at,
                expires_at: *expires_at,
            }
        },
        ServerGoalState::Executing { goal, cancel_flag, accepted_at, expires_at } => {
            ServerGoalState::Executing {
                goal: share(goal),
                cancel_flag: *cancel_flag,
                accepted_at: *accepted_at,
                expires_at: *expires_at,
            }
        },
        ServerGoalState::Canceling { goal, cancel_flag, accepted_at, expires_at } => {
            ServerGoalState::Canceling {
                goal: share(goal),
                cancel_flag: *cancel_flag,
                accepted_at: *accepted_at,
                expires_at: *expires_at,
            }
        },
        ServerGoalState::Terminated { result, status, accepted_at, timestamp, expires_at } => {
            ServerGoalState::Terminated {
                result: share(result),
                status: *status,
                accepted_at: *accepted_at,
                timestamp: *timestamp,
                expires_at: *expires_at,
            }
        },
    };
    GoalEntry { id: e.id, state }
}

proof fn kept_goals_are_goals<G, R>(
    goals: Seq<GoalEntry<G, R>>,
    now: u128,
    n: nat,
    flags: nat,
)
    requires
        n <= goals.len(),
        forall|i: int, j: int|
            0 <= i < j < goals.len() ==> (#[trigger] goals[i]).id != (#[trigger] goals[j]).id,
        forall|i: int|
            0 <= i < goals.len() && active((#[trigger] goals[i]).state) ==> flag_of(goals[i].state)
                < flags,
    ensures
        forall|i: int|
            0 <= i < kept_goals(goals, now, n).len() ==> exists|k: int|
                0 <= k < n && goals[k] == #[trigger] kept_goals(goals, now, n)[i],
        forall|i: int, j: int|
            0 <= i < j < kept_goals(goals, now, n).len() ==> (#[trigger] kept_goals(
                goals,
                now,
                n,
            )[i]).id != (#[trigger] kept_goals(goals, now, n)[j]).id,
        forall|i: int|
            0 <= i < kept_goals(goals, now, n).len() && active(
                (#[trigger] kept_goals(goals, now, n)[i]).state,
            ) ==> flag_of(kept_goals(goals, now, n)[i].state) < flags,
    decreases n,
{
    if n > 0 {
        let before = kept_goals(goals, now, (n - 1) as nat);
        let after = kept_goals(goals, now, n);
        kept_goals_are_goals(goals, now, (n - 1) as nat, flags);
        assert forall|i: int| 0 <= i < after.len() implies exists|k: int|
            0 <= k < n && goals[k] == #[trigger] after[i] by {
            if i < before.len() {
                let k = choose|k: int| 0 <= k < n - 1 && goals[k] == before[i];
                assert(goals[k] == after[i]);
            } else {
                assert(goals[n - 1] == after[i]);
            }
        }
        assert forall|i: int, j: int| 0 <= i < j < after.len() implies (#[trigger] after[i]).id
            != (#[trigger] after[j]).id by {
            if j == before.len() {
                let k = choose|k: int| 0 <= k < n - 1 && goals[k] == before[i];
                assert(goals[k].id != goals[n - 1].id);
            } else {
                assert(before[i].id != before[j].id);
            }
        }
        assert forall|i: int|
            0 <= i < after.len() && active((#[trigger] after[i]).state) implies flag_of(
            after[i].state,
        ) < flags by {
            if i < before.len() {
                assert(before[i] == after[i]);
            } else {
                assert(goals[n - 1] == after[i]);
            }
        }
    }
}

/// Marks a goal that was requested and neither accepted nor rejected.
#[derive(Debug)]
pub struct Requested;

/// Marks a goal that was accepted and does not execute yet.
#[derive(Debug)]
pub struct Accepted;

/// Marks a goal that executes.
#[derive(Debug)]
pub struct Executing;

/// What is to be done where a handle is dropped.
#[derive(Debug)]
pub struct GoalCleanup {
    pub goal_id: GoalId,
    /// Whether the client still waits to hear if the goal is accepted.
    pub unanswered: bool,
    pub armed: bool,
}

/// A goal, with its state in the type: what can be done next depends on it.
#[derive(Debug)]
pub struct GoalHandle<G, State> {
    pub goal: Arc<G>,
    pub info: GoalInfo,
    /// The number of the goal's cancel flag, once it was accepted.
    pub cancel_flag: Option<usize>,
    pub cleanup: GoalCleanup,
    pub _state: PhantomData<State>,
}

/// A goal that was requested.
pub type RequestedGoal<G> = GoalHandle<G, Requested>;

/// A goal that was accepted.
pub type AcceptedGoal<G> = GoalHandle<G, Accepted>;

/// A goal that executes.
pub type ExecutingGoal<G> = GoalHandle<G, Executing>;

/// What accepting a goal owes: the answer to the client, and then the status.
#[must_use]
#[derive(Debug)]
pub struct AcceptOwed {
    pub response: Option<GoalResponse>,
    pub status: StatusMessage,
}

/// What processing a request to cancel owes: the status, if it changed, and then
/// the answer.
#[must_use]
#[derive(Debug)]
pub struct CancelOwed {
    pub status: Option<StatusMessage>,
    pub response: CancelGoalServiceResponse,
}

/// What dropping a handle owes.
#[must_use]
#[derive(Debug)]
pub struct DropOwed<R> {
    /// The answer to a client who was never told.
    pub rejection: Option<GoalResponse>,
    /// What ending the goal owes.
    pub ended: Option<Owed<R>>,
}

/// The goals with `e` in place of one of the same identifier, or at the end.
pub open spec fn with_goal<G, R>(goals: Seq<GoalEntry<G, R>>, e: GoalEntry<G, R>) -> Seq<
    GoalEntry<G, R>,
> {
    let i = goal_index(goals, e.id);
    if i < goals.len() {
        goals.update(i as int, e)
    } else {
        goals.push(e)
    }
}

/// The state of a goal in state `s` once it executes.
pub open spec fn executing<G, R>(s: ServerGoalState<G, R>) -> ServerGoalState<G, R> {
    match s {
        ServerGoalState::Accepted { goal, cancel_flag, accepted_at, expires_at } => {
            ServerGoalState::Executing { goal, cancel_flag, accepted_at, expires_at }
        },
        other => other,
    }
}

/// The goals once goal `id` executes.
pub open spec fn goals_executing<G, R>(goals: Seq<GoalEntry<G, R>>, id: GoalId) -> Seq<
    GoalEntry<G, R>,
> {
    let i = goal_index(goals, id) as int;
    if i < goals.len() {
        goals.update(i, GoalEntry { id, state: executing(goals[i].state) })
    } else {
        goals
    }
}

/// The goals after the first `n` requests to cancel.
pub open spec fn goals_after_requests<G, R>(
    goals: Seq<GoalEntry<G, R>>,
    requests: Seq<GoalInfo>,
    n: nat,
) -> Seq<GoalEntry<G, R>>
    decreases n,
{
    if n == 0 || n > requests.len() {
        goals
    } else {
        goals_after_cancel(goals_after_requests(goals, requests, (n - 1) as nat), requests[n - 1])
    }
}

/// The cancel flags after the first `n` requests to cancel.
pub open spec fn flags_after_requests<G, R>(
    goals: Seq<GoalEntry<G, R>>,
    flags: Seq<bool>,
    requests: Seq<GoalInfo>,
    n: nat,
) -> Seq<bool>
    decreases n,
{
    if n == 0 || n > requests.len() {
        flags
    } else {
        let before = goals_after_requests(goals, requests, (n - 1) as nat);
        flags_after_cancel(
            before,
            flags_after_requests(goals, flags, requests, (n - 1) as nat),
            requests[n - 1],
            before.len(),
        )
    }
}

/// Whether `owed` answers a request to cancel that met `goals`.
pub open spec fn answers_cancel<G, R>(
    owed: CancelOwed,
    goals: Seq<GoalEntry<G, R>>,
    requested: GoalInfo,
) -> bool {
    &&& owed.response.goals_canceling@ == cancel_list(goals, requested, goals.len())
    &&& owed.response.return_code == cancel_code(goals, requested)
    &&& if owed.response.goals_canceling@.len() > 0 {
        publishes(owed.status, goals_after_cancel(goals, requested))
    } else {
        owed.status is None
    }
}

impl<G, R> ZActionServer<G, R> {
    /// Processes the queued requests to cancel, in order.
    pub fn drain_cancel_requests(&mut self, requests: &Vec<GoalInfo>) -> (r: Vec<CancelOwed>)
        requires
            old(self).wf(),
        ensures
            final(self).wf(),
            final(self).goals@ == goals_after_requests(
                old(self).goals@,
                requests@,
                requests@.len(),
            ),
            final(self).cancel_flags@ == flags_after_requests(
                old(self).goals@,
                old(self).cancel_flags@,
                requests@,
                requests@.len(),
            ),
            final(self).cancel_flags@.len() == old(self).cancel_flags@.len(),
            final(self).waiters == old(self).waiters,
            old(self).same_settings(final(self)),
            r@.len() == requests@.len(),
            forall|i: int|
                0 <= i < r@.len() ==> answers_cancel(
                    #[trigger] r@[i],
                    goals_after_requests(old(self).goals@, requests@, i as nat),
                    requests@[i],
                ),
    {
        let mut r: Vec<CancelOwed> = Vec::new();
        let mut i: usize = 0;
        while i < requests.len()
            invariant
                self.wf(),
                i <= requests@.len(),
                self.goals@ == goals_after_requests(old(self).goals@, requests@, i as nat),
                self.cancel_flags@ == flags_after_requests(
                    old(self).goals@,
                    old(self).cancel_flags@,
                    requests@,
                    i as nat,
                ),
                self.cancel_flags@.len() == old(self).cancel_flags@.len(),
                self.waiters == old(self).waiters,
                old(self).same_settings(&*self),
                r@.len() == i,
                forall|j: int|
                    0 <= j < i ==> answers_cancel(
                        #[trigger] r@[j],
                        goals_after_requests(old(self).goals@, requests@, j as nat),
                        requests@[j],
                    ),
            decreases requests@.len() - i,
        {
            let ghost before = self.goals@;
            let ghost flags = self.cancel_flags@;
            let (response, status) = self.process_cancel_request(&requests[i]);
            proof {
                flags_keep_their_number(before, flags, requests@[i as int], before.len());
            }
            r.push(CancelOwed { status, response });
            i = i + 1;
        }
        r
    }

    /// A handle for a goal that a client requested.
    pub fn recv_goal(goal_id: GoalId, goal: Arc<G>) -> (r: GoalHandle<G, Requested>)
        ensures
            r.goal == goal,
            r.info == (GoalInfo { goal_id, stamp: no_time() }),
            r.cancel_flag is None,
            r.cleanup == (GoalCleanup { goal_id, unanswered: true, armed: true }),
    {
        GoalHandle {
            goal,
            info: GoalInfo::new(goal_id),
            cancel_flag: None,
            cleanup: GoalCleanup { goal_id, unanswered: true, armed: true },
            _state: PhantomData,
        }
    }
}

proof fn flags_keep_their_number<G, R>(
    goals: Seq<GoalEntry<G, R>>,
    flags: Seq<bool>,
    requested: GoalInfo,
    n: nat,
)
    requires
        forall|i: int|
            0 <= i < goals.len() && active((#[trigger] goals[i]).state) ==> flag_of(goals[i].state)
                < flags.len(),
    ensures
        flags_after_cancel(goals, flags, requested, n).len() == flags.len(),
    decreases n,
{
    if n > 0 && n <= goals.len() {
        flags_keep_their_number(goals, flags, requested, (n - 1) as nat);
    }
}

impl GoalCleanup {
    /// What the drop of a handle does: a client who was never told is told that
    /// the goal is rejected, and a goal that did not end is aborted.
    pub fn on_drop<G, R>(self, server: &mut ZActionServer<G, R>, now: u128) -> (r: DropOwed<R>)
        requires
            old(server).wf(),
            now + old(server).result_timeout <= u128::MAX,
        ensures
            final(server).wf(),
            if !self.armed {
                r.rejection is None && r.ended is None && *final(server) == *old(server)
            } else if self.unanswered {
                &&& r.rejection == Some(rejection())
                &&& r.ended is None
                &&& *final(server) == *old(server)
            } else {
                &&& r.rejection is None
                &&& final(server).cancel_flags == old(server).cancel_flags
                &&& old(server).same_settings(final(server))
                &&& match r.ended {
                    Some(owed) => {
                        &&& old(server).state_of(self.goal_id) matches Some(s) && active(s)
                            && final(server).goals@ == old(server).goals@.update(
                            goal_index(old(server).goals@, self.goal_id) as int,
                            GoalEntry {
                                id: self.goal_id,
                                state: ended(
                                    s,
                                    old(server).default_result,
                                    GoalStatus::Aborted,
                                    now,
                                    old(server).result_timeout,
                                ),
                            },
                        )
                        &&& final(server).waiters@ == waiting_for_others(
                            old(server).waiters@,
                            self.goal_id,
                        )
                        &&& answers(
                            owed.replies@,
                            waiting_for(old(server).waiters@, self.goal_id),
                            old(server).default_result,
                            GoalStatus::Aborted,
                        )
                        &&& publishes(owed.status, final(server).goals@)
                    },
                    None => {
                        &&& old(server).state_of(self.goal_id) matches Some(s) ==> !active(s)
                        &&& *final(server) == *old(server)
                    },
                }
            },
    {
        if !self.armed {
            return DropOwed { rejection: None, ended: None };
        }
        if self.unanswered {
            return DropOwed { rejection: Some(GoalResponse::rejected()), ended: None };
        }
        let result: Arc<R> = share(&server.default_result);
        let ended: Option<Owed<R>> = server.end_goal(
            self.goal_id,
            result,
            GoalStatus::Aborted,
            now,
        );
        DropOwed { rejection: None, ended }
    }
}

impl<G> GoalHandle<G, Requested> {
    /// The goal.
    pub fn goal(&self) -> (r: &G)
        ensures
            *r == *self.goal,
    {
        &self.goal
    }

    /// The goal's identifier and time stamp.
    pub fn info(&self) -> (r: &GoalInfo)
        ensures
            *r == self.info,
    {
        &self.info
    }

    /// Accepts the goal at the time of the clock. The goal is entered before the
    /// client is told, who may ask for the result at once.
    pub fn accept<R>(
        self,
        server: &mut ZActionServer<G, R>,
        clock: &crate::time::ZClock,
        now: u128,
    ) -> (r: (GoalHandle<G, Accepted>, AcceptOwed))
        requires
            old(server).wf(),
            old(server).goal_timeout matches Some(t) ==> now + t <= u128::MAX,
        ensures
            final(server).wf(),
            ({
                let stamp = crate::action::types::stamp_of(clock.time.unix_nanos);
                let flag = old(server).cancel_flags@.len() as usize;
                &&& final(server).goals@ == with_goal(
                    old(server).goals@,
                    GoalEntry {
                        id: self.info.goal_id,
                        state: ServerGoalState::Accepted {
                            goal: self.goal,
                            cancel_flag: flag,
                            accepted_at: stamp,
                            expires_at: match old(server).goal_timeout {
                                Some(t) => Some((now + t) as u128),
                                None => None,
                            },
                        },
                    },
                )
                &&& final(server).cancel_flags@ == old(server).cancel_flags@.push(false)
                &&& final(server).waiters == old(server).waiters
                &&& old(server).same_settings(final(server))
                &&& r.0.goal == self.goal
                &&& r.0.info == (GoalInfo { goal_id: self.info.goal_id, stamp })
                &&& r.0.cancel_flag == Some(flag)
                &&& r.0.cleanup == (GoalCleanup {
                    goal_id: self.info.goal_id,
                    unanswered: false,
                    armed: true,
                })
                &&& r.1.response == (if self.cleanup.unanswered {
                    Some(
                        GoalResponse {
                            accepted: true,
                            stamp_sec: stamp.sec,
                            stamp_nanosec: stamp.nanosec,
                        },
                    )
                } else {
                    None
                })
                &&& r.1.status.status_list@ == status_list(final(server).goals@)
            }),
    {
        let stamp: Time = crate::action::types::time_from_clock(clock);
        let goal_id: GoalId = self.info.goal_id;
        let flag: usize = server.cancel_flags.len();
        let expires_at: Option<u128> = match server.goal_timeout {
            Some(t) => Some(now + t),
            None => None,
        };
        let entry = GoalEntry {
            id: goal_id,
            state: ServerGoalState::Accepted {
                goal: share(&self.goal),
                cancel_flag: flag,
                accepted_at: stamp,
                expires_at,
            },
        };
        let ghost goals = server.goals@;
        server.cancel_flags.push(false);
        match server.find(goal_id) {
            Some(i) => {
                server.goals.set(i, entry);
            },
            None => {
                proof {
                    goal_index_finds(goals, goal_id);
                }
                server.goals.push(entry);
            },
        }
        proof {
            goal_index_finds(goals, goal_id);
            assert(server.goals@ == with_goal(goals, entry));
            assert forall|j: int, k: int| 0 <= j < k < server.goals@.len() implies (
            #[trigger] server.goals@[j]).id != (#[trigger] server.goals@[k]).id by {
                if k < goals.len() {
                    assert(goals[j].id != goals[k].id);
                } else {
                    assert(goals[j].id != goal_id);
                }
            }
            assert forall|j: int|
                0 <= j < server.goals@.len() && active(
                    (#[trigger] server.goals@[j]).state,
                ) implies flag_of(server.goals@[j].state) < server.cancel_flags@.len() by {
                if server.goals@[j] != entry {
                    assert(active(goals[j].state));
                }
            }
        }
        let response: Option<GoalResponse> = if self.cleanup.unanswered {
            Some(
                GoalResponse {
                    accepted: true,
                    stamp_sec: stamp.sec,
                    stamp_nanosec: stamp.nanosec,
                },
            )
        } else {
            None
        };
        let status: StatusMessage = server.publish_status();
        let accepted = GoalHandle {
            goal: self.goal,
            info: GoalInfo { goal_id, stamp },
            cancel_flag: Some(flag),
            cleanup: GoalCleanup { goal_id, unanswered: false, armed: true },
            _state: PhantomData,
        };
        (accepted, AcceptOwed { response, status })
    }

    /// Rejects the goal: the client, if not told yet, is told so.
    pub fn reject(self) -> (r: Option<GoalResponse>)
        ensures
            r == (if self.cleanup.unanswered {
                Some(rejection())
            } else {
                None
            }),
    {
        if self.cleanup.unanswered {
            Some(GoalResponse::rejected())
        } else {
            None
        }
    }
}

/// Whether the flag of a handle is raised.
pub open spec fn flag_raised(flag: Option<usize>, flags: Seq<bool>) -> bool {
    flag matches Some(f) && flags[f as int]
}

/// Whether the flag of a handle is among `flags`.
pub open spec fn flag_known(flag: Option<usize>, flags: Seq<bool>) -> bool {
    flag matches Some(f) ==> f < flags.len()
}

impl<G> GoalHandle<G, Accepted> {
    /// The goal.
    pub fn goal(&self) -> (r: &G)
        ensures
            *r == *self.goal,
    {
        &self.goal
    }

    /// The goal's identifier and time stamp.
    pub fn info(&self) -> (r: &GoalInfo)
        ensures
            *r == self.info,
    {
        &self.info
    }

    /// Processes the queued requests to cancel; says whether the goal is to be
    /// canceled.
    pub fn try_process_cancel<R>(
        &self,
        server: &mut ZActionServer<G, R>,
        queued: &Vec<GoalInfo>,
    ) -> (r: (bool, Vec<CancelOwed>))
        requires
            old(server).wf(),
            flag_known(self.cancel_flag, old(server).cancel_flags@),
        ensures
            final(server).wf(),
            final(server).goals@ == goals_after_requests(
                old(server).goals@,
                queued@,
                queued@.len(),
            ),
            final(server).cancel_flags@ == flags_after_requests(
                old(server).goals@,
                old(server).cancel_flags@,
                queued@,
                queued@.len(),
            ),
            final(server).cancel_flags@.len() == old(server).cancel_flags@.len(),
            final(server).waiters == old(server).waiters,
            old(server).same_settings(final(server)),
            r.0 == flag_raised(self.cancel_flag, final(server).cancel_flags@),
            r.1@.len() == queued@.len(),
            forall|i: int|
                0 <= i < r.1@.len() ==> answers_cancel(
                    #[trigger] r.1@[i],
                    goals_after_requests(old(server).goals@, queued@, i as nat),
                    queued@[i],
                ),
    {
        let owed = server.drain_cancel_requests(queued);
        let raised: bool = match self.cancel_flag {
            Some(f) => server.cancel_flags[f],
            None => false,
        };
        (raised, owed)
    }

    /// Begins to execute the goal, once the queued requests to cancel are
    /// processed. A goal that is canceling by then stays so.
    pub fn execute<R>(self, server: &mut ZActionServer<G, R>, queued: &Vec<GoalInfo>) -> (r: (
        GoalHandle<G, Executing>,
        Vec<CancelOwed>,
        StatusMessage,
    ))
        requires
            old(server).wf(),
            flag_known(self.cancel_flag, old(server).cancel_flags@),
        ensures
            final(server).wf(),
            final(server).goals@ == goals_executing(
                goals_after_requests(old(server).goals@, queued@, queued@.len()),
                self.info.goal_id,
            ),
            final(server).waiters == old(server).waiters,
            old(server).same_settings(final(server)),
            ({
                let flags = flags_after_requests(
                    old(server).goals@,
                    old(server).cancel_flags@,
                    queued@,
                    queued@.len(),
                );
                match self.cancel_flag {
                    Some(f) => final(server).cancel_flags@ == flags && r.0.cancel_flag == Some(f),
                    None => final(server).cancel_flags@ == flags.push(false) && r.0.cancel_flag
                        == Some(flags.len() as usize),
                }
            }),
            flag_known(r.0.cancel_flag, final(server).cancel_flags@),
            r.0.goal == self.goal,
            r.0.info == self.info,
            r.0.cleanup == (GoalCleanup {
                goal_id: self.info.goal_id,
                unanswered: false,
                armed: true,
            }),
            r.1@.len() == queued@.len(),
            forall|i: int|
                0 <= i < r.1@.len() ==> answers_cancel(
                    #[trigger] r.1@[i],
                    goals_after_requests(old(server).goals@, queued@, i as nat),
                    queued@[i],
                ),
            r.2.status_list@ == status_list(final(server).goals@),
    {
        let owed = server.drain_cancel_requests(queued);
        let goal_id: GoalId = self.info.goal_id;
        let ghost goals = server.goals@;
        match server.find(goal_id) {
            Some(i) => {
                let ghost before = server.goals@[i as int];
                let begun: Option<ServerGoalState<G, R>> = match &server.goals[i].state {
                    ServerGoalState::Accepted { goal, cancel_flag, accepted_at, expires_at } => {
                        Some(
                            ServerGoalState::Executing {
                                goal: share(goal),
                                cancel_flag: *cancel_flag,
                                accepted_at: *accepted_at,
                                expires_at: *expires_at,
                            },
                        )
                    },
                    _ => None,
                };
                match begun {
                    Some(state) => {
                        server.goals.set(i, GoalEntry { id: goal_id, state });
                    },
                    None => {},
                }
                assert(server.goals@ =~= goals_executing(goals, goal_id));
            },
            None => {},
        }
        proof {
            assert forall|j: int, k: int| 0 <= j < k < server.goals@.len() implies (
            #[trigger] server.goals@[j]).id != (#[trigger] server.goals@[k]).id by {
                assert(goals[j].id != goals[k].id);
            }
            assert forall|j: int|
                0 <= j < server.goals@.len() && active(
                    (#[trigger] server.goals@[j]).state,
                ) implies flag_of(server.goals@[j].state) < server.cancel_flags@.len() by {
                assert(active(goals[j].state));
            }
        }
        let flag: usize = match self.cancel_flag {
            Some(f) => f,
            None => {
                let f: usize = server.cancel_flags.len();
                server.cancel_flags.push(false);
                f
            },
        };
        let status: StatusMessage = server.publish_status();
        let executing = GoalHandle {
            goal: self.goal,
            info: self.info,
            cancel_flag: Some(flag),
            cleanup: GoalCleanup { goal_id, unanswered: false, armed: true },
            _state: PhantomData,
        };
        (executing, owed, status)
    }
}

/// The error of ending a goal that is not active.
pub open spec fn inactive_error() -> Seq<char> {
    "goal is no longer active"@
}

/// Whether `r` is what ending goal `id` with a result comes to.
pub open spec fn end_outcome<G, R>(
    before: ZActionServer<G, R>,
    after: ZActionServer<G, R>,
    id: GoalId,
    result: Arc<R>,
    status: GoalStatus,
    now: u128,
    r: Result<Owed<R>, String>,
) -> bool {
    &&& after.cancel_flags == before.cancel_flags
    &&& before.same_settings(&after)
    &&& match r {
        Ok(owed) => {
            &&& before.state_of(id) matches Some(s) && active(s) && after.goals@
                == before.goals@.update(
                goal_index(before.goals@, id) as int,
                GoalEntry { id, state: ended(s, result, status, now, before.result_timeout) },
            )
            &&& after.waiters@ == waiting_for_others(before.waiters@, id)
            &&& answers(owed.replies@, waiting_for(before.waiters@, id), result, status)
            &&& publishes(owed.status, after.goals@)
        },
        Err(e) => {
            &&& before.state_of(id) matches Some(s) ==> !active(s)
            &&& e@ == inactive_error()
            &&& after == before
        },
    }
}

impl<G> GoalHandle<G, Executing> {
    /// The goal.
    pub fn goal(&self) -> (r: &G)
        ensures
            *r == *self.goal,
    {
        &self.goal
    }

    /// The goal's identifier and time stamp.
    pub fn info(&self) -> (r: &GoalInfo)
        ensures
            *r == self.info,
    {
        &self.info
    }

    /// Progress of the goal, to be published.
    pub fn publish_feedback<F>(&self, feedback: F) -> (r: FeedbackMessage<F>)
        ensures
            r == (FeedbackMessage { goal_id: self.info.goal_id, feedback }),
    {
        FeedbackMessage { goal_id: self.info.goal_id, feedback }
    }

    /// Whether the goal is to be canceled.
    pub fn is_cancel_requested<R>(&self, server: &ZActionServer<G, R>) -> (r: bool)
        requires
            flag_known(self.cancel_flag, server.cancel_flags@),
        ensures
            r == flag_raised(self.cancel_flag, server.cancel_flags@),
    {
        match self.cancel_flag {
            Some(f) => server.cancel_flags[f],
            None => false,
        }
    }

    /// Whether the goal is to be canceled, once the queued requests to cancel are
    /// processed. They stay queued where the goal is to be canceled already.
    pub fn try_process_cancel<R>(
        &self,
        server: &mut ZActionServer<G, R>,
        queued: &Vec<GoalInfo>,
    ) -> (r: (bool, Vec<CancelOwed>))
        requires
            old(server).wf(),
            flag_known(self.cancel_flag, old(server).cancel_flags@),
        ensures
            final(server).wf(),
            r.0 == flag_raised(self.cancel_flag, final(server).cancel_flags@),
            if flag_raised(self.cancel_flag, old(server).cancel_flags@) {
                *final(server) == *old(server) && r.1@.len() == 0
            } else {
                &&& final(server).goals@ == goals_after_requests(
                    old(server).goals@,
                    queued@,
                    queued@.len(),
                )
                &&& final(server).cancel_flags@ == flags_after_requests(
                    old(server).goals@,
                    old(server).cancel_flags@,
                    queued@,
                    queued@.len(),
                )
                &&& final(server).waiters == old(server).waiters
                &&& old(server).same_settings(final(server))
                &&& r.1@.len() == queued@.len()
                &&& forall|i: int|
                    0 <= i < r.1@.len() ==> answers_cancel(
                        #[trigger] r.1@[i],
                        goals_after_requests(old(server).goals@, queued@, i as nat),
                        queued@[i],
                    )
            },
    {
        if self.is_cancel_requested(server) {
            return (true, Vec::new());
        }
        let owed = server.drain_cancel_requests(queued);
        (self.is_cancel_requested(server), owed)
    }

    /// Ends the goal with success.
    pub fn succeed<R>(self, server: &mut ZActionServer<G, R>, result: R, now: u128) -> (r: Result<
        Owed<R>,
        String,
    >)
        requires
            old(server).wf(),
            now + old(server).result_timeout <= u128::MAX,
        ensures
            final(server).wf(),
            end_outcome(
                *old(server),
                *final(server),
                self.info.goal_id,
                Arc::new(result),
                GoalStatus::Succeeded,
                now,
                r,
            ),
    {
        self.terminate(server, result, GoalStatus::Succeeded, now)
    }

    /// Ends the goal as aborted.
    pub fn abort<R>(self, server: &mut ZActionServer<G, R>, result: R, now: u128) -> (r: Result<
        Owed<R>,
        String,
    >)
        requires
            old(server).wf(),
            now + old(server).result_timeout <= u128::MAX,
        ensures
            final(server).wf(),
            end_outcome(
                *old(server),
                *final(server),
                self.info.goal_id,
                Arc::new(result),
                GoalStatus::Aborted,
                now,
                r,
            ),
    {
        self.terminate(server, result, GoalStatus::Aborted, now)
    }

    /// Ends the goal as canceled.
    pub fn canceled<R>(self, server: &mut ZActionServer<G, R>, result: R, now: u128) -> (r: Result<
        Owed<R>,
        String,
    >)
        requires
            old(server).wf(),
            now + old(server).result_timeout <= u128::MAX,
        ensures
            final(server).wf(),
            end_outcome(
                *old(server),
                *final(server),
                self.info.goal_id,
                Arc::new(result),
                GoalStatus::Canceled,
                now,
                r,
            ),
    {
        self.terminate(server, result, GoalStatus::Canceled, now)
    }

    fn terminate<R>(
        self,
        server: &mut ZActionServer<G, R>,
        result: R,
        status: GoalStatus,
        now: u128,
    ) -> (r: Result<Owed<R>, String>)
        requires
            old(server).wf(),
            now + old(server).result_timeout <= u128::MAX,
        ensures
            final(server).wf(),
            end_outcome(
                *old(server),
                *final(server),
                self.info.goal_id,
                Arc::new(result),
                status,
                now,
                r,
            ),
    {
        match server.end_goal(self.info.goal_id, Arc::new(result), status, now) {
            Some(owed) => Ok(owed),
            None => Err("goal is no longer active".to_owned()),
        }
    }
}

} // verus!
