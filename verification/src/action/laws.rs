//! What holds of an action server whatever is asked of it.

use crate::action::server::{
    cancel_code, cancel_list, ended, expired_ids, flag_of, flags_after_cancel, flags_after_requests,
    goal_index, goal_index_finds, goals_after_cancel, goals_after_requests, goals_executing,
    is_expired, kept_goals, selected, status_list, waiting_for, waiting_for_each, waiting_for_none,
    waiting_for_others, with_goal, GoalEntry, Waiter, ZActionServer,
};
use crate::action::types::{
    active, no_time, stamp_of, status_code, status_of, CancelGoalServiceResponse, GoalId, GoalInfo,
    GoalStatus, ServerGoalState, StatusMessage, Time,
};
use std::sync::Arc;
use vstd::prelude::*;

verus! {

/// Whether no goal is entered twice.
pub open spec fn distinct<G, R>(goals: Seq<GoalEntry<G, R>>) -> bool {
    forall|i: int, j: int|
        0 <= i < j < goals.len() ==> (#[trigger] goals[i]).id != (#[trigger] goals[j]).id
}

/// Whether goal `id` is there and has not ended.
pub open spec fn is_active<G, R>(goals: Seq<GoalEntry<G, R>>, id: GoalId) -> bool {
    let i = goal_index(goals, id) as int;
    i < goals.len() && active(goals[i].state)
}

/// Whether everyone who waits for a result waits for a goal that has not ended,
/// so that its end will answer them.
pub open spec fn nobody_waits_in_vain<G, R>(
    goals: Seq<GoalEntry<G, R>>,
    waiters: Seq<Waiter>,
) -> bool {
    forall|i: int| 0 <= i < waiters.len() ==> is_active(goals, (#[trigger] waiters[i]).goal_id)
}

proof fn goal_index_by_ids<G, R>(a: Seq<GoalEntry<G, R>>, b: Seq<GoalEntry<G, R>>, id: GoalId)
    requires
        a.len() == b.len(),
        forall|i: int| 0 <= i < a.len() ==> (#[trigger] a[i]).id == b[i].id,
    ensures
        goal_index(a, id) == goal_index(b, id),
    decreases a.len(),
{
    if a.len() > 0 {
        assert(a[0].id == b[0].id);
        goal_index_by_ids(a.skip(1), b.skip(1), id);
    }
}

/// Those who wait for other goals are all there, and nobody else.
pub proof fn others_keep_waiting(waiters: Seq<Waiter>, id: GoalId)
    ensures
        forall|i: int|
            0 <= i < waiting_for_others(waiters, id).len() ==> {
                &&& (#[trigger] waiting_for_others(waiters, id)[i]).goal_id != id
                &&& waiters.contains(waiting_for_others(waiters, id)[i])
            },
        waiting_for(waiting_for_others(waiters, id), id).len() == 0,
        forall|other: GoalId|
            other != id ==> #[trigger] waiting_for(waiting_for_others(waiters, id), other)
                == waiting_for(waiters, other),
    decreases waiters.len(),
{
    if waiters.len() > 0 {
        let before = waiters.drop_last();
        others_keep_waiting(before, id);
        let kept = waiting_for_others(before, id);
        let after = waiting_for_others(waiters, id);
        assert forall|i: int| 0 <= i < after.len() implies {
            &&& (#[trigger] after[i]).goal_id != id
            &&& waiters.contains(after[i])
        } by {
            if i < kept.len() {
                assert(after[i] == kept[i]);
                let k = choose|k: int| 0 <= k < before.len() && before[k] == kept[i];
                assert(waiters[k] == after[i]);
            } else {
                assert(waiters[waiters.len() - 1] == after[i]);
            }
        }
        if waiters.last().goal_id != id {
            assert(after.drop_last() =~= kept);
            assert(after.last() == waiters.last());
        }
        assert forall|other: GoalId| other != id implies #[trigger] waiting_for(after, other)
            == waiting_for(waiters, other) by {
            assert(waiting_for(kept, other) == waiting_for(before, other));
        }
    }
}

/// A request to cancel strands nobody.
pub proof fn cancel_strands_nobody<G, R>(
    goals: Seq<GoalEntry<G, R>>,
    waiters: Seq<Waiter>,
    requested: GoalInfo,
)
    requires
        nobody_waits_in_vain(goals, waiters),
    ensures
        nobody_waits_in_vain(goals_after_cancel(goals, requested), waiters),
{
    let after = goals_after_cancel(goals, requested);
    assert forall|i: int| 0 <= i < waiters.len() implies is_active(
        after,
        (#[trigger] waiters[i]).goal_id,
    ) by {
        goal_index_by_ids(goals, after, waiters[i].goal_id);
        assert(is_active(goals, waiters[i].goal_id));
    }
}

/// The end of a goal strands nobody: those who waited for it are answered, and
/// the others wait on.
pub proof fn end_strands_nobody<G, R>(
    goals: Seq<GoalEntry<G, R>>,
    waiters: Seq<Waiter>,
    id: GoalId,
    e: GoalEntry<G, R>,
)
    requires
        nobody_waits_in_vain(goals, waiters),
        goal_index(goals, id) < goals.len(),
        e.id == id,
    ensures
        nobody_waits_in_vain(
            goals.update(goal_index(goals, id) as int, e),
            waiting_for_others(waiters, id),
        ),
{
    let at = goal_index(goals, id) as int;
    let after = goals.update(at, e);
    let others = waiting_for_others(waiters, id);
    goal_index_finds(goals, id);
    others_keep_waiting(waiters, id);
    assert forall|i: int| 0 <= i < others.len() implies is_active(
        after,
        (#[trigger] others[i]).goal_id,
    ) by {
        let other = others[i].goal_id;
        let k = choose|k: int| 0 <= k < waiters.len() && waiters[k] == others[i];
        assert(is_active(goals, waiters[k].goal_id));
        goal_index_by_ids(goals, after, other);
        goal_index_finds(goals, other);
    }
}

/// A goal that is accepted or begins to execute strands nobody.
pub proof fn progress_strands_nobody<G, R>(
    goals: Seq<GoalEntry<G, R>>,
    waiters: Seq<Waiter>,
    e: GoalEntry<G, R>,
)
    requires
        nobody_waits_in_vain(goals, waiters),
        active(e.state),
    ensures
        nobody_waits_in_vain(with_goal(goals, e), waiters),
        nobody_waits_in_vain(goals_executing(goals, e.id), waiters),
{
    let accepted = with_goal(goals, e);
    let begun = goals_executing(goals, e.id);
    goal_index_finds(goals, e.id);
    assert forall|i: int| 0 <= i < waiters.len() implies is_active(
        accepted,
        (#[trigger] waiters[i]).goal_id,
    ) by {
        let id = waiters[i].goal_id;
        assert(is_active(goals, id));
        goal_index_finds(goals, id);
        if goal_index(goals, e.id) < goals.len() {
            goal_index_by_ids(goals, accepted, id);
        } else {
            goal_index_after_push(goals, e, id);
        }
    }
    assert forall|i: int| 0 <= i < waiters.len() implies is_active(
        begun,
        (#[trigger] waiters[i]).goal_id,
    ) by {
        assert(is_active(goals, waiters[i].goal_id));
        goal_index_by_ids(goals, begun, waiters[i].goal_id);
    }
}

proof fn goal_index_after_push<G, R>(goals: Seq<GoalEntry<G, R>>, e: GoalEntry<G, R>, id: GoalId)
    requires
        goal_index(goals, id) < goals.len(),
    ensures
        goal_index(goals.push(e), id) == goal_index(goals, id),
    decreases goals.len(),
{
    if goals.len() > 0 && goals[0].id != id {
        goal_index_after_push(goals.skip(1), e, id);
        assert(goals.push(e).skip(1) =~= goals.skip(1).push(e));
    }
}

/// A request for the result of a goal that has not ended does not wait in vain.
pub proof fn requests_are_not_in_vain<G, R>(
    goals: Seq<GoalEntry<G, R>>,
    waiters: Seq<Waiter>,
    w: Waiter,
)
    requires
        nobody_waits_in_vain(goals, waiters),
        is_active(goals, w.goal_id),
    ensures
        nobody_waits_in_vain(goals, waiters.push(w)),
{
}

/// Forgetting goals strands nobody.
pub proof fn expiry_strands_nobody<G, R>(
    goals: Seq<GoalEntry<G, R>>,
    waiters: Seq<Waiter>,
    now: u128,
)
    requires
        nobody_waits_in_vain(goals, waiters),
        distinct(goals),
    ensures
        nobody_waits_in_vain(
            kept_goals(goals, now, goals.len()),
            waiting_for_none(waiters, expired_ids(goals, now, goals.len())),
        ),
{
    let ids = expired_ids(goals, now, goals.len());
    let kept = kept_goals(goals, now, goals.len());
    let left = waiting_for_none(waiters, ids);
    none_keep_waiting(waiters, ids);
    assert forall|i: int| 0 <= i < left.len() implies is_active(
        kept,
        (#[trigger] left[i]).goal_id,
    ) by {
        let id = left[i].goal_id;
        let k = choose|k: int| 0 <= k < waiters.len() && waiters[k] == left[i];
        assert(is_active(goals, waiters[k].goal_id));
        goal_index_finds(goals, id);
        let at = goal_index(goals, id) as int;
        if is_expired(goals[at], now) {
            expired_ids_has(goals, now, goals.len(), at);
        } else {
            kept_goals_has(goals, now, goals.len(), at);
        }
    }
}

proof fn none_keep_waiting(waiters: Seq<Waiter>, ids: Seq<GoalId>)
    ensures
        forall|i: int|
            0 <= i < waiting_for_none(waiters, ids).len() ==> {
                &&& waiters.contains(#[trigger] waiting_for_none(waiters, ids)[i])
                &&& !ids.contains(waiting_for_none(waiters, ids)[i].goal_id)
            },
    decreases ids.len(),
{
    if ids.len() == 0 {
        assert forall|i: int| 0 <= i < waiting_for_none(waiters, ids).len() implies {
            &&& waiters.contains(#[trigger] waiting_for_none(waiters, ids)[i])
            &&& !ids.contains(waiting_for_none(waiters, ids)[i].goal_id)
        } by {
            assert(waiters[i] == waiting_for_none(waiters, ids)[i]);
        }
    } else {
        let before = waiting_for_none(waiters, ids.drop_last());
        let after = waiting_for_none(waiters, ids);
        none_keep_waiting(waiters, ids.drop_last());
        others_keep_waiting(before, ids.last());
        assert forall|i: int| 0 <= i < after.len() implies {
            &&& waiters.contains(#[trigger] after[i])
            &&& !ids.contains(after[i].goal_id)
        } by {
            assert(after[i].goal_id != ids.last());
            assert(before.contains(after[i]));
            let k = choose|k: int| 0 <= k < before.len() && before[k] == after[i];
            assert(waiters.contains(before[k]));
            if ids.contains(after[i].goal_id) {
                let m = choose|m: int| 0 <= m < ids.len() && ids[m] == after[i].goal_id;
                assert(m < ids.len() - 1);
                assert(ids.drop_last()[m] == before[k].goal_id);
            }
        }
    }
}

proof fn expired_ids_has<G, R>(goals: Seq<GoalEntry<G, R>>, now: u128, n: nat, at: int)
    requires
        0 <= at < n <= goals.len(),
        is_expired(goals[at], now),
    ensures
        expired_ids(goals, now, n).contains(goals[at].id),
    decreases n,
{
    let before = expired_ids(goals, now, (n - 1) as nat);
    let after = expired_ids(goals, now, n);
    if at == n - 1 {
        assert(after[before.len() as int] == goals[at].id);
    } else {
        expired_ids_has(goals, now, (n - 1) as nat, at);
        let k = choose|k: int| 0 <= k < before.len() && before[k] == goals[at].id;
        assert(after[k] == goals[at].id);
    }
}

/// A goal that is kept is found with its state.
proof fn kept_goals_has<G, R>(goals: Seq<GoalEntry<G, R>>, now: u128, n: nat, at: int)
    requires
        0 <= at < n <= goals.len(),
        distinct(goals),
        !is_expired(goals[at], now),
    ensures
        ({
            let kept = kept_goals(goals, now, n);
            let i = goal_index(kept, goals[at].id) as int;
            i < kept.len() && kept[i] == goals[at]
        }),
    decreases n,
{
    let before = kept_goals(goals, now, (n - 1) as nat);
    let id = goals[at].id;
    if at == n - 1 {
        kept_goals_lacks(goals, now, (n - 1) as nat, id);
        goal_index_finds(before, id);
        goal_index_finds(before.push(goals[at]), id);
        let i = goal_index(before.push(goals[at]), id) as int;
        assert(before.push(goals[at])[before.len() as int].id == id);
        if i < before.len() {
            assert(before[i].id != id);
        }
    } else {
        kept_goals_has(goals, now, (n - 1) as nat, at);
        if !is_expired(goals[n - 1], now) {
            goal_index_after_push(before, goals[n - 1], id);
        }
    }
}

proof fn kept_goals_lacks<G, R>(goals: Seq<GoalEntry<G, R>>, now: u128, n: nat, id: GoalId)
    requires
        n <= goals.len(),
        forall|i: int| 0 <= i < n ==> (#[trigger] goals[i]).id != id,
    ensures
        forall|i: int|
            0 <= i < kept_goals(goals, now, n).len() ==> (#[trigger] kept_goals(
                goals,
                now,
                n,
            )[i]).id != id,
    decreases n,
{
    if n > 0 {
        kept_goals_lacks(goals, now, (n - 1) as nat, id);
        let before = kept_goals(goals, now, (n - 1) as nat);
        let after = kept_goals(goals, now, n);
        assert forall|i: int| 0 <= i < after.len() implies (#[trigger] after[i]).id != id by {
            if i < before.len() {
                assert(after[i] == before[i]);
            }
        }
    }
}

/// A goal that has ended stays as it ended, whatever is canceled.
pub proof fn ended_goals_are_not_canceled<G, R>(
    goals: Seq<GoalEntry<G, R>>,
    requested: GoalInfo,
    i: int,
)
    requires
        0 <= i < goals.len(),
        !active(goals[i].state),
    ensures
        goals_after_cancel(goals, requested)[i] == goals[i],
{
}

/// A request without a goal and a time cancels every goal that is accepted or
/// executing.
pub proof fn cancel_all_reaches_every_goal<G, R>(goals: Seq<GoalEntry<G, R>>, i: int)
    requires
        0 <= i < goals.len(),
    ensures
        ({
            let all = GoalInfo { goal_id: GoalId { uuid: 0 }, stamp: no_time() };
            let s = goals_after_cancel(goals, all)[i].state;
            s is Canceling || s is Terminated
        }),
{
}

/// Canceling a second time finds nothing more to cancel.
pub proof fn cancel_is_idempotent<G, R>(goals: Seq<GoalEntry<G, R>>, requested: GoalInfo)
    ensures
        goals_after_cancel(goals_after_cancel(goals, requested), requested)
            == goals_after_cancel(goals, requested),
        cancel_list(
            goals_after_cancel(goals, requested),
            requested,
            goals.len(),
        ).len() == 0,
{
    let after = goals_after_cancel(goals, requested);
    assert(goals_after_cancel(after, requested) =~= after);
    nothing_selected(after, requested, after.len());
}

proof fn nothing_selected<G, R>(goals: Seq<GoalEntry<G, R>>, requested: GoalInfo, n: nat)
    requires
        n <= goals.len(),
        forall|i: int| 0 <= i < goals.len() ==> !selected(#[trigger] goals[i], requested),
    ensures
        cancel_list(goals, requested, n).len() == 0,
    decreases n,
{
    if n > 0 {
        nothing_selected(goals, requested, (n - 1) as nat);
    }
}

/// A request to cancel raises the flags of the goals that it selects, and no
/// others.
pub proof fn cancel_raises_selected_flags<G, R>(
    goals: Seq<GoalEntry<G, R>>,
    flags: Seq<bool>,
    requested: GoalInfo,
    n: nat,
    k: int,
)
    requires
        n <= goals.len(),
        0 <= k < flags.len(),
        forall|i: int|
            0 <= i < goals.len() && active((#[trigger] goals[i]).state) ==> flag_of(goals[i].state)
                < flags.len(),
    ensures
        flags_after_cancel(goals, flags, requested, n).len() == flags.len(),
        flags_after_cancel(goals, flags, requested, n)[k] <==> flags[k] || exists|i: int|
            0 <= i < n && selected(#[trigger] goals[i], requested) && flag_of(goals[i].state) == k,
    decreases n,
{
    if n > 0 {
        cancel_raises_selected_flags(goals, flags, requested, (n - 1) as nat, k);
        if selected(goals[n - 1], requested) && flag_of(goals[n - 1].state) == k {
            assert(0 <= n - 1 < n);
        }
        if exists|i: int|
            0 <= i < n && selected(#[trigger] goals[i], requested) && flag_of(goals[i].state)
                == k {
            let i = choose|i: int|
                0 <= i < n && selected(#[trigger] goals[i], requested) && flag_of(
                    goals[i].state,
                ) == k;
            if i < n - 1 {
                assert(0 <= i < n - 1 && selected(goals[i], requested));
            }
        }
    }
}

/// The time at which a goal was accepted stays with it while it executes, is
/// canceled and ends.
pub proof fn the_time_of_acceptance_stays<G, R>(
    goals: Seq<GoalEntry<G, R>>,
    i: int,
    id: GoalId,
    requested: GoalInfo,
    result: Arc<R>,
    status: GoalStatus,
    now: u128,
    timeout: u128,
)
    requires
        0 <= i < goals.len(),
    ensures
        status_of(goals_after_cancel(goals, requested)[i].state).1 == status_of(goals[i].state).1,
        status_of(goals_executing(goals, id)[i].state).1 == status_of(goals[i].state).1,
        status_of(ended(goals[i].state, result, status, now, timeout)).1 == status_of(
            goals[i].state,
        ).1,
{
}

/// The nanoseconds of a time stamp.
pub open spec fn nanoseconds(t: Time) -> int {
    t.sec * 1_000_000_000 + t.nanosec
}

/// A goal that is accepted or executing is canceled by a request just where the
/// request names it, or gives a time and the goal was accepted at that time or
/// before, or gives neither; it then keeps its goal, flag and times. Any other goal
/// stays as it is.
pub proof fn cancel_reaches_named_and_earlier_goals<G, R>(
    goals: Seq<GoalEntry<G, R>>,
    requested: GoalInfo,
    i: int,
)
    requires
        0 <= i < goals.len(),
        requested.stamp.nanosec < 1_000_000_000,
        goals[i].state matches ServerGoalState::Accepted { accepted_at, .. }
            ==> accepted_at.nanosec < 1_000_000_000,
        goals[i].state matches ServerGoalState::Executing { accepted_at, .. }
            ==> accepted_at.nanosec < 1_000_000_000,
    ensures
        goals_after_cancel(goals, requested).len() == goals.len(),
        goals_after_cancel(goals, requested)[i].id == goals[i].id,
        ({
            let after = goals_after_cancel(goals, requested)[i].state;
            let named = requested.goal_id.uuid > 0 && goals[i].id.uuid == requested.goal_id.uuid;
            let timed = requested.stamp.sec != 0 || requested.stamp.nanosec != 0;
            let any = requested.goal_id.uuid == 0 && !timed;
            match goals[i].state {
                ServerGoalState::Accepted { goal, cancel_flag, accepted_at, expires_at } => if any
                    || named || timed && nanoseconds(accepted_at) <= nanoseconds(requested.stamp) {
                    after == (ServerGoalState::<G, R>::Canceling {
                        goal,
                        cancel_flag,
                        accepted_at,
                        expires_at,
                    })
                } else {
                    after == goals[i].state
                },
                ServerGoalState::Executing { goal, cancel_flag, accepted_at, expires_at } => if any
                    || named || timed && nanoseconds(accepted_at) <= nanoseconds(requested.stamp) {
                    after == (ServerGoalState::<G, R>::Canceling {
                        goal,
                        cancel_flag,
                        accepted_at,
                        expires_at,
                    })
                } else {
                    after == goals[i].state
                },
                _ => after == goals[i].state,
            }
        }),
{
}

/// Whether goal `i` is not canceling in `before` and is in `after`.
pub open spec fn turned<G, R>(
    before: Seq<GoalEntry<G, R>>,
    after: Seq<GoalEntry<G, R>>,
    i: int,
) -> bool {
    before[i].state !is Canceling && after[i].state is Canceling
}

/// The answer to a request to cancel lists the goals that it turned to canceling,
/// with the times at which they were accepted, and no others; the flags that it
/// raises are theirs.
pub proof fn the_answer_lists_what_was_canceled<G, R>(
    goals: Seq<GoalEntry<G, R>>,
    flags: Seq<bool>,
    requested: GoalInfo,
    info: GoalInfo,
    k: int,
)
    requires
        0 <= k < flags.len(),
        forall|i: int|
            0 <= i < goals.len() && active((#[trigger] goals[i]).state) ==> flag_of(goals[i].state)
                < flags.len(),
    ensures
        ({
            let after = goals_after_cancel(goals, requested);
            &&& cancel_list(goals, requested, goals.len()).contains(info) <==> exists|i: int|
                0 <= i < goals.len() && #[trigger] turned(goals, after, i) && info.goal_id
                    == after[i].id && info.stamp == after[i].state->Canceling_accepted_at
            &&& flags_after_cancel(goals, flags, requested, goals.len())[k] <==> flags[k] || exists|
                i: int,
            |
                0 <= i < goals.len() && #[trigger] turned(goals, after, i)
                    && after[i].state->Canceling_cancel_flag == k
        }),
{
    let after = goals_after_cancel(goals, requested);
    assert forall|i: int| 0 <= i < goals.len() implies #[trigger] turned(goals, after, i)
        == selected(goals[i], requested) by {
    }
    cancel_list_has(goals, requested, goals.len(), info);
    cancel_raises_selected_flags(goals, flags, requested, goals.len(), k);
    if cancel_list(goals, requested, goals.len()).contains(info) {
        let i = choose|i: int|
            0 <= i < goals.len() && selected(#[trigger] goals[i], requested) && info == (GoalInfo {
                goal_id: goals[i].id,
                stamp: status_of(goals[i].state).1,
            });
        assert(turned(goals, after, i));
    }
    if exists|i: int|
        0 <= i < goals.len() && #[trigger] turned(goals, after, i) && info.goal_id == after[i].id
            && info.stamp == after[i].state->Canceling_accepted_at {
        let i = choose|i: int|
            0 <= i < goals.len() && #[trigger] turned(goals, after, i) && info.goal_id
                == after[i].id && info.stamp == after[i].state->Canceling_accepted_at;
        assert(selected(goals[i], requested));
    }
    if exists|i: int|
        0 <= i < goals.len() && selected(#[trigger] goals[i], requested) && flag_of(goals[i].state)
            == k {
        let i = choose|i: int|
            0 <= i < goals.len() && selected(#[trigger] goals[i], requested) && flag_of(
                goals[i].state,
            ) == k;
        assert(turned(goals, after, i));
    }
    if exists|i: int|
        0 <= i < goals.len() && #[trigger] turned(goals, after, i)
            && after[i].state->Canceling_cancel_flag == k {
        let i = choose|i: int|
            0 <= i < goals.len() && #[trigger] turned(goals, after, i)
                && after[i].state->Canceling_cancel_flag == k;
        assert(selected(goals[i], requested));
        assert(flag_of(goals[i].state) == k);
    }
}

proof fn cancel_list_has<G, R>(
    goals: Seq<GoalEntry<G, R>>,
    requested: GoalInfo,
    n: nat,
    info: GoalInfo,
)
    requires
        n <= goals.len(),
    ensures
        cancel_list(goals, requested, n).contains(info) <==> exists|i: int|
            0 <= i < n && selected(#[trigger] goals[i], requested) && info == (GoalInfo {
                goal_id: goals[i].id,
                stamp: status_of(goals[i].state).1,
            }),
    decreases n,
{
    if n > 0 {
        let m = (n - 1) as nat;
        let before = cancel_list(goals, requested, m);
        let after = cancel_list(goals, requested, n);
        let last = GoalInfo { goal_id: goals[m as int].id, stamp: status_of(goals[m as int].state).1 };
        cancel_list_has(goals, requested, m, info);
        if after.contains(info) {
            let j = choose|j: int| 0 <= j < after.len() && after[j] == info;
            if j < before.len() {
                assert(before[j] == info);
                assert(before.contains(info));
            } else {
                assert(selected(goals[m as int], requested));
            }
        }
        if exists|i: int|
            0 <= i < n && selected(#[trigger] goals[i], requested) && info == (GoalInfo {
                goal_id: goals[i].id,
                stamp: status_of(goals[i].state).1,
            }) {
            let i = choose|i: int|
                0 <= i < n && selected(#[trigger] goals[i], requested) && info == (GoalInfo {
                    goal_id: goals[i].id,
                    stamp: status_of(goals[i].state).1,
                });
            if i < m {
                assert(before.contains(info));
                let j = choose|j: int| 0 <= j < before.len() && before[j] == info;
                assert(after[j] == info);
            } else {
                assert(after[before.len() as int] == last);
            }
        }
    }
}

/// The answer says 0 where a goal was canceled or none was named; otherwise 2 where
/// nobody knows the goal that was named, 3 where it has ended, and 1 where it is
/// canceling already.
pub proof fn the_answer_says_why_nothing_was_canceled<G, R>(
    goals: Seq<GoalEntry<G, R>>,
    requested: GoalInfo,
    i: int,
)
    requires
        distinct(goals),
    ensures
        ({
            let nothing = cancel_list(goals, requested, goals.len()).len() == 0
                && requested.goal_id.uuid > 0;
            let code = cancel_code(goals, requested);
            &&& !nothing ==> code == 0
            &&& nothing && (forall|j: int|
                0 <= j < goals.len() ==> (#[trigger] goals[j]).id != requested.goal_id) ==> code == 2
            &&& nothing && 0 <= i < goals.len() && goals[i].id == requested.goal_id ==> code == (
            match goals[i].state {
                ServerGoalState::Terminated { .. } => 3i8,
                _ => 1i8,
            })
        }),
{
    let at = goal_index(goals, requested.goal_id) as int;
    goal_index_finds(goals, requested.goal_id);
    if 0 <= i < goals.len() && goals[i].id == requested.goal_id && at != i {
        if at < i {
            assert(goals[at].id != goals[i].id);
        } else {
            assert(goals[i].id != requested.goal_id);
        }
    }
}

/// The numbers of the statuses: 0 unknown, 1 accepted, 2 executing, 3 canceling,
/// 4 succeeded, 5 canceled, 6 aborted.
pub proof fn statuses_have_their_numbers(s: GoalStatus)
    ensures
        status_code(s) == 0 <==> s is Unknown,
        status_code(s) == 1 <==> s is Accepted,
        status_code(s) == 2 <==> s is Executing,
        status_code(s) == 3 <==> s is Canceling,
        status_code(s) == 4 <==> s is Succeeded,
        status_code(s) == 5 <==> s is Canceled,
        status_code(s) == 6 <==> s is Aborted,
{
}

/// The published status of each goal says where it stands and when it was accepted.
pub proof fn the_status_shows_each_goal<G, R>(goals: Seq<GoalEntry<G, R>>, i: int)
    requires
        0 <= i < goals.len(),
    ensures
        status_list(goals).len() == goals.len(),
        status_list(goals)[i].goal_info.goal_id.uuid == goals[i].id.uuid,
        match goals[i].state {
            ServerGoalState::Accepted { accepted_at, .. } => status_list(goals)[i].status is Accepted
                && status_list(goals)[i].goal_info.stamp == accepted_at,
            ServerGoalState::Executing { accepted_at, .. } => status_list(goals)[i].status
                is Executing && status_list(goals)[i].goal_info.stamp == accepted_at,
            ServerGoalState::Canceling { accepted_at, .. } => status_list(goals)[i].status
                is Canceling && status_list(goals)[i].goal_info.stamp == accepted_at,
            ServerGoalState::Terminated { status, accepted_at, .. } => status_list(goals)[i].status
                == status && status_list(goals)[i].goal_info.stamp == accepted_at,
        },
{
}

/// The time at which state `s` is forgotten, as it stands in it.
pub open spec fn forgotten_at<G, R>(s: ServerGoalState<G, R>) -> Option<u128> {
    match s {
        ServerGoalState::Accepted { expires_at, .. } => expires_at,
        ServerGoalState::Executing { expires_at, .. } => expires_at,
        ServerGoalState::Canceling { expires_at, .. } => expires_at,
        ServerGoalState::Terminated { expires_at, .. } => expires_at,
    }
}

/// Goals are kept until the time at which they are forgotten, without one for
/// ever: those that are kept and those that are forgotten are all goals.
pub proof fn goals_are_kept_until_forgotten<G, R>(
    goals: Seq<GoalEntry<G, R>>,
    now: u128,
    e: GoalEntry<G, R>,
)
    ensures
        kept_goals(goals, now, goals.len()).contains(e) <==> goals.contains(e) && (forgotten_at(
            e.state,
        ) matches Some(t) ==> now < t),
        goals.contains(e) && (forgotten_at(e.state) matches Some(t) && now >= t)
            ==> expired_ids(goals, now, goals.len()).contains(e.id),
        kept_goals(goals, now, goals.len()).len() + expired_ids(goals, now, goals.len()).len()
            == goals.len(),
{
    goals_kept_and_forgotten(goals, now, goals.len(), e);
    if goals.contains(e) {
        let i = choose|i: int| 0 <= i < goals.len() && goals[i] == e;
        assert(goals[i] == e);
        if is_expired(e, now) {
            expired_ids_has(goals, now, goals.len(), i);
        }
    }
}

proof fn goals_kept_and_forgotten<G, R>(
    goals: Seq<GoalEntry<G, R>>,
    now: u128,
    n: nat,
    e: GoalEntry<G, R>,
)
    requires
        n <= goals.len(),
    ensures
        kept_goals(goals, now, n).len() + expired_ids(goals, now, n).len() == n,
        kept_goals(goals, now, n).contains(e) <==> !is_expired(e, now) && exists|i: int|
            0 <= i < n && #[trigger] goals[i] == e,
    decreases n,
{
    if n > 0 {
        let m = (n - 1) as nat;
        let before = kept_goals(goals, now, m);
        let after = kept_goals(goals, now, n);
        goals_kept_and_forgotten(goals, now, m, e);
        if after.contains(e) {
            let j = choose|j: int| 0 <= j < after.len() && after[j] == e;
            if j < before.len() {
                assert(before[j] == e);
                assert(before.contains(e));
            } else {
                assert(goals[m as int] == e);
            }
        }
        if !is_expired(e, now) && exists|i: int| 0 <= i < n && #[trigger] goals[i] == e {
            let i = choose|i: int| 0 <= i < n && #[trigger] goals[i] == e;
            if i < m {
                assert(before.contains(e));
                let j = choose|j: int| 0 <= j < before.len() && before[j] == e;
                assert(after[j] == e);
            } else {
                assert(after[before.len() as int] == e);
            }
        }
    }
}

/// A goal that ends keeps its result, status and time of acceptance, and is there
/// until the timeout has passed, and no longer.
pub proof fn results_are_kept_for_the_timeout<G, R>(
    s: ServerGoalState<G, R>,
    id: GoalId,
    result: Arc<R>,
    status: GoalStatus,
    now: u128,
    timeout: u128,
    later: u128,
)
    requires
        now + timeout <= u128::MAX,
        now <= later,
    ensures
        ended(s, result, status, now, timeout) matches ServerGoalState::Terminated {
            result: r,
            status: t,
            timestamp,
            ..
        } && r == result && t == status && timestamp == now,
        kept_goals(
            seq![GoalEntry { id, state: ended(s, result, status, now, timeout) }],
            later,
            1,
        ).len() == (if later - now < timeout {
            1nat
        } else {
            0nat
        }),
{
    let one = seq![GoalEntry { id, state: ended(s, result, status, now, timeout) }];
    assert(kept_goals(one, later, 0) =~= Seq::<GoalEntry<G, R>>::empty());
    assert(kept_goals(one, later, 1) == if is_expired(one[0], later) {
        kept_goals(one, later, 0)
    } else {
        kept_goals(one, later, 0).push(one[0])
    });
}

/// Requests that wait are remembered in the order in which they came, and each
/// under its own goal.
pub proof fn requests_wait_in_order(waiters: Seq<Waiter>, w: Waiter, id: GoalId)
    ensures
        waiting_for(Seq::empty(), id).len() == 0,
        waiting_for(waiters.push(w), id) == (if w.goal_id.uuid == id.uuid {
            waiting_for(waiters, id).push(w.request)
        } else {
            waiting_for(waiters, id)
        }),
        waiting_for_others(waiters.push(w), id) == (if w.goal_id.uuid == id.uuid {
            waiting_for_others(waiters, id)
        } else {
            waiting_for_others(waiters, id).push(w)
        }),
        waiting_for(waiters, id).len() + waiting_for_others(waiters, id).len() == waiters.len(),
    decreases waiters.len(),
{
    assert(waiters.push(w).drop_last() =~= waiters);
    if waiters.len() > 0 {
        requests_wait_in_order(waiters.drop_last(), waiters.last(), id);
        assert(waiters.drop_last().push(waiters.last()) =~= waiters);
    }
}

/// When goals are forgotten, each request that waits for one of them is answered,
/// and the others wait on.
pub proof fn requests_for_forgotten_goals_are_answered(
    waiters: Seq<Waiter>,
    ids: Seq<GoalId>,
    w: Waiter,
)
    ensures
        waiting_for_none(waiters, ids).contains(w) <==> waiters.contains(w) && !ids.contains(
            w.goal_id,
        ),
        waiters.contains(w) && ids.contains(w.goal_id) ==> waiting_for_each(waiters, ids).contains(
            w.request,
        ),
        waiting_for_each(waiters, ids).len() + waiting_for_none(waiters, ids).len()
            == waiters.len(),
    decreases ids.len(),
{
    if ids.len() > 0 {
        let first = ids.drop_last();
        let id = ids.last();
        let left = waiting_for_none(waiters, first);
        requests_for_forgotten_goals_are_answered(waiters, first, w);
        others_have(left, id, w);
        requests_wait_in_order(left, w, id);
        assert(ids.contains(w.goal_id) <==> first.contains(w.goal_id) || w.goal_id == id) by {
            if ids.contains(w.goal_id) {
                let j = choose|j: int| 0 <= j < ids.len() && ids[j] == w.goal_id;
                if j < first.len() {
                    assert(first[j] == w.goal_id);
                }
            }
            if first.contains(w.goal_id) {
                let j = choose|j: int| 0 <= j < first.len() && first[j] == w.goal_id;
                assert(ids[j] == w.goal_id);
            }
            if w.goal_id == id {
                assert(ids[ids.len() - 1] == w.goal_id);
            }
        }
        let a = waiting_for_each(waiters, first);
        let b = waiting_for(left, id);
        if waiters.contains(w) && ids.contains(w.goal_id) {
            if first.contains(w.goal_id) {
                let j = choose|j: int| 0 <= j < a.len() && a[j] == w.request;
                assert((a + b)[j] == w.request);
            } else {
                let j = choose|j: int| 0 <= j < b.len() && b[j] == w.request;
                assert((a + b)[a.len() + j] == w.request);
            }
        }
    }
}

proof fn others_have(waiters: Seq<Waiter>, id: GoalId, w: Waiter)
    ensures
        waiting_for_others(waiters, id).contains(w) <==> waiters.contains(w) && w.goal_id != id,
        waiters.contains(w) && w.goal_id == id ==> waiting_for(waiters, id).contains(w.request),
    decreases waiters.len(),
{
    if waiters.len() > 0 {
        let before = waiters.drop_last();
        let last = waiters.last();
        others_have(before, id, w);
        assert(waiters.contains(w) <==> before.contains(w) || w == last) by {
            if waiters.contains(w) {
                let j = choose|j: int| 0 <= j < waiters.len() && waiters[j] == w;
                if j < before.len() {
                    assert(before[j] == w);
                }
            }
            if before.contains(w) {
                let j = choose|j: int| 0 <= j < before.len() && before[j] == w;
                assert(waiters[j] == w);
            }
            if w == last {
                assert(waiters[waiters.len() - 1] == w);
            }
        }
        let a = waiting_for_others(before, id);
        let b = waiting_for(before, id);
        if last.goal_id == id {
            let c = b.push(last.request);
            if b.contains(w.request) {
                let j = choose|j: int| 0 <= j < b.len() && b[j] == w.request;
                assert(c[j] == w.request);
            }
            assert(c[b.len() as int] == last.request);
        } else {
            let c = a.push(last);
            if a.contains(w) {
                let j = choose|j: int| 0 <= j < a.len() && a[j] == w;
                assert(c[j] == w);
            }
            assert(c[a.len() as int] == last);
            if c.contains(w) {
                let j = choose|j: int| 0 <= j < c.len() && c[j] == w;
                if j < a.len() {
                    assert(a[j] == w);
                }
            }
        }
    }
}

/// The state of goal `id` among `goals`, where it is entered.
pub open spec fn found<G, R>(goals: Seq<GoalEntry<G, R>>, id: GoalId, s: ServerGoalState<G, R>) -> bool {
    exists|i: int| 0 <= i < goals.len() && #[trigger] goals[i] == (GoalEntry { id, state: s })
}

/// A goal that is accepted is entered under its identifier in place of what stood
/// there; the other goals stay.
pub proof fn acceptance_enters_one_goal<G, R>(
    goals: Seq<GoalEntry<G, R>>,
    e: GoalEntry<G, R>,
    other: GoalId,
    s: ServerGoalState<G, R>,
)
    requires
        distinct(goals),
    ensures
        distinct(with_goal(goals, e)),
        found(with_goal(goals, e), e.id, s) <==> s == e.state,
        other != e.id ==> (found(with_goal(goals, e), other, s) <==> found(goals, other, s)),
{
    let after = with_goal(goals, e);
    let at = goal_index(goals, e.id) as int;
    goal_index_finds(goals, e.id);
    assert(after[at] == e);
    assert forall|i: int, j: int| 0 <= i < j < after.len() implies (#[trigger] after[i]).id != (
    #[trigger] after[j]).id by {
        if i < goals.len() && j < goals.len() {
            assert(goals[i].id != goals[j].id);
        }
    }
    if found(after, e.id, s) {
        let i = choose|i: int|
            0 <= i < after.len() && #[trigger] after[i] == (GoalEntry { id: e.id, state: s });
        if i < at {
            assert(after[i].id != after[at].id);
        } else if i > at {
            assert(after[at].id != after[i].id);
        }
    }
    if other != e.id {
        if found(after, other, s) {
            let i = choose|i: int|
                0 <= i < after.len() && #[trigger] after[i] == (GoalEntry { id: other, state: s });
            assert(goals[i] == after[i]);
        }
        if found(goals, other, s) {
            let i = choose|i: int|
                0 <= i < goals.len() && #[trigger] goals[i] == (GoalEntry { id: other, state: s });
            assert(goals[i] == after[i]);
        }
    }
}

/// A goal that begins to execute was accepted, and keeps its goal, flag and times;
/// one in another state, and any other goal, stays as it is.
pub proof fn execution_begins_from_acceptance<G, R>(
    goals: Seq<GoalEntry<G, R>>,
    id: GoalId,
    i: int,
)
    requires
        distinct(goals),
        0 <= i < goals.len(),
    ensures
        goals_executing(goals, id).len() == goals.len(),
        goals_executing(goals, id)[i].id == goals[i].id,
        match goals[i].state {
            ServerGoalState::Accepted { goal, cancel_flag, accepted_at, expires_at } => if goals[i].id
                == id {
                goals_executing(goals, id)[i].state == (ServerGoalState::<G, R>::Executing {
                    goal,
                    cancel_flag,
                    accepted_at,
                    expires_at,
                })
            } else {
                goals_executing(goals, id)[i] == goals[i]
            },
            _ => goals_executing(goals, id)[i] == goals[i],
        },
{
    let at = goal_index(goals, id) as int;
    goal_index_finds(goals, id);
    if at < i && goals[i].id == id {
        assert(goals[at].id != goals[i].id);
    }
}

/// Requests to cancel are processed in order: those of two lists one list after
/// the other, and a single one as it is.
pub proof fn requests_are_processed_in_order<G, R>(
    goals: Seq<GoalEntry<G, R>>,
    flags: Seq<bool>,
    first: Seq<GoalInfo>,
    second: Seq<GoalInfo>,
)
    ensures
        goals_after_requests(goals, seq![], 0) == goals,
        flags_after_requests(goals, flags, seq![], 0) == flags,
        first.len() == 1 ==> goals_after_requests(goals, first, 1) == goals_after_cancel(
            goals,
            first[0],
        ),
        first.len() == 1 ==> flags_after_requests(goals, flags, first, 1) == flags_after_cancel(
            goals,
            flags,
            first[0],
            goals.len(),
        ),
        goals_after_requests(goals, first + second, first.len() + second.len())
            == goals_after_requests(
            goals_after_requests(goals, first, first.len()),
            second,
            second.len(),
        ),
        flags_after_requests(goals, flags, first + second, first.len() + second.len())
            == flags_after_requests(
            goals_after_requests(goals, first, first.len()),
            flags_after_requests(goals, flags, first, first.len()),
            second,
            second.len(),
        ),
{
    requests_split(goals, flags, first, second, second.len());
    if first.len() == 1 {
        reveal_with_fuel(goals_after_requests, 2);
        reveal_with_fuel(flags_after_requests, 2);
    }
}

proof fn requests_split<G, R>(
    goals: Seq<GoalEntry<G, R>>,
    flags: Seq<bool>,
    first: Seq<GoalInfo>,
    second: Seq<GoalInfo>,
    n: nat,
)
    requires
        n <= second.len(),
    ensures
        goals_after_requests(goals, first + second, first.len() + n) == goals_after_requests(
            goals_after_requests(goals, first, first.len()),
            second,
            n,
        ),
        flags_after_requests(goals, flags, first + second, first.len() + n) == flags_after_requests(
            goals_after_requests(goals, first, first.len()),
            flags_after_requests(goals, flags, first, first.len()),
            second,
            n,
        ),
    decreases n,
{
    if n == 0 {
        requests_of_longer(goals, flags, first, second, first.len());
    } else {
        requests_split(goals, flags, first, second, (n - 1) as nat);
        assert((first + second)[first.len() + n - 1] == second[n - 1]);
        assert((first.len() + n - 1) as nat == first.len() + (n - 1) as nat);
    }
}

proof fn requests_of_longer<G, R>(
    goals: Seq<GoalEntry<G, R>>,
    flags: Seq<bool>,
    first: Seq<GoalInfo>,
    second: Seq<GoalInfo>,
    n: nat,
)
    requires
        n <= first.len(),
    ensures
        goals_after_requests(goals, first + second, n) == goals_after_requests(goals, first, n),
        flags_after_requests(goals, flags, first + second, n) == flags_after_requests(
            goals,
            flags,
            first,
            n,
        ),
    decreases n,
{
    if n > 0 {
        requests_of_longer(goals, flags, first, second, (n - 1) as nat);
        assert((first + second)[n - 1] == first[n - 1]);
    }
}

/// The time of a clock and its time stamp are the same number of nanoseconds,
/// where the seconds fit; times before the epoch give the epoch, and beyond the
/// seconds that fit only the nanoseconds are kept.
pub proof fn time_stamps_hold_the_time(a: i64)
    ensures
        stamp_of(a).nanosec < 1_000_000_000,
        a < 0 ==> nanoseconds(stamp_of(a)) == 0,
        0 <= a < 0x8000_0000 * 1_000_000_000 ==> nanoseconds(stamp_of(a)) == a,
        a >= 0x8000_0000 * 1_000_000_000 ==> stamp_of(a).sec == 0x7fff_ffff
            && (a - stamp_of(a).nanosec) % 1_000_000_000 == 0,
{
}

/// Whether a request to cancel reaches a goal that was accepted at a time: it names
/// the goal, or gives a time that is not earlier, or gives neither.
pub open spec fn reaches(requested: GoalInfo, id: GoalId, accepted_at: Time) -> bool {
    let timed = nanoseconds(requested.stamp) != 0;
    ||| requested.goal_id.uuid == 0 && !timed
    ||| requested.goal_id.uuid != 0 && requested.goal_id.uuid == id.uuid
    ||| timed && nanoseconds(accepted_at) <= nanoseconds(requested.stamp)
}

/// A request to cancel that is processed turns just the goals that it reaches to
/// canceling, says so of each of them and no other, and publishes the status where
/// there are any.
pub proof fn processing_cancels_what_is_reached<G, R>(
    server: &mut ZActionServer<G, R>,
    requested: &GoalInfo,
    r: (CancelGoalServiceResponse, Option<StatusMessage>),
    i: int,
)
    requires
        call_ensures(ZActionServer::<G, R>::process_cancel_request, (server, requested), r),
        old(server).wf(),
        0 <= i < old(server).goals@.len(),
        0 <= requested.stamp.sec && requested.stamp.nanosec < 1_000_000_000,
        status_of(old(server).goals@[i].state).1.nanosec < 1_000_000_000,
    ensures
        final(server).goals@.len() == old(server).goals@.len(),
        final(server).goals@[i].id == old(server).goals@[i].id,
        match old(server).goals@[i].state {
            ServerGoalState::Accepted { accepted_at, .. } => (final(server).goals@[i].state
                is Canceling <==> reaches(*requested, old(server).goals@[i].id, accepted_at)) && (
            final(server).goals@[i].state !is Canceling ==> final(server).goals@[i]
                == old(server).goals@[i]),
            ServerGoalState::Executing { accepted_at, .. } => (final(server).goals@[i].state
                is Canceling <==> reaches(*requested, old(server).goals@[i].id, accepted_at)) && (
            final(server).goals@[i].state !is Canceling ==> final(server).goals@[i]
                == old(server).goals@[i]),
            _ => final(server).goals@[i] == old(server).goals@[i],
        },
        turned(old(server).goals@, final(server).goals@, i) <==> exists|k: int|
            0 <= k < r.0.goals_canceling@.len() && (
            #[trigger] r.0.goals_canceling@[k]).goal_id == old(server).goals@[i].id,
        turned(old(server).goals@, final(server).goals@, i) ==> r.0.return_code == 0 && r.1 is Some,
        r.1 is Some <==> r.0.goals_canceling@.len() > 0,
        r.1 matches Some(m) ==> m.status_list@.len() == old(server).goals@.len() && (
        m.status_list@[i].goal_info.goal_id == old(server).goals@[i].id) && (m.status_list@[i].status
            is Canceling <==> status_of(final(server).goals@[i].state).0 is Canceling),
        final(server).waiters@ == old(server).waiters@,
{
    let before = old(server).goals@;
    let after = goals_after_cancel(before, *requested);
    cancel_reaches_named_and_earlier_goals(before, *requested, i);
    let list = cancel_list(before, *requested, before.len());
    let info = GoalInfo { goal_id: before[i].id, stamp: status_of(before[i].state).1 };
    cancel_list_has(before, *requested, before.len(), info);
    if turned(before, after, i) {
        assert(selected(before[i], *requested));
        assert(list.contains(info));
        let k = choose|k: int| 0 <= k < list.len() && list[k] == info;
        assert(r.0.goals_canceling@[k].goal_id == before[i].id);
    }
    if exists|k: int|
        0 <= k < r.0.goals_canceling@.len() && (#[trigger] r.0.goals_canceling@[k]).goal_id
            == before[i].id {
        let k = choose|k: int|
            0 <= k < r.0.goals_canceling@.len() && (#[trigger] r.0.goals_canceling@[k]).goal_id
                == before[i].id;
        cancel_list_has(before, *requested, before.len(), list[k]);
        assert(list.contains(list[k]));
        let j = choose|j: int|
            0 <= j < before.len() && selected(#[trigger] before[j], *requested) && list[k] == (
            GoalInfo { goal_id: before[j].id, stamp: status_of(before[j].state).1 });
        if j < i {
            assert(before[j].id != before[i].id);
        } else if i < j {
            assert(before[i].id != before[j].id);
        }
    }
}

} // verus!
