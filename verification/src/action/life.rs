//! The life of a goal, operation by operation.

use crate::action::driver::{handle_result_request, lost_result, ResultDecision};
use crate::action::laws::{
    acceptance_enters_one_goal, execution_begins_from_acceptance, found,
    goals_are_kept_until_forgotten, nanoseconds, requests_for_forgotten_goals_are_answered,
    time_stamps_hold_the_time,
};
use crate::action::server::{
    end_outcome, goal_index, goal_index_finds, goals_after_requests, waiting_for, waiting_for_each,
    waiting_for_none, waiting_for_others, AcceptOwed, Accepted, CancelOwed, DropOwed, Executing,
    GoalCleanup, GoalEntry, GoalHandle, Owed, Requested, Waiter, ZActionServer,
};
use crate::action::types::{
    stamp_of, status_code, FeedbackMessage, GetResultResponse, GoalId, GoalInfo, GoalResponse,
    GoalStatus, ServerGoalState, StatusMessage, Time,
};
use crate::time::ZClock;
use std::sync::Arc;
use vstd::prelude::*;

verus! {

/// Whether goal `id` of a server is in a state that has not ended.
pub open spec fn is_under_way<G, R>(server: ZActionServer<G, R>, id: GoalId) -> bool {
    exists|i: int|
        0 <= i < server.goals@.len() && (#[trigger] server.goals@[i]).id == id
            && server.goals@[i].state !is Terminated
}

/// A goal that is received is not answered yet and belongs to no flag.
pub proof fn a_goal_is_received_unanswered<G, R>(
    id: GoalId,
    goal: Arc<G>,
    handle: GoalHandle<G, Requested>,
)
    requires
        call_ensures(ZActionServer::<G, R>::recv_goal, (id, goal), handle),
    ensures
        handle.goal == goal,
        handle.info.goal_id == id,
        handle.cleanup.goal_id == id,
        handle.cleanup.unanswered && handle.cleanup.armed,
        handle.cancel_flag is None,
        nanoseconds(handle.info.stamp) == 0,
{
}

/// A goal that is accepted is entered as accepted at the time of the clock, with a
/// flag of its own that is not raised, until the timeout for goals has passed; the
/// answer says so where it is still owed. Other goals stay.
pub proof fn an_accepted_goal_is_entered<G, R>(
    handle: GoalHandle<G, Requested>,
    server: &mut ZActionServer<G, R>,
    clock: &ZClock,
    now: u128,
    r: (GoalHandle<G, Accepted>, AcceptOwed),
    other: GoalId,
    s: ServerGoalState<G, R>,
)
    requires
        call_ensures(GoalHandle::<G, Requested>::accept::<R>, (handle, server, clock, now), r),
        old(server).wf(),
        old(server).goal_timeout matches Some(t) ==> now + t <= u128::MAX,
        0 <= clock.time.unix_nanos < 0x8000_0000 * 1_000_000_000,
    ensures
        exists|flag: usize, at: Time, until: Option<u128>|
            {
                &&& #[trigger] found(
                    final(server).goals@,
                    handle.info.goal_id,
                    ServerGoalState::Accepted {
                        goal: handle.goal,
                        cancel_flag: flag,
                        accepted_at: at,
                        expires_at: until,
                    },
                )
                &&& flag == old(server).cancel_flags@.len() as usize
                &&& r.0.cancel_flag == Some(flag)
                &&& nanoseconds(at) == clock.time.unix_nanos
                &&& r.0.info.stamp == at
                &&& until == (match old(server).goal_timeout {
                    Some(t) => Some((now + t) as u128),
                    None => None,
                })
                &&& r.1.response == (if handle.cleanup.unanswered {
                    Some(
                        GoalResponse {
                            accepted: true,
                            stamp_sec: at.sec,
                            stamp_nanosec: at.nanosec,
                        },
                    )
                } else {
                    None
                })
            },
        final(server).cancel_flags@ == old(server).cancel_flags@.push(false),
        r.0.goal == handle.goal && r.0.info.goal_id == handle.info.goal_id,
        !r.0.cleanup.unanswered && r.0.cleanup.armed && r.0.cleanup.goal_id == handle.info.goal_id,
        other != handle.info.goal_id ==> (found(final(server).goals@, other, s) <==> found(
            old(server).goals@,
            other,
            s,
        )),
        final(server).waiters@ == old(server).waiters@,
        r.1.status.status_list@.len() == final(server).goals@.len(),
{
    let at = stamp_of(clock.time.unix_nanos);
    time_stamps_hold_the_time(clock.time.unix_nanos);
    let flag = old(server).cancel_flags@.len() as usize;
    let until = match old(server).goal_timeout {
        Some(t) => Some((now + t) as u128),
        None => None,
    };
    let state = ServerGoalState::Accepted {
        goal: handle.goal,
        cancel_flag: flag,
        accepted_at: at,
        expires_at: until,
    };
    let e = GoalEntry { id: handle.info.goal_id, state };
    acceptance_enters_one_goal(old(server).goals@, e, other, s);
    acceptance_enters_one_goal(old(server).goals@, e, other, state);
    assert(found(final(server).goals@, handle.info.goal_id, state));
}

/// A goal that is not taken is answered so where the answer is still owed.
pub proof fn a_rejected_goal_is_answered<G>(
    handle: GoalHandle<G, Requested>,
    r: Option<GoalResponse>,
)
    requires
        call_ensures(GoalHandle::<G, Requested>::reject, (handle,), r),
    ensures
        r is Some <==> handle.cleanup.unanswered,
        r matches Some(answer) ==> !answer.accepted && answer.stamp_sec == 0
            && answer.stamp_nanosec == 0,
{
}

/// A goal begins to execute where it is still accepted once the queued requests to
/// cancel are processed; each of them is answered.
pub proof fn an_accepted_goal_begins_to_execute<G, R>(
    handle: GoalHandle<G, Accepted>,
    server: &mut ZActionServer<G, R>,
    queued: &Vec<GoalInfo>,
    r: (GoalHandle<G, Executing>, Vec<CancelOwed>, StatusMessage),
    i: int,
)
    requires
        call_ensures(GoalHandle::<G, Accepted>::execute::<R>, (handle, server, queued), r),
        old(server).wf(),
        queued@.len() == 0,
        0 <= i < old(server).goals@.len(),
        handle.cancel_flag is Some,
    ensures
        final(server).goals@.len() == old(server).goals@.len(),
        final(server).goals@[i].id == old(server).goals@[i].id,
        old(server).goals@[i].id == handle.info.goal_id && old(server).goals@[i].state is Accepted
            ==> final(server).goals@[i].state is Executing,
        old(server).goals@[i].id != handle.info.goal_id || old(server).goals@[i].state !is Accepted
            ==> final(server).goals@[i] == old(server).goals@[i],
        final(server).cancel_flags@ == old(server).cancel_flags@,
        final(server).waiters@ == old(server).waiters@,
        r.0.goal == handle.goal && r.0.info == handle.info && r.0.cancel_flag == handle.cancel_flag,
        r.0.cleanup.armed && !r.0.cleanup.unanswered && r.0.cleanup.goal_id
            == handle.info.goal_id,
        r.1@.len() == 0,
        r.2.status_list@.len() == old(server).goals@.len(),
{
    assert(goals_after_requests(old(server).goals@, queued@, 0) == old(server).goals@);
    execution_begins_from_acceptance(old(server).goals@, handle.info.goal_id, i);
}

/// Whether ending goal `id` of a server with a result, a status and its number came
/// to `r`: where it was under way it has ended so, those who waited for it are told,
/// and nobody waits for it any more; otherwise nothing changed.
pub open spec fn ends_so<G, R>(
    before: ZActionServer<G, R>,
    after: ZActionServer<G, R>,
    id: GoalId,
    result: R,
    status: GoalStatus,
    code: int,
    now: u128,
    r: Result<Owed<R>, String>,
    w: Waiter,
) -> bool {
    match r {
        Ok(owed) => {
            &&& is_under_way(before, id)
            &&& !is_under_way(after, id)
            &&& exists|at: Time| #[trigger]
                found(
                    after.goals@,
                    id,
                    ServerGoalState::Terminated {
                        result: Arc::new(result),
                        status,
                        accepted_at: at,
                        timestamp: now,
                        expires_at: Some((now + before.result_timeout) as u128),
                    },
                )
            &&& owed.replies@.len() == waiting_for(before.waiters@, id).len()
            &&& forall|k: int|
                0 <= k < owed.replies@.len() ==> {
                    &&& (#[trigger] owed.replies@[k]).response.status == code
                    &&& *owed.replies@[k].response.result == result
                }
            &&& before.waiters@.contains(w) && w.goal_id == id ==> exists|k: int|
                0 <= k < owed.replies@.len() && (#[trigger] owed.replies@[k]).request == w.request
            &&& after.waiters@.contains(w) <==> before.waiters@.contains(w) && w.goal_id != id
            &&& after.goals@.len() == before.goals@.len()
            &&& forall|k: int|
                0 <= k < before.goals@.len() && (#[trigger] before.goals@[k]).id != id
                    ==> after.goals@[k] == before.goals@[k]
            &&& owed.status is Some
        },
        Err(e) => {
            &&& !is_under_way(before, id)
            &&& after == before
            &&& e@ == "goal is no longer active"@
        },
    }
}

/// A goal that is ended by its handle has ended so, with success as 4, as aborted as
/// 6 and as canceled as 5, and those who wait are told.
pub proof fn ending_a_goal_tells_those_who_wait<G, R>(
    handle: GoalHandle<G, Executing>,
    server: &mut ZActionServer<G, R>,
    result: R,
    now: u128,
    r: Result<Owed<R>, String>,
    w: Waiter,
)
    requires
        old(server).wf(),
        now + old(server).result_timeout <= u128::MAX,
    ensures
        call_ensures(GoalHandle::<G, Executing>::succeed::<R>, (handle, server, result, now), r)
            ==> ends_so(
            *old(server),
            *final(server),
            handle.info.goal_id,
            result,
            GoalStatus::Succeeded,
            4,
            now,
            r,
            w,
        ),
        call_ensures(GoalHandle::<G, Executing>::abort::<R>, (handle, server, result, now), r)
            ==> ends_so(
            *old(server),
            *final(server),
            handle.info.goal_id,
            result,
            GoalStatus::Aborted,
            6,
            now,
            r,
            w,
        ),
        call_ensures(GoalHandle::<G, Executing>::canceled::<R>, (handle, server, result, now), r)
            ==> ends_so(
            *old(server),
            *final(server),
            handle.info.goal_id,
            result,
            GoalStatus::Canceled,
            5,
            now,
            r,
            w,
        ),
{
    let id = handle.info.goal_id;
    if call_ensures(GoalHandle::<G, Executing>::succeed::<R>, (handle, server, result, now), r) {
        end_is_so(*old(server), *final(server), id, result, GoalStatus::Succeeded, now, r, w);
    }
    if call_ensures(GoalHandle::<G, Executing>::abort::<R>, (handle, server, result, now), r) {
        end_is_so(*old(server), *final(server), id, result, GoalStatus::Aborted, now, r, w);
    }
    if call_ensures(GoalHandle::<G, Executing>::canceled::<R>, (handle, server, result, now), r) {
        end_is_so(*old(server), *final(server), id, result, GoalStatus::Canceled, now, r, w);
    }
}

proof fn end_is_so<G, R>(
    before: ZActionServer<G, R>,
    after: ZActionServer<G, R>,
    id: GoalId,
    result: R,
    status: GoalStatus,
    now: u128,
    r: Result<Owed<R>, String>,
    w: Waiter,
)
    requires
        before.wf(),
        end_outcome(before, after, id, Arc::new(result), status, now, r),
    ensures
        ends_so(before, after, id, result, status, status_code(status) as int, now, r, w),
{
    let at = goal_index(before.goals@, id) as int;
    goal_index_finds(before.goals@, id);
    match r {
        Ok(owed) => {
            assert(before.goals@[at].id == id);
            assert(before.goals@[at].state !is Terminated);
            let entry = after.goals@[at];
            let s = entry.state;
            assert(entry == GoalEntry { id, state: s });
            assert(found(
                after.goals@,
                id,
                ServerGoalState::Terminated {
                    result: Arc::new(result),
                    status,
                    accepted_at: s->Terminated_accepted_at,
                    timestamp: now,
                    expires_at: Some((now + before.result_timeout) as u128),
                },
            ));
            assert forall|k: int|
                0 <= k < after.goals@.len() && (#[trigger] after.goals@[k]).id
                    == id implies after.goals@[k].state is Terminated by {
                if k < at {
                    assert(before.goals@[k].id != before.goals@[at].id);
                } else if at < k {
                    assert(before.goals@[at].id != before.goals@[k].id);
                }
            }
            waiting_requests(before.waiters@, id, w);
            let asked = waiting_for(before.waiters@, id);
            if before.waiters@.contains(w) && w.goal_id == id {
                let k = choose|k: int| 0 <= k < asked.len() && asked[k] == w.request;
                assert(owed.replies@[k].request == w.request);
            }
        },
        Err(e) => {
            if is_under_way(before, id) {
                let k = choose|k: int|
                    0 <= k < before.goals@.len() && (#[trigger] before.goals@[k]).id == id
                        && before.goals@[k].state !is Terminated;
                if at < k {
                    assert(before.goals@[at].id != before.goals@[k].id);
                } else if k < at {
                    assert(before.goals@[k].id != id);
                }
            }
        },
    }
}

proof fn waiting_requests(waiters: Seq<Waiter>, id: GoalId, w: Waiter)
    ensures
        waiting_for_others(waiters, id).contains(w) <==> waiters.contains(w) && w.goal_id != id,
        waiters.contains(w) && w.goal_id == id ==> waiting_for(waiters, id).contains(w.request),
{
    let ids = seq![id];
    requests_for_forgotten_goals_are_answered(waiters, ids, w);
    assert(ids.drop_last() =~= Seq::<GoalId>::empty());
    assert(waiting_for_none(waiters, ids.drop_last()) == waiters);
    assert(waiting_for_none(waiters, ids) == waiting_for_others(waiters, id));
    assert(waiting_for_each(waiters, ids.drop_last()) =~= Seq::<u64>::empty());
    assert(waiting_for_each(waiters, ids) == waiting_for_each(waiters, ids.drop_last())
        + waiting_for(waiters, id));
    assert(waiting_for_each(waiters, ids) =~= waiting_for(waiters, id));
    assert(ids.contains(w.goal_id) <==> w.goal_id == id) by {
        assert(ids[0] == id);
    }
}

/// A request for the result of a goal that has ended is answered with that result
/// and the number of its status, one for a goal that nobody knows with the default
/// result and 0, and one for a goal that is under way waits behind the others.
pub proof fn results_are_answered_or_waited_for<G, R>(
    server: &mut ZActionServer<G, R>,
    id: GoalId,
    request: u64,
    r: ResultDecision<R>,
    i: int,
)
    requires
        call_ensures(handle_result_request::<G, R>, (server, id, request), r),
        old(server).wf(),
    ensures
        0 <= i < old(server).goals@.len() && old(server).goals@[i].id == id ==> match old(
            server,
        ).goals@[i].state {
            ServerGoalState::Terminated { result, status, .. } => {
                &&& r matches ResultDecision::Reply(answer)
                &&& answer.result == result
                &&& status is Succeeded ==> answer.status == 4
                &&& status is Canceled ==> answer.status == 5
                &&& status is Aborted ==> answer.status == 6
                &&& final(server).waiters@ == old(server).waiters@
            },
            _ => {
                &&& r is Waiting
                &&& final(server).waiters@ == old(server).waiters@.push(
                    Waiter { goal_id: id, request },
                )
            },
        },
        (forall|k: int|
            0 <= k < old(server).goals@.len() ==> (#[trigger] old(server).goals@[k]).id != id) ==> {
            &&& r matches ResultDecision::Reply(answer)
            &&& answer.status == 0
            &&& answer.result == old(server).default_result
            &&& final(server).waiters@ == old(server).waiters@
        },
        final(server).goals@ == old(server).goals@,
        final(server).cancel_flags@ == old(server).cancel_flags@,
{
    let goals = old(server).goals@;
    let at = goal_index(goals, id) as int;
    goal_index_finds(goals, id);
    if 0 <= i < goals.len() && goals[i].id == id {
        if at < i {
            assert(goals[at].id != goals[i].id);
        } else if i < at {
            assert(goals[i].id != id);
        }
    }
    if at < goals.len() {
        assert(goals[at].id == id);
    }
}

/// Goals are forgotten when their time has come, and are then not known any more;
/// those who wait for one are told that it was aborted, with the default result.
pub proof fn forgotten_goals_are_told_as_aborted<G, R>(
    server: &mut ZActionServer<G, R>,
    now: u128,
    r: (Vec<GoalId>, Owed<R>),
    e: GoalEntry<G, R>,
    w: Waiter,
)
    requires
        call_ensures(ZActionServer::<G, R>::expire_goals, (server, now), r),
        old(server).wf(),
    ensures
        final(server).goals@.contains(e) <==> old(server).goals@.contains(e) && (match e.state {
            ServerGoalState::Accepted { expires_at: Some(t), .. } => now < t,
            ServerGoalState::Executing { expires_at: Some(t), .. } => now < t,
            ServerGoalState::Canceling { expires_at: Some(t), .. } => now < t,
            ServerGoalState::Terminated { expires_at: Some(t), .. } => now < t,
            _ => true,
        }),
        old(server).goals@.contains(e) && !final(server).goals@.contains(e) ==> r.0@.contains(e.id),
        final(server).goals@.len() + r.0@.len() == old(server).goals@.len(),
        final(server).waiters@.contains(w) <==> old(server).waiters@.contains(w) && !r.0@.contains(
            w.goal_id,
        ),
        old(server).waiters@.contains(w) && r.0@.contains(w.goal_id) ==> exists|k: int|
            0 <= k < r.1.replies@.len() && (#[trigger] r.1.replies@[k]).request == w.request,
        forall|k: int|
            0 <= k < r.1.replies@.len() ==> (#[trigger] r.1.replies@[k]).response.status == 6
                && r.1.replies@[k].response.result == old(server).default_result,
        r.1.replies@.len() + final(server).waiters@.len() == old(server).waiters@.len(),
        r.1.status is Some <==> r.0@.len() > 0,
        final(server).cancel_flags@ == old(server).cancel_flags@,
{
    goals_are_kept_until_forgotten(old(server).goals@, now, e);
    requests_for_forgotten_goals_are_answered(old(server).waiters@, r.0@, w);
    let asked = waiting_for_each(old(server).waiters@, r.0@);
    if old(server).waiters@.contains(w) && r.0@.contains(w.goal_id) {
        let k = choose|k: int| 0 <= k < asked.len() && asked[k] == w.request;
        assert(r.1.replies@[k].request == w.request);
    }
}

/// A goal whose handle is dropped is rejected where it was not answered, and
/// aborted with the default result where it is under way; a handle that was used is
/// of no account.
pub proof fn a_dropped_goal_is_rejected_or_aborted<G, R>(
    cleanup: GoalCleanup,
    server: &mut ZActionServer<G, R>,
    now: u128,
    r: DropOwed<R>,
)
    requires
        call_ensures(GoalCleanup::on_drop::<G, R>, (cleanup, server, now), r),
        old(server).wf(),
        now + old(server).result_timeout <= u128::MAX,
    ensures
        !cleanup.armed ==> r.rejection is None && r.ended is None && *final(server) == *old(server),
        r.rejection is Some <==> cleanup.armed && cleanup.unanswered,
        r.rejection matches Some(answer) ==> !answer.accepted,
        cleanup.armed && cleanup.unanswered ==> r.ended is None && *final(server) == *old(server),
        cleanup.armed && !cleanup.unanswered ==> (r.ended is Some <==> is_under_way(
            *old(server),
            cleanup.goal_id,
        )),
        r.ended matches Some(owed) ==> {
            &&& exists|s: ServerGoalState<G, R>| #[trigger]
                found(final(server).goals@, cleanup.goal_id, s) && s is Terminated
                    && s->Terminated_status is Aborted && s->Terminated_result == old(
                    server,
                ).default_result
            &&& forall|k: int|
                0 <= k < owed.replies@.len() ==> (#[trigger] owed.replies@[k]).response.status == 6
                    && owed.replies@[k].response.result == old(server).default_result
            &&& owed.replies@.len() == waiting_for(old(server).waiters@, cleanup.goal_id).len()
        },
{
    let id = cleanup.goal_id;
    let goals = old(server).goals@;
    let at = goal_index(goals, id) as int;
    goal_index_finds(goals, id);
    if r.ended is Some {
        assert(goals[at].id == id && goals[at].state !is Terminated);
        let s = final(server).goals@[at].state;
        assert(final(server).goals@[at] == GoalEntry { id, state: s });
        assert(found(final(server).goals@, id, s));
    }
    if is_under_way(*old(server), id) {
        let k = choose|k: int|
            0 <= k < goals.len() && (#[trigger] goals[k]).id == id && goals[k].state !is Terminated;
        if at < k {
            assert(goals[at].id != goals[k].id);
        } else if k < at {
            assert(goals[k].id != id);
        }
    }
}

/// Progress is published under the goal's identifier, and a result that got lost is
/// told as aborted with the default result.
pub proof fn progress_names_its_goal<G, R, F>(
    handle: &GoalHandle<G, Executing>,
    feedback: F,
    m: FeedbackMessage<F>,
    server: &ZActionServer<G, R>,
    lost: GetResultResponse<R>,
)
    ensures
        call_ensures(GoalHandle::<G, Executing>::publish_feedback::<F>, (handle, feedback), m)
            ==> m.goal_id == handle.info.goal_id && m.feedback == feedback,
        call_ensures(lost_result::<G, R>, (server,), lost) ==> lost.status == 6 && lost.result
            == server.default_result,
{
}

/// A goal is to be canceled just where its flag is raised.
pub proof fn raised_flags_ask_to_cancel<G, R>(
    handle: &GoalHandle<G, Executing>,
    server: &ZActionServer<G, R>,
    r: bool,
)
    requires
        call_ensures(
            GoalHandle::<G, Executing>::is_cancel_requested::<R>,
            (handle, server),
            r,
        ),
    ensures
        handle.cancel_flag matches Some(f) ==> r == server.cancel_flags@[f as int],
        handle.cancel_flag is None ==> !r,
{
}

/// How long goals and results are kept, and what a lost goal results in, stay as
/// they were while goals come, end and are asked for.
pub proof fn settings_stay<G, R>(
    server: &mut ZActionServer<G, R>,
    handle: GoalHandle<G, Requested>,
    clock: &ZClock,
    now: u128,
    accepted: (GoalHandle<G, Accepted>, AcceptOwed),
    forgotten: (Vec<GoalId>, Owed<R>),
    id: GoalId,
    request: u64,
    decision: ResultDecision<R>,
)
    requires
        old(server).wf(),
        call_ensures(
            GoalHandle::<G, Requested>::accept::<R>,
            (handle, server, clock, now),
            accepted,
        ) || call_ensures(ZActionServer::<G, R>::expire_goals, (server, now), forgotten)
            || call_ensures(handle_result_request::<G, R>, (server, id, request), decision),
    ensures
        final(server).result_timeout == old(server).result_timeout,
        final(server).goal_timeout == old(server).goal_timeout,
        final(server).default_result == old(server).default_result,
{
}

} // verus!
