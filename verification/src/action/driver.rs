//! Event handling of an action server that runs its goals by itself.

use crate::action::server::{
    answers_cancel, flag_known, goals_after_requests, goals_executing, status_list, with_goal,
    AcceptOwed, CancelOwed, Executing, GoalHandle, Waiter, ZActionServer,
};
use crate::action::types::{
    status_code, GetResultResponse, GoalId, GoalInfo, GoalStatus, ServerGoalState, StatusMessage,
};
use crate::shared::share;
use crate::time::ZClock;
use std::sync::Arc;
use vstd::prelude::*;

verus! {

/// What happened while the driver waited.
#[derive(Debug, Clone, Copy, PartialEq, Eq, Structural)]
pub enum DriverEvent {
    Shutdown,
    /// A task that the driver started has ended.
    TaskFinished,
    /// A second has passed.
    Tick,
    GoalRequest,
    CancelRequest,
    ResultRequest,
}

/// What the driver does next.
#[derive(Debug, Clone, Copy, PartialEq, Eq, Structural)]
pub enum DriverStep {
    /// Abort all tasks, wait for as many to end, and stop.
    AbortAndStop { tasks: usize },
    Wait,
    ExpireGoals,
    StartGoalTask,
    StartCancelTask,
    StartResultTask,
}

/// The tasks of a running driver.
#[derive(Debug)]
pub struct Driver {
    pub tasks: usize,
}

impl Driver {
    /// A driver without tasks.
    pub fn new() -> (r: Self)
        ensures
            r.tasks == 0,
    {
        Driver { tasks: 0 }
    }

    /// What an event leads to.
    pub fn next(&mut self, event: DriverEvent) -> (r: DriverStep)
        requires
            old(self).tasks < usize::MAX,
            event == DriverEvent::TaskFinished ==> old(self).tasks > 0,
        ensures
            r == (match event {
                DriverEvent::Shutdown => DriverStep::AbortAndStop { tasks: old(self).tasks },
                DriverEvent::TaskFinished => DriverStep::Wait,
                DriverEvent::Tick => DriverStep::ExpireGoals,
                DriverEvent::GoalRequest => DriverStep::StartGoalTask,
                DriverEvent::CancelRequest => DriverStep::StartCancelTask,
                DriverEvent::ResultRequest => DriverStep::StartResultTask,
            }),
            final(self).tasks == (match event {
                DriverEvent::Shutdown => 0,
                DriverEvent::TaskFinished => old(self).tasks - 1,
                DriverEvent::Tick => old(self).tasks as int,
                _ => old(self).tasks + 1,
            }),
    {
        match event {
            DriverEvent::Shutdown => {
                let tasks: usize = self.tasks;
                self.tasks = 0;
                DriverStep::AbortAndStop { tasks }
            },
            DriverEvent::TaskFinished => {
                self.tasks = self.tasks - 1;
                DriverStep::Wait
            },
            DriverEvent::Tick => DriverStep::ExpireGoals,
            DriverEvent::GoalRequest => {
                self.tasks = self.tasks + 1;
                DriverStep::StartGoalTask
            },
            DriverEvent::CancelRequest => {
                self.tasks = self.tasks + 1;
                DriverStep::StartCancelTask
            },
            DriverEvent::ResultRequest => {
                self.tasks = self.tasks + 1;
                DriverStep::StartResultTask
            },
        }
    }
}

/// What a request for a result comes to.
#[derive(Debug)]
pub enum ResultDecision<R> {
    /// It is answered at once.
    Reply(GetResultResponse<R>),
    /// It waits for the goal to end.
    Waiting,
}

/// Decides a request for the result of a goal: a goal that has ended and one
/// that is unknown are answered at once, and for any other the request waits.
pub fn handle_result_request<G, R>(
    server: &mut ZActionServer<G, R>,
    goal_id: GoalId,
    request: u64,
) -> (r: ResultDecision<R>)
    requires
        old(server).wf(),
    ensures
        final(server).wf(),
        final(server).goals == old(server).goals,
        final(server).cancel_flags == old(server).cancel_flags,
        old(server).same_settings(final(server)),
        match old(server).state_of(goal_id) {
            Some(ServerGoalState::Terminated { result, status, .. }) => {
                &&& r == ResultDecision::Reply(
                    GetResultResponse { status: status_code(status), result },
                )
                &&& final(server).waiters@ == old(server).waiters@
            },
            Some(_) => {
                &&& r is Waiting
                &&& final(server).waiters@ == old(server).waiters@.push(
                    Waiter { goal_id, request },
                )
            },
            None => {
                &&& r == ResultDecision::Reply(
                    GetResultResponse {
                        status: status_code(GoalStatus::Unknown),
                        result: old(server).default_result,
                    },
                )
                &&& final(server).waiters@ == old(server).waiters@
            },
        },
{
    match server.find(goal_id) {
        Some(i) => {
            let ended: Option<GetResultResponse<R>> = match &server.goals[i].state {
                ServerGoalState::Terminated { result, status, .. } => Some(
                    GetResultResponse { status: status.code(), result: share(result) },
                ),
                _ => None,
            };
            match ended {
                Some(response) => ResultDecision::Reply(response),
                None => {
                    server.waiters.push(Waiter { goal_id, request });
                    ResultDecision::Waiting
                },
            }
        },
        None => ResultDecision::Reply(
            GetResultResponse {
                status: GoalStatus::Unknown.code(),
                result: share(&server.default_result),
            },
        ),
    }
}

/// The answer to a request that waited for a goal whose result got lost.
pub fn lost_result<G, R>(server: &ZActionServer<G, R>) -> (r: GetResultResponse<R>)
    ensures
        r == (GetResultResponse {
            status: status_code(GoalStatus::Aborted),
            result: server.default_result,
        }),
{
    GetResultResponse { status: GoalStatus::Aborted.code(), result: share(&server.default_result) }
}

/// Processes one request to cancel.
pub fn handle_cancel_request<G, R>(server: &mut ZActionServer<G, R>, requested: &GoalInfo) -> (r:
    CancelOwed)
    requires
        old(server).wf(),
    ensures
        final(server).wf(),
        answers_cancel(r, old(server).goals@, *requested),
        final(server).goals@ == crate::action::server::goals_after_cancel(
            old(server).goals@,
            *requested,
        ),
        final(server).cancel_flags@ == crate::action::server::flags_after_cancel(
            old(server).goals@,
            old(server).cancel_flags@,
            *requested,
            old(server).goals@.len(),
        ),
        final(server).waiters == old(server).waiters,
        old(server).same_settings(final(server)),
{
    let (response, status) = server.process_cancel_request(requested);
    CancelOwed { status, response }
}

/// What a new goal owes: the answer and status of its acceptance, what the
/// queued requests to cancel owe, and the status of its execution.
#[must_use]
#[derive(Debug)]
pub struct GoalOwed {
    pub accepted: AcceptOwed,
    pub canceled: Vec<CancelOwed>,
    pub executing: StatusMessage,
}

/// Accepts a new goal and begins to execute it.
pub fn handle_goal_request<G, R>(
    server: &mut ZActionServer<G, R>,
    goal_id: GoalId,
    goal: Arc<G>,
    clock: &ZClock,
    now: u128,
    queued: &Vec<GoalInfo>,
) -> (r: (GoalHandle<G, Executing>, GoalOwed))
    requires
        old(server).wf(),
        old(server).goal_timeout matches Some(t) ==> now + t <= u128::MAX,
    ensures
        final(server).wf(),
        ({
            let stamp = crate::action::types::stamp_of(clock.time.unix_nanos);
            let flag = old(server).cancel_flags@.len() as usize;
            let accepted = with_goal(
                old(server).goals@,
                crate::action::server::GoalEntry {
                    id: goal_id,
                    state: ServerGoalState::Accepted {
                        goal,
                        cancel_flag: flag,
                        accepted_at: stamp,
                        expires_at: match old(server).goal_timeout {
                            Some(t) => Some((now + t) as u128),
                            None => None,
                        },
                    },
                },
            );
            &&& final(server).goals@ == goals_executing(
                goals_after_requests(accepted, queued@, queued@.len()),
                goal_id,
            )
            &&& final(server).cancel_flags@ == crate::action::server::flags_after_requests(
                accepted,
                old(server).cancel_flags@.push(false),
                queued@,
                queued@.len(),
            )
            &&& final(server).waiters == old(server).waiters
            &&& old(server).same_settings(final(server))
            &&& r.0.goal == goal
            &&& r.0.info == (GoalInfo { goal_id, stamp })
            &&& r.0.cancel_flag == Some(flag)
            &&& flag_known(r.0.cancel_flag, final(server).cancel_flags@)
            &&& r.0.cleanup == (crate::action::server::GoalCleanup {
                goal_id,
                unanswered: false,
                armed: true,
            })
            &&& r.1.accepted.response == Some(
                crate::action::types::GoalResponse {
                    accepted: true,
                    stamp_sec: stamp.sec,
                    stamp_nanosec: stamp.nanosec,
                },
            )
            &&& r.1.accepted.status.status_list@ == status_list(accepted)
            &&& r.1.canceled@.len() == queued@.len()
            &&& forall|i: int|
                0 <= i < queued@.len() ==> answers_cancel(
                    #[trigger] r.1.canceled@[i],
                    goals_after_requests(accepted, queued@, i as nat),
                    queued@[i],
                )
            &&& r.1.executing.status_list@ == status_list(final(server).goals@)
        }),
{
    let requested = ZActionServer::<G, R>::recv_goal(goal_id, goal);
    let (accepted, accept_owed) = requested.accept(server, clock, now);
    let (executing, cancel_owed, status) = accepted.execute(server, queued);
    (executing, GoalOwed { accepted: accept_owed, canceled: cancel_owed, executing: status })
}

/// What each event leads to: requests start tasks, which are counted, a second that
/// passed lets goals expire, and the end aborts the tasks that are left.
pub proof fn each_event_has_its_step()
    ensures
        forall|d: &mut Driver, event: DriverEvent, r: DriverStep| #[trigger]
            call_ensures(Driver::next, (d, event), r) ==> match event {
                DriverEvent::Shutdown => r == DriverStep::AbortAndStop { tasks: d.tasks },
                DriverEvent::TaskFinished => r == DriverStep::Wait && final(d).tasks + 1 == d.tasks,
                DriverEvent::Tick => r == DriverStep::ExpireGoals && final(d).tasks == d.tasks,
                DriverEvent::GoalRequest => r == DriverStep::StartGoalTask && final(d).tasks
                    == d.tasks + 1,
                DriverEvent::CancelRequest => r == DriverStep::StartCancelTask && final(d).tasks
                    == d.tasks + 1,
                DriverEvent::ResultRequest => r == DriverStep::StartResultTask && final(d).tasks
                    == d.tasks + 1,
            },
{
}

} // verus!
