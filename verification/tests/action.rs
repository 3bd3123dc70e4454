use hiroz::action::builder::{ActionBuildError, ActionTypes, ZActionServerBuilder};
use hiroz::action::driver::{
    handle_cancel_request, handle_goal_request, handle_result_request, lost_result, Driver,
    DriverEvent, DriverStep, ResultDecision,
};
use hiroz::action::server::{Executing, GoalHandle, ZActionServer};
use hiroz::action::types::{
    time_from_clock, GoalId, GoalInfo, GoalStatus, ServerGoalState, Time,
};
use hiroz::dynamic::type_info::{TypeHash, TypeInfo};
use hiroz::protocol;
use hiroz::qos::{QosHistory, QosProfile, QosReliability};
use hiroz::time::{ZClock, ZTime};
use std::sync::Arc;

#[derive(Debug)]
struct TestGoal {
    order: i32,
}

#[derive(Debug, Default)]
struct TestResult {
    value: i32,
}

type Server = ZActionServer<TestGoal, TestResult>;

const SECOND: u128 = 1_000_000_000;

fn server() -> Server {
    ZActionServer::new(10 * SECOND, None, Arc::new(TestResult::default()))
}

fn id(n: u128) -> GoalId {
    GoalId { uuid: n }
}

fn clock_at(nanos: i64) -> ZClock {
    ZClock::simulated(ZTime::from_unix_nanos(nanos))
}

fn start(s: &mut Server, n: u128, clock: &ZClock) -> GoalHandle<TestGoal, Executing> {
    let goal = Arc::new(TestGoal { order: n as i32 });
    let (handle, _owed) = handle_goal_request(s, id(n), goal, clock, 0, &vec![]);
    handle
}

fn status(s: &Server, n: u128) -> Option<GoalStatus> {
    s.goals
        .iter()
        .find(|e| e.id == id(n))
        .map(|e| e.state.status().0)
}

#[test]
fn action_time_uses_zero_and_configured_simulated_time() {
    let mut clock = ZClock::simulated(ZTime::zero());
    assert_eq!(time_from_clock(&clock), Time::zero());
    clock.set_time(ZTime::from_unix_nanos(42_000_000_123));
    assert_eq!(
        time_from_clock(&clock),
        Time {
            sec: 42,
            nanosec: 123,
        }
    );
}

#[test]
fn times_before_the_epoch_and_far_ahead_are_clamped() {
    assert_eq!(time_from_clock(&clock_at(-5)), Time::zero());
    assert_eq!(
        time_from_clock(&clock_at(i64::MAX)),
        Time {
            sec: i32::MAX,
            nanosec: 854_775_807,
        }
    );
}

#[test]
fn accepted_goal_uses_the_configured_node_clock() {
    let mut s = server();
    let requested = Server::recv_goal(id(1), Arc::new(TestGoal { order: 1 }));
    let (accepted, owed) = requested.accept(&mut s, &clock_at(42_000_000_123), 0);
    assert_eq!(
        accepted.info().stamp,
        Time {
            sec: 42,
            nanosec: 123
        }
    );
    let response = owed.response.unwrap();
    assert!(response.accepted);
    assert_eq!((response.stamp_sec, response.stamp_nanosec), (42, 123));
}

#[test]
fn test_action_accept_new_goal() {
    let mut s = server();
    let requested = Server::recv_goal(id(7), Arc::new(TestGoal { order: 10 }));
    assert_eq!(requested.goal().order, 10);
    let (accepted, owed) = requested.accept(&mut s, &clock_at(0), 0);
    assert!(accepted.info().goal_id.is_valid());
    assert_eq!(accepted.goal().order, 10);
    assert_eq!(owed.status.status_list.len(), 1);
    assert_eq!(owed.status.status_list[0].status, GoalStatus::Accepted);
    assert!(!id(0).is_valid());
}

#[test]
fn test_action_server_goal_exists() {
    let mut s = server();
    let requested = Server::recv_goal(id(7), Arc::new(TestGoal { order: 10 }));
    let _accepted = requested.accept(&mut s, &clock_at(0), 0);
    assert_eq!(status(&s, 7), Some(GoalStatus::Accepted));
    assert_eq!(status(&s, 8), None);
}

#[test]
fn test_action_server_notify_goal_done() {
    let mut s = server();
    let executing = start(&mut s, 7, &clock_at(0));
    assert_eq!(executing.goal().order, 7);
    let owed = executing
        .succeed(&mut s, TestResult { value: 42 }, 0)
        .unwrap();
    assert!(owed.replies.is_empty());
    match handle_result_request(&mut s, id(7), 1) {
        ResultDecision::Reply(response) => {
            assert_eq!(response.result.value, 42);
            assert_eq!(response.status, GoalStatus::Succeeded.code());
        }
        ResultDecision::Waiting => panic!("the goal has ended"),
    }
}

#[test]
fn test_action_server_get_goal_status_array() {
    let mut s = server();
    let _first = start(&mut s, 7, &clock_at(0));
    let requested = Server::recv_goal(id(8), Arc::new(TestGoal { order: 10 }));
    let _accepted = requested.accept(&mut s, &clock_at(0), 0);
    let list = s.publish_status().status_list;
    assert_eq!(list.len(), 2);
    assert_eq!(list[0].goal_info.goal_id, id(7));
    assert_eq!(list[0].status, GoalStatus::Executing);
    assert_eq!(list[1].status, GoalStatus::Accepted);
}

#[test]
fn test_action_process_cancel_request() {
    let mut s = server();
    let executing = start(&mut s, 7, &clock_at(0));
    let owed = handle_cancel_request(&mut s, &GoalInfo::new(id(7)));
    assert_eq!(owed.response.return_code, 0);
    assert_eq!(owed.response.goals_canceling[0].goal_id, id(7));
    assert_eq!(
        owed.status.unwrap().status_list[0].status,
        GoalStatus::Canceling
    );
    assert!(executing.is_cancel_requested(&s));
}

#[test]
fn a_goal_may_cancel_itself() {
    let mut s = server();
    let executing = start(&mut s, 7, &clock_at(0));
    let (done, told) = s.request_cancel(id(7));
    assert!(done);
    assert!(told.is_some());
    assert!(executing.is_cancel_requested(&s));
    let (again, told) = s.request_cancel(id(8));
    assert!(!again);
    assert!(told.is_none());
}

fn info(name: &str) -> TypeInfo {
    TypeInfo {
        name: name.to_string(),
        hash: TypeHash::zero(),
    }
}

fn types() -> ActionTypes {
    ActionTypes {
        send_goal: info("SendGoal"),
        get_result: info("GetResult"),
        cancel_goal: info("CancelGoal"),
        feedback: info("Feedback"),
        status: info("Status"),
    }
}

#[test]
fn test_action_server_goal_timeout_configuration() {
    let plan = ZActionServerBuilder::new("test_timeout_action")
        .with_goal_timeout(30 * SECOND)
        .build("test_timeout_action", "/", "test_timeout_node", types())
        .unwrap();
    assert_eq!(plan.goal_timeout, Some(30 * SECOND));
    assert_eq!(plan.result_timeout, 10 * SECOND);
    assert_eq!(
        plan.goal_service.name,
        "/test_timeout_action/_action/send_goal"
    );
    assert_eq!(
        plan.result_service.name,
        "/test_timeout_action/_action/get_result"
    );
    assert_eq!(
        plan.cancel_service.name,
        "/test_timeout_action/_action/cancel_goal"
    );
    assert_eq!(
        plan.feedback_topic.name,
        "/test_timeout_action/_action/feedback"
    );
    assert_eq!(plan.status_topic.name, "/test_timeout_action/_action/status");
}

#[test]
fn test_action_server_qos_configuration() {
    let custom_qos = QosProfile {
        reliability: QosReliability::BestEffort,
        history: QosHistory::KeepLast(5),
        ..Default::default()
    };
    let plan = ZActionServerBuilder::new("test_qos_action")
        .with_goal_service_qos(custom_qos)
        .with_feedback_topic_qos(custom_qos)
        .build("test_qos_action", "/", "test_qos_node", types())
        .unwrap();
    let qos = plan.goal_service.qos.unwrap();
    assert_eq!(qos.reliability, protocol::QosReliability::BestEffort);
    assert_eq!(qos.history, protocol::QosHistory::KeepLast(5));
    assert_eq!(plan.feedback_topic.qos, Some(qos));
    assert_eq!(plan.result_service.qos, None);
    assert_eq!(plan.cancel_service.qos, None);
    assert_eq!(plan.status_topic.qos, None);
}

#[test]
fn other_settings_of_a_server_are_kept() {
    let qos = QosProfile::default();
    let plan = ZActionServerBuilder::new("a")
        .with_result_timeout(5)
        .with_result_service_qos(qos)
        .with_cancel_service_qos(qos)
        .with_status_topic_qos(qos)
        .with_goal_type_info(info("G"))
        .with_result_type_info(info("R"))
        .with_feedback_type_info(info("F"))
        .build("a", "/ns", "n", types())
        .unwrap();
    assert_eq!(plan.result_timeout, 5);
    assert_eq!(plan.goal_timeout, None);
    assert_eq!(plan.goal_service.name, "/ns/a/_action/send_goal");
    assert_eq!(plan.goal_service.type_info.name, "G");
    assert_eq!(plan.result_service.type_info.name, "R");
    assert_eq!(plan.feedback_topic.type_info.name, "F");
    assert_eq!(plan.cancel_service.type_info.name, "CancelGoal");
    assert_eq!(plan.status_topic.type_info.name, "Status");
    assert!(plan.result_service.qos.is_some());
    assert!(plan.cancel_service.qos.is_some());
    assert!(plan.status_topic.qos.is_some());
}

#[test]
fn servers_need_a_valid_name() {
    let empty = ZActionServerBuilder::new("").build("", "/", "n", types());
    match empty {
        Err(e) => {
            assert_eq!(e, ActionBuildError::EmptyName);
            assert_eq!(e.message(), "Action name cannot be empty");
        }
        Ok(_) => panic!("an empty name was taken"),
    }
    let bad = ZActionServerBuilder::new("a//b").build("a//b", "/", "n", types());
    assert!(matches!(bad, Err(ActionBuildError::Name(_))));
}

#[test]
fn unknown_result_replies_with_unknown_status() {
    let mut s = server();
    match handle_result_request(&mut s, id(9), 1) {
        ResultDecision::Reply(response) => {
            assert_eq!(response.status, GoalStatus::Unknown.code());
            assert_eq!(response.result.value, 0);
        }
        ResultDecision::Waiting => panic!("nobody knows the goal"),
    }
}

#[test]
fn pending_result_does_not_block_cancel_or_another_goal() {
    let mut s = server();
    let first = start(&mut s, 1, &clock_at(0));
    assert!(matches!(
        handle_result_request(&mut s, id(1), 77),
        ResultDecision::Waiting
    ));
    let second = start(&mut s, 2, &clock_at(0));
    let cancel = handle_cancel_request(&mut s, &GoalInfo::new(id(1))).response;
    assert_eq!(cancel.return_code, 0);
    assert_eq!(cancel.goals_canceling.len(), 1);
    assert_eq!(cancel.goals_canceling[0].goal_id, id(1));
    assert!(first.is_cancel_requested(&s));
    assert!(!second.is_cancel_requested(&s));
    let owed = first.canceled(&mut s, TestResult::default(), 0).unwrap();
    assert_eq!(owed.replies.len(), 1);
    assert_eq!(owed.replies[0].request, 77);
    assert_eq!(owed.replies[0].response.status, GoalStatus::Canceled.code());
    assert_eq!(status(&s, 2), Some(GoalStatus::Executing));
}

#[test]
fn cancel_codes_distinguish_unknown_and_terminal_goals() {
    let mut s = server();
    let unknown = handle_cancel_request(&mut s, &GoalInfo::new(id(5))).response;
    assert_eq!(unknown.return_code, 2);
    let all = handle_cancel_request(&mut s, &GoalInfo::new(id(0))).response;
    assert_eq!(all.return_code, 0);
    assert!(all.goals_canceling.is_empty());
    let goal = start(&mut s, 3, &clock_at(0));
    let _owed = goal.succeed(&mut s, TestResult::default(), 0).unwrap();
    let ended = handle_cancel_request(&mut s, &GoalInfo::new(id(3))).response;
    assert_eq!(ended.return_code, 3);
}

#[test]
fn cancel_timestamp_selects_only_older_active_goals() {
    let mut s = server();
    let first = start(&mut s, 1, &clock_at(1_000));
    let cutoff = Time {
        sec: 0,
        nanosec: 1_500,
    };
    let second = start(&mut s, 2, &clock_at(2_000));
    let response = handle_cancel_request(
        &mut s,
        &GoalInfo {
            goal_id: id(0),
            stamp: cutoff,
        },
    )
    .response;
    assert_eq!(response.return_code, 0);
    assert_eq!(response.goals_canceling.len(), 1);
    assert_eq!(response.goals_canceling[0].goal_id, id(1));
    assert!(response.goals_canceling[0].stamp.at_or_before(&cutoff));
    assert!(first.is_cancel_requested(&s));
    assert!(!second.is_cancel_requested(&s));
}

#[test]
fn cancelling_again_changes_nothing() {
    let mut s = server();
    let _first = start(&mut s, 1, &clock_at(0));
    let _once = handle_cancel_request(&mut s, &GoalInfo::new(id(1)));
    let again = handle_cancel_request(&mut s, &GoalInfo::new(id(1)));
    assert_eq!(again.response.return_code, 1);
    assert!(again.response.goals_canceling.is_empty());
    assert!(again.status.is_none());
    assert_eq!(status(&s, 1), Some(GoalStatus::Canceling));
}

#[test]
fn expired_accepted_goal_cannot_be_resurrected() {
    let mut s: Server = ZActionServer::new(10 * SECOND, Some(0), Arc::new(TestResult::default()));
    let requested = Server::recv_goal(id(1), Arc::new(TestGoal { order: 1 }));
    let (accepted, _owed) = requested.accept(&mut s, &clock_at(0), 100);
    let (gone, _owed) = s.expire_goals(100);
    assert_eq!(gone.len(), 1);
    let goal_id = accepted.info().goal_id;
    let (executing, _owed, _status) = accepted.execute(&mut s, &vec![]);
    assert!(executing.succeed(&mut s, TestResult::default(), 100).is_err());
    assert!(!s.goals.iter().any(|e| e.id == goal_id));
}

#[test]
fn whoever_waits_for_an_expired_goal_is_answered() {
    let mut s: Server = ZActionServer::new(10 * SECOND, Some(5), Arc::new(TestResult::default()));
    let _handle = start(&mut s, 1, &clock_at(0));
    assert!(matches!(
        handle_result_request(&mut s, id(1), 11),
        ResultDecision::Waiting
    ));
    let (none, _owed) = s.expire_goals(4);
    assert!(none.is_empty());
    let (gone, owed) = s.expire_goals(5);
    assert_eq!(gone, vec![id(1)]);
    assert_eq!(owed.replies.len(), 1);
    assert_eq!(owed.replies[0].request, 11);
    assert_eq!(owed.replies[0].response.status, GoalStatus::Aborted.code());
    assert!(s.waiters.is_empty());
}

#[test]
fn results_are_kept_for_their_time() {
    let mut s = server();
    s.set_result_timeout(3);
    assert_eq!(s.result_timeout(), 3);
    let goal = start(&mut s, 1, &clock_at(0));
    let _owed = goal.abort(&mut s, TestResult { value: 8 }, 10).unwrap();
    let (none, _owed) = s.expire_goals(12);
    assert!(none.is_empty());
    let (gone, _owed) = s.expire_goals(13);
    assert_eq!(gone, vec![id(1)]);
}

#[test]
fn accepted_goal_can_be_canceled_before_execute() {
    let mut s = server();
    let requested = Server::recv_goal(id(1), Arc::new(TestGoal { order: 1 }));
    let (accepted, _owed) = requested.accept(&mut s, &clock_at(0), 0);
    let (canceled, owed) = accepted.try_process_cancel(&mut s, &vec![GoalInfo::new(id(1))]);
    assert!(canceled);
    assert_eq!(owed[0].response.return_code, 0);
    let (executing, _owed, _status) = accepted.execute(&mut s, &vec![]);
    assert!(executing.is_cancel_requested(&s));
    assert!(executing.canceled(&mut s, TestResult::default(), 0).is_ok());
}

#[test]
fn dropping_duplicate_request_does_not_abort_active_goal() {
    let mut s = server();
    let executing = start(&mut s, 1, &clock_at(0));
    let duplicate = Server::recv_goal(id(1), Arc::new(TestGoal { order: 2 }));
    let owed = duplicate.cleanup.on_drop(&mut s, 0);
    assert!(!owed.rejection.unwrap().accepted);
    assert!(owed.ended.is_none());
    assert!(matches!(
        s.goals[0].state,
        ServerGoalState::Executing { .. }
    ));
    assert!(executing.succeed(&mut s, TestResult::default(), 0).is_ok());
}

#[test]
fn a_dropped_handle_aborts_its_goal() {
    let mut s = server();
    let executing = start(&mut s, 1, &clock_at(0));
    assert!(matches!(
        handle_result_request(&mut s, id(1), 5),
        ResultDecision::Waiting
    ));
    let owed = executing.cleanup.on_drop(&mut s, 0);
    assert!(owed.rejection.is_none());
    let ended = owed.ended.unwrap();
    assert_eq!(ended.replies[0].response.status, GoalStatus::Aborted.code());
    assert_eq!(status(&s, 1), Some(GoalStatus::Aborted));
}

#[test]
fn a_rejected_goal_is_never_entered() {
    let s = server();
    let requested = Server::recv_goal(id(1), Arc::new(TestGoal { order: 2 }));
    let response = requested.reject().unwrap();
    assert!(!response.accepted);
    assert_eq!((response.stamp_sec, response.stamp_nanosec), (0, 0));
    assert!(s.goals.is_empty());
}

#[test]
fn terminal_state_retains_acceptance_stamp() {
    let mut s = server();
    let executing = start(&mut s, 1, &clock_at(42_000_000_123));
    let stamp = executing.info().stamp;
    let _owed = executing.succeed(&mut s, TestResult::default(), 0).unwrap();
    match &s.goals[0].state {
        ServerGoalState::Terminated { accepted_at, .. } => assert_eq!(*accepted_at, stamp),
        _ => panic!("goal was not terminal"),
    }
}

#[test]
fn feedback_names_its_goal() {
    let mut s = server();
    let executing = start(&mut s, 6, &clock_at(0));
    let message = executing.publish_feedback(0.5);
    assert_eq!(message.goal_id, id(6));
    assert_eq!(message.feedback, 0.5);
    let (canceled, owed) = executing.try_process_cancel(&mut s, &vec![GoalInfo::new(id(9))]);
    assert!(!canceled);
    assert_eq!(owed[0].response.return_code, 2);
    assert_eq!(lost_result(&s).status, GoalStatus::Aborted.code());
}

#[test]
fn the_driver_starts_a_task_for_each_request() {
    let mut driver = Driver::new();
    assert_eq!(driver.next(DriverEvent::GoalRequest), DriverStep::StartGoalTask);
    assert_eq!(
        driver.next(DriverEvent::CancelRequest),
        DriverStep::StartCancelTask
    );
    assert_eq!(
        driver.next(DriverEvent::ResultRequest),
        DriverStep::StartResultTask
    );
    assert_eq!(driver.next(DriverEvent::Tick), DriverStep::ExpireGoals);
    assert_eq!(driver.next(DriverEvent::TaskFinished), DriverStep::Wait);
    assert_eq!(
        driver.next(DriverEvent::Shutdown),
        DriverStep::AbortAndStop { tasks: 2 }
    );
    assert_eq!(driver.tasks, 0);
}
