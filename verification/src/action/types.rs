//! Goals, their states, and the messages about them.

use crate::time::ZClock;
use std::sync::Arc;
use vstd::prelude::*;

verus! {

/// The identifier of a goal: a UUID, its bytes read as one number. Zero names no
/// goal.
#[derive(Debug, Clone, Copy, PartialEq, Eq, Hash, Structural)]
pub struct GoalId {
    pub uuid: u128,
}

impl GoalId {
    /// Whether this names a goal.
    pub fn is_valid(&self) -> (r: bool)
        ensures
            r == (self.uuid != 0),
    {
        self.uuid != 0
    }
}

/// A time stamp in a message.
#[derive(Debug, Clone, Copy, PartialEq, Eq, Structural)]
pub struct Time {
    pub sec: i32,
    pub nanosec: u32,
}

/// The time stamp that says nothing.
pub open spec fn no_time() -> Time {
    Time { sec: 0, nanosec: 0 }
}

/// Whether `a` is not later than `b`.
pub open spec fn not_later(a: Time, b: Time) -> bool {
    a.sec < b.sec || a.sec == b.sec && a.nanosec <= b.nanosec
}

impl Time {
    /// The time stamp that says nothing.
    pub fn zero() -> (r: Self)
        ensures
            r == no_time(),
    {
        Time { sec: 0, nanosec: 0 }
    }

    /// Whether this is not later than `other`.
    pub fn at_or_before(&self, other: &Time) -> (r: bool)
        ensures
            r == not_later(*self, *other),
    {
        self.sec < other.sec || self.sec == other.sec && self.nanosec <= other.nanosec
    }
}

/// Time `nanos` as a time stamp: times before the epoch are the epoch, and
/// seconds that do not fit are the most that do.
pub open spec fn stamp_of(nanos: i64) -> Time {
    let n = if nanos < 0 {
        0
    } else {
        nanos as int
    };
    Time {
        sec: if n / 1_000_000_000 > i32::MAX {
            i32::MAX
        } else {
            (n / 1_000_000_000) as i32
        },
        nanosec: (n % 1_000_000_000) as u32,
    }
}

/// The time of a clock as a time stamp.
pub fn time_from_clock(clock: &ZClock) -> (r: Time)
    ensures
        r == stamp_of(clock.time.unix_nanos),
{
    let now: i64 = clock.now().as_unix_nanos();
    let nanos: u64 = if now < 0 { 0 } else { now as u64 };
    let seconds: u64 = nanos / 1_000_000_000;
    Time {
        sec: if seconds > i32::MAX as u64 { i32::MAX } else { seconds as i32 },
        nanosec: (nanos % 1_000_000_000) as u32,
    }
}

/// A goal and when it was accepted.
#[derive(Debug, Clone, Copy, PartialEq, Eq, Structural)]
pub struct GoalInfo {
    pub goal_id: GoalId,
    pub stamp: Time,
}

impl GoalInfo {
    /// A goal that was not accepted yet.
    pub fn new(goal_id: GoalId) -> (r: Self)
        ensures
            r == (GoalInfo { goal_id, stamp: no_time() }),
    {
        GoalInfo { goal_id, stamp: Time::zero() }
    }
}

/// Where a goal stands.
#[derive(Debug, Clone, Copy, PartialEq, Eq, Structural)]
pub enum GoalStatus {
    Unknown,
    Accepted,
    Executing,
    Canceling,
    Succeeded,
    Canceled,
    Aborted,
}

/// The number of a status in a message.
pub open spec fn status_code(s: GoalStatus) -> i8 {
    match s {
        GoalStatus::Unknown => 0,
        GoalStatus::Accepted => 1,
        GoalStatus::Executing => 2,
        GoalStatus::Canceling => 3,
        GoalStatus::Succeeded => 4,
        GoalStatus::Canceled => 5,
        GoalStatus::Aborted => 6,
    }
}

impl GoalStatus {
    /// The number of this status in a message.
    pub fn code(self) -> (r: i8)
        ensures
            r == status_code(self),
    {
        match self {
            GoalStatus::Unknown => 0,
            GoalStatus::Accepted => 1,
            GoalStatus::Executing => 2,
            GoalStatus::Canceling => 3,
            GoalStatus::Succeeded => 4,
            GoalStatus::Canceled => 5,
            GoalStatus::Aborted => 6,
        }
    }
}

/// A goal and its status.
#[derive(Debug, Clone, Copy, PartialEq, Eq, Structural)]
pub struct GoalStatusInfo {
    pub goal_info: GoalInfo,
    pub status: GoalStatus,
}

/// The status of all goals of a server.
#[derive(Debug)]
pub struct StatusMessage {
    pub status_list: Vec<GoalStatusInfo>,
}

/// The answer to a new goal.
#[derive(Debug, Clone, Copy, PartialEq, Eq, Structural)]
pub struct GoalResponse {
    pub accepted: bool,
    pub stamp_sec: i32,
    pub stamp_nanosec: u32,
}

/// The answer to a goal that is not taken.
pub open spec fn rejection() -> GoalResponse {
    GoalResponse { accepted: false, stamp_sec: 0, stamp_nanosec: 0 }
}

impl GoalResponse {
    /// The answer to a goal that is not taken.
    pub fn rejected() -> (r: Self)
        ensures
            r == rejection(),
    {
        GoalResponse { accepted: false, stamp_sec: 0, stamp_nanosec: 0 }
    }
}

/// The answer to a request to cancel goals.
#[derive(Debug)]
pub struct CancelGoalServiceResponse {
    pub return_code: i8,
    pub goals_canceling: Vec<GoalInfo>,
}

/// The answer to a request for a result.
#[derive(Debug)]
pub struct GetResultResponse<R> {
    pub status: i8,
    pub result: Arc<R>,
}

/// Progress of a goal.
#[derive(Debug)]
pub struct FeedbackMessage<F> {
    pub goal_id: GoalId,
    pub feedback: F,
}

/// The state of a goal on the server. Points in time are nanoseconds of a
/// monotonic clock.
#[derive(Debug)]
#[allow(inconsistent_fields)]
pub enum ServerGoalState<G, R> {
    Accepted {
        goal: Arc<G>,
        /// The number of the goal's cancel flag.
        cancel_flag: usize,
        accepted_at: Time,
        expires_at: Option<u128>,
    },
    Executing { goal: Arc<G>, cancel_flag: usize, accepted_at: Time, expires_at: Option<u128> },
    Canceling { goal: Arc<G>, cancel_flag: usize, accepted_at: Time, expires_at: Option<u128> },
    Terminated {
        result: Arc<R>,
        status: GoalStatus,
        accepted_at: Time,
        timestamp: u128,
        expires_at: Option<u128>,
    },
}

/// The status and time stamp of a goal in state `s`.
pub open spec fn status_of<G, R>(s: ServerGoalState<G, R>) -> (GoalStatus, Time) {
    match s {
        ServerGoalState::Accepted { accepted_at, .. } => (GoalStatus::Accepted, accepted_at),
        ServerGoalState::Executing { accepted_at, .. } => (GoalStatus::Executing, accepted_at),
        ServerGoalState::Canceling { accepted_at, .. } => (GoalStatus::Canceling, accepted_at),
        ServerGoalState::Terminated { status, accepted_at, .. } => (status, accepted_at),
    }
}

/// Whether a goal in state `s` has not ended.
pub open spec fn active<G, R>(s: ServerGoalState<G, R>) -> bool {
    s !is Terminated
}

/// When a goal in state `s` is forgotten.
pub open spec fn expiry<G, R>(s: ServerGoalState<G, R>) -> Option<u128> {
    match s {
        ServerGoalState::Accepted { expires_at, .. } => expires_at,
        ServerGoalState::Executing { expires_at, .. } => expires_at,
        ServerGoalState::Canceling { expires_at, .. } => expires_at,
        ServerGoalState::Terminated { expires_at, .. } => expires_at,
    }
}

impl<G, R> ServerGoalState<G, R> {
    /// The status and time stamp of a goal in this state.
    pub fn status(&self) -> (r: (GoalStatus, Time))
        ensures
            r == status_of(*self),
    {
        match self {
            ServerGoalState::Accepted { accepted_at, .. } => (GoalStatus::Accepted, *accepted_at),
            ServerGoalState::Executing { accepted_at, .. } => {
                (GoalStatus::Executing, *accepted_at)
            },
            ServerGoalState::Canceling { accepted_at, .. } => {
                (GoalStatus::Canceling, *accepted_at)
            },
            ServerGoalState::Terminated { status, accepted_at, .. } => (*status, *accepted_at),
        }
    }

    /// Whether a goal in this state has not ended.
    pub fn is_active(&self) -> (r: bool)
        ensures
            r == active(*self),
    {
        match self {
            ServerGoalState::Terminated { .. } => false,
            _ => true,
        }
    }

    /// When a goal in this state is forgotten.
    pub fn expires_at(&self) -> (r: Option<u128>)
        ensures
            r == expiry(*self),
    {
        match self {
            ServerGoalState::Accepted { expires_at, .. } => *expires_at,
            ServerGoalState::Executing { expires_at, .. } => *expires_at,
            ServerGoalState::Canceling { expires_at, .. } => *expires_at,
            ServerGoalState::Terminated { expires_at, .. } => *expires_at,
        }
    }
}

} // verus!
