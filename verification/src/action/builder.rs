//! What an action server is made of: names, types and qualities of service.

use crate::dynamic::type_info::TypeInfo;
use crate::protocol;
use crate::qos::{on_the_wire, QosProfile};
use crate::text::join2;
use crate::topic_name::{qualified, qualify_topic_name, NameErrorView, TopicNameError};
use vstd::prelude::*;

verus! {

/// How long a result is kept where nothing else is said, in nanoseconds.
pub const DEFAULT_RESULT_TIMEOUT: u128 = 10_000_000_000;

/// Collects the settings of an action server. Timeouts are in nanoseconds.
#[derive(Debug)]
pub struct ZActionServerBuilder {
    pub action_name: String,
    pub result_timeout: u128,
    pub goal_timeout: Option<u128>,
    pub goal_service_qos: Option<QosProfile>,
    pub result_service_qos: Option<QosProfile>,
    pub cancel_service_qos: Option<QosProfile>,
    pub feedback_topic_qos: Option<QosProfile>,
    pub status_topic_qos: Option<QosProfile>,
    /// The goal type, in place of the action's own.
    pub goal_type_info: Option<TypeInfo>,
    /// The result type, in place of the action's own.
    pub result_type_info: Option<TypeInfo>,
    /// The feedback type, in place of the action's own.
    pub feedback_type_info: Option<TypeInfo>,
}

/// The types of an action.
#[derive(Debug)]
pub struct ActionTypes {
    pub send_goal: TypeInfo,
    pub get_result: TypeInfo,
    pub cancel_goal: TypeInfo,
    pub feedback: TypeInfo,
    pub status: TypeInfo,
}

/// A service or topic to be made.
#[derive(Debug)]
pub struct EndpointPlan {
    pub name: String,
    pub type_info: TypeInfo,
    /// The quality of service, where it is not the default.
    pub qos: Option<protocol::QosProfile>,
}

/// The services and topics of an action server.
#[derive(Debug)]
pub struct ActionServerPlan {
    pub goal_service: EndpointPlan,
    pub result_service: EndpointPlan,
    pub cancel_service: EndpointPlan,
    pub feedback_topic: EndpointPlan,
    pub status_topic: EndpointPlan,
    pub result_timeout: u128,
    pub goal_timeout: Option<u128>,
}

/// Why an action server cannot be made.
#[derive(Debug, PartialEq, Eq)]
pub enum ActionBuildError {
    EmptyName,
    Name(TopicNameError),
}

impl ActionBuildError {
    /// What the error says to the user.
    pub fn message(&self) -> (r: String)
        ensures
            r@ == (match *self {
                ActionBuildError::EmptyName => "Action name cannot be empty"@,
                ActionBuildError::Name(e) => crate::topic_name::message_of(e@),
            }),
    {
        match self {
            ActionBuildError::EmptyName => "Action name cannot be empty".to_owned(),
            ActionBuildError::Name(e) => e.message(),
        }
    }
}

/// Whether `e` is planned with the name, the first of the types that is there,
/// and the quality of service given.
pub open spec fn planned(
    e: EndpointPlan,
    name: Seq<char>,
    chosen: Option<TypeInfo>,
    own: TypeInfo,
    qos: Option<QosProfile>,
) -> bool {
    &&& e.name@ == name
    &&& e.type_info == (match chosen {
        Some(t) => t,
        None => own,
    })
    &&& e.qos == (match qos {
        Some(q) => Some(on_the_wire(q)),
        None => None,
    })
}

fn endpoint(
    action: &str,
    suffix: &str,
    chosen: Option<TypeInfo>,
    own: TypeInfo,
    qos: Option<QosProfile>,
) -> (r: EndpointPlan)
    ensures
        planned(r, action@ + suffix@, chosen, own, qos),
{
    EndpointPlan {
        name: join2(action, suffix),
        type_info: match chosen {
            Some(t) => t,
            None => own,
        },
        qos: match qos {
            Some(q) => Some(q.to_protocol_qos()),
            None => None,
        },
    }
}

impl ZActionServerBuilder {
    /// The default settings.
    pub fn new(action_name: &str) -> (r: Self)
        ensures
            r.action_name@ == action_name@,
            r.result_timeout == DEFAULT_RESULT_TIMEOUT,
            r.goal_timeout is None,
            r.goal_service_qos is None,
            r.result_service_qos is None,
            r.cancel_service_qos is None,
            r.feedback_topic_qos is None,
            r.status_topic_qos is None,
            r.goal_type_info is None,
            r.result_type_info is None,
            r.feedback_type_info is None,
    {
        ZActionServerBuilder {
            action_name: action_name.to_owned(),
            result_timeout: DEFAULT_RESULT_TIMEOUT,
            goal_timeout: None,
            goal_service_qos: None,
            result_service_qos: None,
            cancel_service_qos: None,
            feedback_topic_qos: None,
            status_topic_qos: None,
            goal_type_info: None,
            result_type_info: None,
            feedback_type_info: None,
        }
    }

    pub fn with_result_timeout(self, timeout: u128) -> (r: Self)
        ensures
            r == (ZActionServerBuilder { result_timeout: timeout, ..self }),
    {
        ZActionServerBuilder { result_timeout: timeout, ..self }
    }

    pub fn with_goal_timeout(self, timeout: u128) -> (r: Self)
        ensures
            r == (ZActionServerBuilder { goal_timeout: Some(timeout), ..self }),
    {
        ZActionServerBuilder { goal_timeout: Some(timeout), ..self }
    }

    pub fn with_goal_service_qos(self, qos: QosProfile) -> (r: Self)
        ensures
            r == (ZActionServerBuilder { goal_service_qos: Some(qos), ..self }),
    {
        ZActionServerBuilder { goal_service_qos: Some(qos), ..self }
    }

    pub fn with_result_service_qos(self, qos: QosProfile) -> (r: Self)
        ensures
            r == (ZActionServerBuilder { result_service_qos: Some(qos), ..self }),
    {
        ZActionServerBuilder { result_service_qos: Some(qos), ..self }
    }

    pub fn with_cancel_service_qos(self, qos: QosProfile) -> (r: Self)
        ensures
            r == (ZActionServerBuilder { cancel_service_qos: Some(qos), ..self }),
    {
        ZActionServerBuilder { cancel_service_qos: Some(qos), ..self }
    }

    pub fn with_feedback_topic_qos(self, qos: QosProfile) -> (r: Self)
        ensures
            r == (ZActionServerBuilder { feedback_topic_qos: Some(qos), ..self }),
    {
        ZActionServerBuilder { feedback_topic_qos: Some(qos), ..self }
    }

    pub fn with_status_topic_qos(self, qos: QosProfile) -> (r: Self)
        ensures
            r == (ZActionServerBuilder { status_topic_qos: Some(qos), ..self }),
    {
        ZActionServerBuilder { status_topic_qos: Some(qos), ..self }
    }

    pub fn with_goal_type_info(self, info: TypeInfo) -> (r: Self)
        ensures
            r == (ZActionServerBuilder { goal_type_info: Some(info), ..self }),
    {
        ZActionServerBuilder { goal_type_info: Some(info), ..self }
    }

    pub fn with_result_type_info(self, info: TypeInfo) -> (r: Self)
        ensures
            r == (ZActionServerBuilder { result_type_info: Some(info), ..self }),
    {
        ZActionServerBuilder { result_type_info: Some(info), ..self }
    }

    pub fn with_feedback_type_info(self, info: TypeInfo) -> (r: Self)
        ensures
            r == (ZActionServerBuilder { feedback_type_info: Some(info), ..self }),
    {
        ZActionServerBuilder { feedback_type_info: Some(info), ..self }
    }

    /// The services and topics to be made, where `action_name` is the action's
    /// name after remapping and the others name the node.
    pub fn build(
        self,
        action_name: &str,
        namespace: &str,
        node_name: &str,
        types: ActionTypes,
    ) -> (r: Result<ActionServerPlan, ActionBuildError>)
        ensures
            match r {
                Ok(plan) => {
                    &&& action_name@.len() > 0
                    &&& qualified(action_name@, namespace@, node_name@) matches Ok(name) && {
                        &&& planned(
                            plan.goal_service,
                            name + "/_action/send_goal"@,
                            self.goal_type_info,
                            types.send_goal,
                            self.goal_service_qos,
                        )
                        &&& planned(
                            plan.result_service,
                            name + "/_action/get_result"@,
                            self.result_type_info,
                            types.get_result,
                            self.result_service_qos,
                        )
                        &&& planned(
                            plan.cancel_service,
                            name + "/_action/cancel_goal"@,
                            None,
                            types.cancel_goal,
                            self.cancel_service_qos,
                        )
                        &&& planned(
                            plan.feedback_topic,
                            name + "/_action/feedback"@,
                            self.feedback_type_info,
                            types.feedback,
                            self.feedback_topic_qos,
                        )
                        &&& planned(
                            plan.status_topic,
                            name + "/_action/status"@,
                            None,
                            types.status,
                            self.status_topic_qos,
                        )
                    }
                    &&& plan.result_timeout == self.result_timeout
                    &&& plan.goal_timeout == self.goal_timeout
                },
                Err(ActionBuildError::EmptyName) => action_name@.len() == 0,
                Err(ActionBuildError::Name(e)) => {
                    &&& action_name@.len() > 0
                    &&& qualified(action_name@, namespace@, node_name@) == Err::<
                        Seq<char>,
                        NameErrorView,
                    >(e@)
                },
            },
    {
        if action_name.unicode_len() == 0 {
            return Err(ActionBuildError::EmptyName);
        }
        let name: String = match qualify_topic_name(action_name, namespace, node_name) {
            Ok(name) => name,
            Err(e) => return Err(ActionBuildError::Name(e)),
        };
        Ok(
            ActionServerPlan {
                goal_service: endpoint(
                    &name,
                    "/_action/send_goal",
                    self.goal_type_info,
                    types.send_goal,
                    self.goal_service_qos,
                ),
                result_service: endpoint(
                    &name,
                    "/_action/get_result",
                    self.result_type_info,
                    types.get_result,
                    self.result_service_qos,
                ),
                cancel_service: endpoint(
                    &name,
                    "/_action/cancel_goal",
                    None,
                    types.cancel_goal,
                    self.cancel_service_qos,
                ),
                feedback_topic: endpoint(
                    &name,
                    "/_action/feedback",
                    self.feedback_type_info,
                    types.feedback,
                    self.feedback_topic_qos,
                ),
                status_topic: endpoint(
                    &name,
                    "/_action/status",
                    None,
                    types.status,
                    self.status_topic_qos,
                ),
                result_timeout: self.result_timeout,
                goal_timeout: self.goal_timeout,
            },
        )
    }
}

/// An action server is made of three services and two topics below the action's
/// name, which is qualified by the node; results are kept for ten seconds where
/// nothing else is said.
pub proof fn action_servers_are_made_of_services_and_topics(
    name: &str,
    b: ZActionServerBuilder,
    c: ZActionServerBuilder,
    action_name: &str,
    namespace: &str,
    node_name: &str,
    types: ActionTypes,
    r: Result<ActionServerPlan, ActionBuildError>,
)
    ensures
        call_ensures(ZActionServerBuilder::new, (name,), b) ==> b.result_timeout == 10_000_000_000
            && b.goal_timeout is None && b.action_name@ == name@,
        call_ensures(
            ZActionServerBuilder::build,
            (c, action_name, namespace, node_name, types),
            r,
        ) ==> {
            &&& action_name@.len() == 0 ==> r == Err::<ActionServerPlan, ActionBuildError>(
                ActionBuildError::EmptyName,
            )
            &&& action_name@.len() > 0 ==> (r is Ok <==> qualified(
                action_name@,
                namespace@,
                node_name@,
            ) is Ok)
            &&& r matches Ok(plan) ==> {
                let base = qualified(action_name@, namespace@, node_name@)->Ok_0;
                &&& plan.goal_service.name@ == base + "/_action/send_goal"@
                &&& plan.result_service.name@ == base + "/_action/get_result"@
                &&& plan.cancel_service.name@ == base + "/_action/cancel_goal"@
                &&& plan.feedback_topic.name@ == base + "/_action/feedback"@
                &&& plan.status_topic.name@ == base + "/_action/status"@
                &&& plan.cancel_service.type_info == types.cancel_goal
                &&& plan.status_topic.type_info == types.status
                &&& c.goal_type_info is None ==> plan.goal_service.type_info == types.send_goal
                &&& c.result_type_info is None ==> plan.result_service.type_info
                    == types.get_result
                &&& c.feedback_type_info is None ==> plan.feedback_topic.type_info
                    == types.feedback
                &&& plan.goal_service.qos is Some <==> c.goal_service_qos is Some
                &&& plan.result_service.qos is Some <==> c.result_service_qos is Some
                &&& plan.cancel_service.qos is Some <==> c.cancel_service_qos is Some
                &&& plan.feedback_topic.qos is Some <==> c.feedback_topic_qos is Some
                &&& plan.status_topic.qos is Some <==> c.status_topic_qos is Some
                &&& plan.result_timeout == c.result_timeout
                &&& plan.goal_timeout == c.goal_timeout
            }
        },
{
}

} // verus!
