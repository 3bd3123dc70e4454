//! Quality of service as it travels in the ROS graph.

use vstd::prelude::*;

verus! {

#[derive(Debug, Clone, Copy, PartialEq, Eq, Structural)]
pub enum QosReliability {
    Reliable,
    BestEffort,
}

#[derive(Debug, Clone, Copy, PartialEq, Eq, Structural)]
pub enum QosDurability {
    TransientLocal,
    Volatile,
}

#[derive(Debug, Clone, Copy, PartialEq, Eq, Structural)]
pub enum QosHistory {
    KeepLast(usize),
    KeepAll,
}

#[derive(Debug, Clone, Copy, PartialEq, Eq, Structural)]
pub enum QosLiveliness {
    Automatic,
    ManualByNode,
    ManualByTopic,
}

#[derive(Debug, Clone, Copy, PartialEq, Eq, Structural)]
pub struct QosDuration {
    pub sec: u64,
    pub nsec: u64,
}

/// A quality of service.
#[derive(Debug, Clone, Copy, PartialEq, Eq, Structural)]
pub struct QosProfile {
    pub reliability: QosReliability,
    pub durability: QosDurability,
    pub history: QosHistory,
    pub deadline: QosDuration,
    pub lifespan: QosDuration,
    pub liveliness: QosLiveliness,
    pub liveliness_lease_duration: QosDuration,
}

} // verus!
