//! Quality of service as applications set it.

use crate::protocol;
use vstd::prelude::*;

verus! {

/// How many samples stand for an unlimited history.
pub const KEEP_ALL_CACHE_DEPTH: usize = 42;

/// How many samples are kept where nothing else is said.
pub const DEFAULT_HISTORY_DEPTH: usize = 10;

#[derive(Debug, Clone, Copy, PartialEq, Eq, Structural)]
pub enum QosReliability {
    Reliable,
    BestEffort,
}

#[derive(Debug, Clone, Copy, PartialEq, Eq, Structural)]
pub enum QosDurability {
    TransientLocal,
    Volatile,
}

/// How many samples are kept: the last ones, at least one, or all.
#[derive(Debug, Clone, Copy, PartialEq, Eq, Structural)]
pub enum QosHistory {
    KeepLast(usize),
    KeepAll,
}

#[derive(Debug, Clone, Copy, PartialEq, Eq, Structural)]
pub enum QosLiveliness {
    Automatic,
    ManualByNode,
    ManualByTopic,
}

#[derive(Debug, Clone, Copy, PartialEq, Eq, Structural)]
pub struct QosDuration {
    pub sec: u64,
    pub nsec: u64,
}

/// A quality of service.
#[derive(Debug, Clone, Copy, PartialEq, Eq, Structural)]
pub struct QosProfile {
    pub reliability: QosReliability,
    pub durability: QosDurability,
    pub history: QosHistory,
    pub deadline: QosDuration,
    pub lifespan: QosDuration,
    pub liveliness: QosLiveliness,
    pub liveliness_lease_duration: QosDuration,
}

/// The history of `depth` samples, where none means the default.
pub open spec fn history_of_depth(depth: usize) -> QosHistory {
    if depth == 0 {
        QosHistory::KeepLast(DEFAULT_HISTORY_DEPTH)
    } else {
        QosHistory::KeepLast(depth)
    }
}

impl QosHistory {
    /// The history of `depth` samples.
    pub fn from_depth(depth: usize) -> (r: Self)
        ensures
            r == history_of_depth(depth),
    {
        if depth == 0 {
            QosHistory::KeepLast(DEFAULT_HISTORY_DEPTH)
        } else {
            QosHistory::KeepLast(depth)
        }
    }

    /// Whether at least one sample is kept.
    pub open spec fn wf(self) -> bool {
        self matches QosHistory::KeepLast(n) ==> n > 0
    }
}

pub open spec fn protocol_duration(d: QosDuration) -> protocol::QosDuration {
    protocol::QosDuration { sec: d.sec, nsec: d.nsec }
}

/// The same quality of service as it travels.
pub open spec fn on_the_wire(q: QosProfile) -> protocol::QosProfile {
    protocol::QosProfile {
        reliability: match q.reliability {
            QosReliability::Reliable => protocol::QosReliability::Reliable,
            QosReliability::BestEffort => protocol::QosReliability::BestEffort,
        },
        durability: match q.durability {
            QosDurability::TransientLocal => protocol::QosDurability::TransientLocal,
            QosDurability::Volatile => protocol::QosDurability::Volatile,
        },
        history: match q.history {
            QosHistory::KeepLast(n) => protocol::QosHistory::KeepLast(n),
            QosHistory::KeepAll => protocol::QosHistory::KeepAll,
        },
        deadline: protocol_duration(q.deadline),
        lifespan: protocol_duration(q.lifespan),
        liveliness: match q.liveliness {
            QosLiveliness::Automatic => protocol::QosLiveliness::Automatic,
            QosLiveliness::ManualByNode => protocol::QosLiveliness::ManualByNode,
            QosLiveliness::ManualByTopic => protocol::QosLiveliness::ManualByTopic,
        },
        liveliness_lease_duration: protocol_duration(q.liveliness_lease_duration),
    }
}

impl QosDuration {
    /// The same duration as it travels.
    pub fn to_protocol(self) -> (r: protocol::QosDuration)
        ensures
            r == protocol_duration(self),
    {
        protocol::QosDuration { sec: self.sec, nsec: self.nsec }
    }
}

impl QosProfile {
    /// The same quality of service as it travels.
    pub fn to_protocol_qos(&self) -> (r: protocol::QosProfile)
        ensures
            r == on_the_wire(*self),
    {
        protocol::QosProfile {
            reliability: match self.reliability {
                QosReliability::Reliable => protocol::QosReliability::Reliable,
                QosReliability::BestEffort => protocol::QosReliability::BestEffort,
            },
            durability: match self.durability {
                QosDurability::TransientLocal => protocol::QosDurability::TransientLocal,
                QosDurability::Volatile => protocol::QosDurability::Volatile,
            },
            history: match self.history {
                QosHistory::KeepLast(n) => protocol::QosHistory::KeepLast(n),
                QosHistory::KeepAll => protocol::QosHistory::KeepAll,
            },
            deadline: self.deadline.to_protocol(),
            lifespan: self.lifespan.to_protocol(),
            liveliness: match self.liveliness {
                QosLiveliness::Automatic => protocol::QosLiveliness::Automatic,
                QosLiveliness::ManualByNode => protocol::QosLiveliness::ManualByNode,
                QosLiveliness::ManualByTopic => protocol::QosLiveliness::ManualByTopic,
            },
            liveliness_lease_duration: self.liveliness_lease_duration.to_protocol(),
        }
    }
}

pub open spec fn no_duration() -> QosDuration {
    QosDuration { sec: 0, nsec: 0 }
}

/// The quality of service where nothing else is said.
pub open spec fn default_qos() -> QosProfile {
    QosProfile {
        reliability: QosReliability::Reliable,
        durability: QosDurability::Volatile,
        history: QosHistory::KeepLast(DEFAULT_HISTORY_DEPTH),
        deadline: no_duration(),
        lifespan: no_duration(),
        liveliness: QosLiveliness::Automatic,
        liveliness_lease_duration: no_duration(),
    }
}

impl Default for QosProfile {
    fn default() -> (r: Self)
        ensures
            r == default_qos(),
    {
        let none = QosDuration { sec: 0, nsec: 0 };
        QosProfile {
            reliability: QosReliability::Reliable,
            durability: QosDurability::Volatile,
            history: QosHistory::KeepLast(DEFAULT_HISTORY_DEPTH),
            deadline: none,
            lifespan: none,
            liveliness: QosLiveliness::Automatic,
            liveliness_lease_duration: none,
        }
    }
}

pub open spec fn duration_from(d: protocol::QosDuration) -> QosDuration {
    QosDuration { sec: d.sec, nsec: d.nsec }
}

/// The quality of service that a received one stands for.
pub open spec fn from_the_wire(q: protocol::QosProfile) -> QosProfile {
    QosProfile {
        reliability: match q.reliability {
            protocol::QosReliability::Reliable => QosReliability::Reliable,
            protocol::QosReliability::BestEffort => QosReliability::BestEffort,
        },
        durability: match q.durability {
            protocol::QosDurability::TransientLocal => QosDurability::TransientLocal,
            protocol::QosDurability::Volatile => QosDurability::Volatile,
        },
        history: match q.history {
            protocol::QosHistory::KeepLast(n) => history_of_depth(n),
            protocol::QosHistory::KeepAll => QosHistory::KeepAll,
        },
        deadline: duration_from(q.deadline),
        lifespan: duration_from(q.lifespan),
        liveliness: match q.liveliness {
            protocol::QosLiveliness::Automatic => QosLiveliness::Automatic,
            protocol::QosLiveliness::ManualByNode => QosLiveliness::ManualByNode,
            protocol::QosLiveliness::ManualByTopic => QosLiveliness::ManualByTopic,
        },
        liveliness_lease_duration: duration_from(q.liveliness_lease_duration),
    }
}

fn from_protocol_duration(d: protocol::QosDuration) -> (r: QosDuration)
    ensures
        r == duration_from(d),
{
    QosDuration { sec: d.sec, nsec: d.nsec }
}

/// The quality of service that a received one stands for.
pub fn protocol_qos_to_hiroz_qos(qos: &protocol::QosProfile) -> (r: QosProfile)
    ensures
        r == from_the_wire(*qos),
        r.history.wf(),
{
    QosProfile {
        reliability: match qos.reliability {
            protocol::QosReliability::Reliable => QosReliability::Reliable,
            protocol::QosReliability::BestEffort => QosReliability::BestEffort,
        },
        durability: match qos.durability {
            protocol::QosDurability::TransientLocal => QosDurability::TransientLocal,
            protocol::QosDurability::Volatile => QosDurability::Volatile,
        },
        history: match qos.history {
            protocol::QosHistory::KeepLast(depth) => QosHistory::from_depth(depth),
            protocol::QosHistory::KeepAll => QosHistory::KeepAll,
        },
        deadline: from_protocol_duration(qos.deadline),
        lifespan: from_protocol_duration(qos.lifespan),
        liveliness: match qos.liveliness {
            protocol::QosLiveliness::Automatic => QosLiveliness::Automatic,
            protocol::QosLiveliness::ManualByNode => QosLiveliness::ManualByNode,
            protocol::QosLiveliness::ManualByTopic => QosLiveliness::ManualByTopic,
        },
        liveliness_lease_duration: from_protocol_duration(qos.liveliness_lease_duration),
    }
}

/// A quality of service comes back from the wire.
pub proof fn qos_survives_the_wire(q: QosProfile)
    requires
        q.history.wf(),
    ensures
        from_the_wire(on_the_wire(q)) == q,
{
}

/// A quality of service travels under its own names: each policy means the same
/// before and after, and each duration has the same seconds and nanoseconds.
pub proof fn policies_travel_under_their_own_names(q: QosProfile)
    ensures
        on_the_wire(q).reliability is Reliable <==> q.reliability is Reliable,
        on_the_wire(q).durability is TransientLocal <==> q.durability is TransientLocal,
        on_the_wire(q).history is KeepAll <==> q.history is KeepAll,
        q.history matches QosHistory::KeepLast(n) ==> on_the_wire(q).history
            == protocol::QosHistory::KeepLast(n),
        on_the_wire(q).liveliness is Automatic <==> q.liveliness is Automatic,
        on_the_wire(q).liveliness is ManualByNode <==> q.liveliness is ManualByNode,
        on_the_wire(q).liveliness is ManualByTopic <==> q.liveliness is ManualByTopic,
        on_the_wire(q).deadline.sec == q.deadline.sec && on_the_wire(q).deadline.nsec
            == q.deadline.nsec,
        on_the_wire(q).lifespan.sec == q.lifespan.sec && on_the_wire(q).lifespan.nsec
            == q.lifespan.nsec,
        on_the_wire(q).liveliness_lease_duration.sec == q.liveliness_lease_duration.sec
            && on_the_wire(q).liveliness_lease_duration.nsec == q.liveliness_lease_duration.nsec,
{
}

/// A quality of service that is received means the same too; a history of no
/// samples is one of ten.
pub proof fn policies_are_received_under_their_own_names(q: protocol::QosProfile)
    ensures
        from_the_wire(q).reliability is Reliable <==> q.reliability is Reliable,
        from_the_wire(q).durability is TransientLocal <==> q.durability is TransientLocal,
        from_the_wire(q).history is KeepAll <==> q.history is KeepAll,
        q.history matches protocol::QosHistory::KeepLast(n) ==> from_the_wire(q).history
            == QosHistory::KeepLast(if n > 0 {
            n
        } else {
            10
        }),
        from_the_wire(q).liveliness is Automatic <==> q.liveliness is Automatic,
        from_the_wire(q).liveliness is ManualByNode <==> q.liveliness is ManualByNode,
        from_the_wire(q).liveliness is ManualByTopic <==> q.liveliness is ManualByTopic,
        from_the_wire(q).deadline.sec == q.deadline.sec && from_the_wire(q).deadline.nsec
            == q.deadline.nsec,
        from_the_wire(q).lifespan.sec == q.lifespan.sec && from_the_wire(q).lifespan.nsec
            == q.lifespan.nsec,
        from_the_wire(q).liveliness_lease_duration.sec == q.liveliness_lease_duration.sec
            && from_the_wire(q).liveliness_lease_duration.nsec == q.liveliness_lease_duration.nsec,
{
}

/// Where nothing is said, messages arrive, the last ten are kept, latecomers get
/// none of them, and no time is limited.
pub proof fn the_default_is_reliable_and_volatile(depth: usize)
    ensures
        default_qos().reliability is Reliable,
        default_qos().durability is Volatile,
        default_qos().history == QosHistory::KeepLast(10),
        default_qos().liveliness is Automatic,
        default_qos().deadline.sec == 0 && default_qos().deadline.nsec == 0,
        default_qos().lifespan.sec == 0 && default_qos().lifespan.nsec == 0,
        default_qos().liveliness_lease_duration.sec == 0
            && default_qos().liveliness_lease_duration.nsec == 0,
        depth > 0 ==> history_of_depth(depth) == QosHistory::KeepLast(depth),
        history_of_depth(0) == default_qos().history,
        history_of_depth(depth).wf(),
{
}

} // verus!
