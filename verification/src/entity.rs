//! Entities of the ROS graph.

use crate::dynamic::type_info::TypeInfo;
use crate::protocol::QosProfile;
use vstd::prelude::*;

verus! {

/// The global identifier of an entity.
pub type GidArray = [u8; 16];

/// What an endpoint does.
#[derive(Debug, Clone, Copy, PartialEq, Eq)]
pub enum EndpointKind {
    Publisher,
    Subscription,
    Service,
    Client,
}

/// A node.
#[derive(Debug)]
pub struct NodeEntity {
    pub name: String,
    pub namespace: String,
}

/// An endpoint of a node.
#[derive(Debug)]
pub struct EndpointEntity {
    pub id: usize,
    pub node: Option<NodeEntity>,
    pub kind: EndpointKind,
    pub topic: String,
    pub type_info: Option<TypeInfo>,
    pub qos: QosProfile,
}

/// A node or an endpoint of the graph.
#[derive(Debug)]
pub enum Entity {
    Node(NodeEntity),
    Endpoint(EndpointEntity),
}

/// Whether two identifiers are the same.
pub fn same_gid(a: &GidArray, b: &GidArray) -> (r: bool)
    ensures
        r == (a@ == b@),
{
    let mut i: usize = 0;
    while i < 16
        invariant
            i <= 16,
            a@.len() == 16,
            b@.len() == 16,
            forall|j: int| 0 <= j < i ==> a@[j] == b@[j],
        decreases 16 - i,
    {
        if a[i] != b[i] {
            assert(a@[i as int] != b@[i as int]);
            return false;
        }
        i = i + 1;
    }
    assert(a@ =~= b@);
    true
}

} // verus!
