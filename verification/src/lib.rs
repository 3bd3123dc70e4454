//! Verified core of a ROS 2 client library over Zenoh.

pub mod action;
pub mod common;
pub mod dynamic;
pub mod entity;
pub mod error;
pub mod event;
pub mod local_bus;
pub mod payload_pool;
pub mod protocol;
pub mod pubsub;
pub mod qos;
pub mod queue;
pub mod reentrancy;
pub mod rmw;
pub mod shared;
pub mod text;
pub mod time;
pub mod topic_name;
