//! What the node commands and the coordinator say to each other.

use crate::time::Duration;
use vstd::prelude::*;

verus! {

/// A request to the coordinator. Dataflows are named by their UUID as a number.
#[derive(Debug, PartialEq, Eq)]
pub enum ControlRequest {
    /// Stop a node, and disable its restart policy.
    NodeStop { dataflow_uuid: u128, node_id: String, grace_duration: Option<Duration> },
    /// Start a stopped or restarting node, and enable its restart policy.
    NodeStart { dataflow_uuid: u128, node_id: String },
    /// Kill a node, and leave its restart policy alone.
    NodeKill { dataflow_uuid: u128, node_id: String, grace_duration: Option<Duration> },
    /// Ask for the state of all nodes.
    GetNodeInfo,
}

/// How a request came to nothing.
#[derive(Clone, Copy, Debug, PartialEq, Eq, Structural)]
pub enum RequestFailure {
    /// It could not be sent, or no reply came.
    NotSent,
    /// The reply could not be parsed.
    NotParsed,
}

/// The state of a node.
#[derive(Debug, PartialEq, Eq)]
pub struct NodeInfo {
    pub dataflow_id: u128,
    pub node_id: String,
    /// Whether there are metrics of the node, as there are of every node that runs.
    pub has_metrics: bool,
    pub stopped: bool,
    pub restarting: bool,
    pub manually_stopped: bool,
}

/// A reply of the coordinator.
#[derive(Debug, PartialEq, Eq)]
pub enum ControlRequestReply {
    NodeStopped { uuid: u128, node_id: String },
    NodeStarted { uuid: u128, node_id: String },
    NodeKilled { uuid: u128, node_id: String },
    NodeInfoList(Vec<NodeInfo>),
    /// The request was refused, for this reason.
    Error(String),
    /// A reply to some other request, in words.
    Other(String),
}

} // verus!
