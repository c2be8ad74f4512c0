//! A node that is ready to be spawned, and what its descriptor says about restarting it.

use crate::time::{Duration, NANOS_PER_SEC};
use vstd::prelude::*;

verus! {

/// When a node is restarted after its process has exited.
#[derive(Clone, Copy, Debug, PartialEq, Eq, Structural)]
pub enum RestartPolicy {
    Never,
    OnFailure,
    Always,
}

/// How a node process ended.
#[derive(Debug, PartialEq, Eq)]
pub enum NodeExitStatus {
    Success,
    IoError(String),
    ExitCode(i32),
    Signal(i32),
    Unknown,
}

impl NodeExitStatus {
    /// Whether the process ended without an error.
    pub fn is_success(&self) -> (success: bool)
        ensures
            success == (*self is Success),
    {
        match self {
            NodeExitStatus::Success => true,
            _ => false,
        }
    }
}

impl Clone for NodeExitStatus {
    fn clone(&self) -> (status: NodeExitStatus)
        ensures
            status == *self,
    {
        match self {
            NodeExitStatus::Success => NodeExitStatus::Success,
            NodeExitStatus::IoError(reason) => NodeExitStatus::IoError(reason.clone()),
            NodeExitStatus::ExitCode(code) => NodeExitStatus::ExitCode(*code),
            NodeExitStatus::Signal(signal) => NodeExitStatus::Signal(*signal),
            NodeExitStatus::Unknown => NodeExitStatus::Unknown,
        }
    }
}

/// The part of a custom node's descriptor that governs restarts.
#[derive(Clone, Copy, Debug, PartialEq, Eq)]
pub struct CustomNode {
    pub restart_policy: RestartPolicy,
    /// Delay before a restart in seconds.
    pub restart_sec: Option<u64>,
    /// Number of restarts that the rate limit permits within its window.
    pub start_limit_burst: Option<u32>,
    /// Length of the rate limit's window in seconds.
    pub start_limit_interval_sec: Option<u64>,
}

/// The two kinds of nodes.
#[derive(Clone, Copy, Debug, PartialEq, Eq)]
pub enum CoreNodeKind {
    /// A process of its own.
    Custom(CustomNode),
    /// A runtime that hosts operators.
    Runtime,
}

/// A node of a dataflow.
#[derive(Clone, Debug, PartialEq, Eq)]
pub struct ResolvedNode {
    pub id: String,
    pub kind: CoreNodeKind,
    /// Whether the node is started by hand, outside the daemon.
    pub dynamic: bool,
}

/// What is run for a node.
#[derive(Clone, Debug, PartialEq, Eq)]
pub struct CommandLine {
    pub program: String,
    pub current_dir: Option<String>,
}

/// A node that is ready to be spawned.
#[derive(Clone, Debug, PartialEq, Eq)]
pub struct PreparedNode {
    /// What to run; nothing for a node that attaches itself.
    pub command: Option<CommandLine>,
    /// What is said where the process cannot be launched.
    pub spawn_error_msg: String,
    /// The dataflow's UUID as a number.
    pub dataflow_id: u128,
    pub node: ResolvedNode,
    /// The configuration of the node, in the serialized form in which it is handed around.
    pub node_config: String,
}

impl PreparedNode {
    /// The policy of a custom node. A runtime node is never restarted.
    pub open spec fn policy(self) -> RestartPolicy {
        match self.node.kind {
            CoreNodeKind::Custom(n) => n.restart_policy,
            CoreNodeKind::Runtime => RestartPolicy::Never,
        }
    }

    /// The delay before a restart in seconds; zero where none is set.
    pub open spec fn delay_secs(self) -> u64 {
        match self.node.kind {
            CoreNodeKind::Custom(n) => match n.restart_sec {
                Some(secs) => secs,
                None => 0,
            },
            CoreNodeKind::Runtime => 0,
        }
    }

    /// The rate limit as the number of restarts and the window in seconds. It is active only where
    /// both settings are there and positive.
    pub open spec fn limit(self) -> Option<(u32, u64)> {
        match self.node.kind {
            CoreNodeKind::Custom(n) => match (n.start_limit_burst, n.start_limit_interval_sec) {
                (Some(burst), Some(secs)) => if burst > 0 && secs > 0 {
                    Some((burst, secs))
                } else {
                    None
                },
                _ => None,
            },
            CoreNodeKind::Runtime => None,
        }
    }

    /// The id of the node.
    pub fn node_id(&self) -> (id: &String)
        ensures
            *id == self.node.id,
    {
        &self.node.id
    }

    /// Whether the node is started by hand, outside the daemon.
    pub fn dynamic(&self) -> (dynamic: bool)
        ensures
            dynamic == self.node.dynamic,
    {
        self.node.dynamic
    }

    /// When the node is restarted.
    pub fn restart_policy(&self) -> (policy: RestartPolicy)
        ensures
            policy == self.policy(),
    {
        match &self.node.kind {
            CoreNodeKind::Custom(n) => n.restart_policy,
            CoreNodeKind::Runtime => RestartPolicy::Never,
        }
    }

    /// How many seconds pass before the node is restarted.
    pub fn restart_sec(&self) -> (secs: u64)
        ensures
            secs == self.delay_secs(),
    {
        match &self.node.kind {
            CoreNodeKind::Custom(n) => n.restart_sec.unwrap_or(0),
            CoreNodeKind::Runtime => 0,
        }
    }

    /// The restart rate limit as `(burst, interval)`, or `None` when restarts are unlimited.
    ///
    /// Active only when both `start_limit_burst` and `start_limit_interval_sec` are set and
    /// positive.
    pub fn start_limit(&self) -> (limit: Option<(u32, Duration)>)
        ensures
            match limit {
                Some((burst, interval)) => self.limit() matches Some((b, secs)) && burst == b
                    && interval@ == secs * NANOS_PER_SEC,
                None => self.limit() is None,
            },
    {
        match &self.node.kind {
            CoreNodeKind::Custom(n) => match (n.start_limit_burst, n.start_limit_interval_sec) {
                (Some(burst), Some(interval_sec)) => if burst > 0 && interval_sec > 0 {
                    Some((burst, Duration::from_secs(interval_sec)))
                } else {
                    None
                },
                _ => None,
            },
            CoreNodeKind::Runtime => None,
        }
    }
}

/// What came of spawning a node.
#[must_use]
#[derive(Clone, Copy, Debug, PartialEq, Eq, Structural)]
pub enum NodeKind {
    /// Nothing was spawned: the node attaches itself.
    Dynamic,
    /// A process runs under this id.
    Spawned { pid: u32 },
}

/// What the daemon keeps about a node that it has spawned.
#[derive(Clone, Debug, PartialEq, Eq)]
pub struct RunningNode {
    /// Whether there is a process of the node that the daemon can act on.
    pub process: bool,
    /// The configuration of the node, serialized.
    pub node_config: String,
    pub restart_policy: RestartPolicy,
    /// Whether automatic restarts are switched off.
    pub disable_restart: bool,
    /// Whether the node was stopped by hand.
    pub manually_stopped: bool,
    /// Whether a timer runs at whose end the process is killed.
    pub grace_timer: bool,
    /// The id of the node's process.
    pub pid: Option<u32>,
}

/// Only the status of success counts as a success: an error of the system, every exit code and every
/// signal is a failure.
pub proof fn law_every_other_status_is_a_failure(status: NodeExitStatus, success: bool)
    requires
        call_ensures(NodeExitStatus::is_success, (&status,), success),
    ensures
        match status {
            NodeExitStatus::Success => success,
            NodeExitStatus::IoError(_) => !success,
            NodeExitStatus::ExitCode(_) => !success,
            NodeExitStatus::Signal(_) => !success,
            NodeExitStatus::Unknown => !success,
        },
{
}

/// A status that is cloned stays what it is.
pub proof fn law_cloned_status_is_the_same(status: NodeExitStatus, cloned: NodeExitStatus)
    requires
        call_ensures(NodeExitStatus::clone, (&status,), cloned),
    ensures
        cloned == status,
{
}

/// What a custom node's descriptor says is what counts, each setting on its own: the policy and the
/// delay are those of the descriptor, whatever else it says.
pub proof fn law_settings_of_a_custom_node(
    node: PreparedNode,
    custom: CustomNode,
    policy: RestartPolicy,
    secs: u64,
)
    requires
        node.node.kind == CoreNodeKind::Custom(custom),
        call_ensures(PreparedNode::restart_policy, (&node,), policy),
        call_ensures(PreparedNode::restart_sec, (&node,), secs),
    ensures
        policy == custom.restart_policy,
        node.policy() == custom.restart_policy,
        custom.restart_sec is None ==> secs == 0,
        custom.restart_sec is Some ==> secs == custom.restart_sec->0,
        node.delay_secs() == secs,
{
}

/// A runtime node is never restarted, waits for nothing and has no rate limit.
pub proof fn law_settings_of_a_runtime_node(
    node: PreparedNode,
    policy: RestartPolicy,
    secs: u64,
    limit: Option<(u32, Duration)>,
)
    requires
        node.node.kind is Runtime,
        call_ensures(PreparedNode::restart_policy, (&node,), policy),
        call_ensures(PreparedNode::restart_sec, (&node,), secs),
        call_ensures(PreparedNode::start_limit, (&node,), limit),
    ensures
        policy is Never,
        node.policy() is Never,
        secs == 0,
        node.delay_secs() == 0,
        limit is None,
        node.limit() is None,
{
}

/// The rate limit of a custom node is given by its two settings, whatever its policy and delay are:
/// where both are there and positive, it is exactly those two.
pub proof fn law_limit_is_the_two_settings(
    node: PreparedNode,
    custom: CustomNode,
    burst: u32,
    secs: u64,
    limit: Option<(u32, Duration)>,
)
    requires
        node.node.kind == CoreNodeKind::Custom(custom),
        custom.start_limit_burst == Some(burst),
        custom.start_limit_interval_sec == Some(secs),
        burst > 0,
        secs > 0,
        call_ensures(PreparedNode::start_limit, (&node,), limit),
    ensures
        node.limit() == Some((burst, secs)),
        limit matches Some((b, interval)) && b == burst && interval@ == secs * 1_000_000_000,
{
}

/// A custom node has no rate limit exactly if one of the two settings is missing or zero.
pub proof fn law_no_limit_without_both_settings(
    node: PreparedNode,
    custom: CustomNode,
    limit: Option<(u32, Duration)>,
)
    requires
        node.node.kind == CoreNodeKind::Custom(custom),
        call_ensures(PreparedNode::start_limit, (&node,), limit),
    ensures
        limit is None <==> node.limit() is None,
        limit is None <==> {
            ||| custom.start_limit_burst is None
            ||| custom.start_limit_interval_sec is None
            ||| custom.start_limit_burst == Some(0u32)
            ||| custom.start_limit_interval_sec == Some(0u64)
        },
{
}

/// A node's id, and whether it is dynamic, are those of its descriptor.
pub proof fn law_identity_of_a_node(node: PreparedNode, id: &String, dynamic: bool)
    requires
        call_ensures(PreparedNode::node_id, (&node,), id),
        call_ensures(PreparedNode::dynamic, (&node,), dynamic),
    ensures
        id@ == node.node.id@,
        dynamic == node.node.dynamic,
{
}

} // verus!
