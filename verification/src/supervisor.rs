//! The restart loop of a node: a state machine that takes what happens to the node, one event at a
//! time, and says what is to be done about it.
//!
//! The receiver of process operations, which each incarnation of the process hands to the next, is
//! a type parameter.

use crate::logging::{daemon_line, LogLevel, LogLine, LogLineView, LogTarget};
use crate::node::{NodeExitStatus, NodeKind, PreparedNode, RestartPolicy, RunningNode};
use crate::restart_limit::{recorded, within_limit, within_restart_limit};
use crate::text::{decimal, decimal_text};
use crate::time::{Instant, NANOS_PER_SEC};
use std::collections::VecDeque;
use vstd::prelude::*;

verus! {

/// A control command for a node.
#[derive(Clone, Copy, Debug, PartialEq, Eq, Structural)]
pub enum NodeCommand {
    Stop,
    Start,
    Kill,
}

/// What follows once a parked node is started.
#[derive(Clone, Copy, Debug, PartialEq, Eq, Structural)]
pub enum Resume {
    /// The node is respawned at once.
    Respawn,
    /// The node is respawned unless restarts have been disabled. `success` tells how the last
    /// process ended.
    Check { success: bool },
}

/// Where the restart loop of a node stands.
#[derive(Clone, Copy, Debug, PartialEq, Eq, Structural)]
pub enum Phase {
    /// The process runs; its end and commands are awaited.
    Running,
    /// The node was asked to stop; the end of its process is awaited.
    Stopping,
    /// The process was killed; its end is awaited.
    Killing,
    /// The delay before a restart runs; its end and commands are awaited.
    Delaying { success: bool },
    /// The node was stopped by hand; commands are awaited.
    Parked { resume: Resume },
    /// Whether restarts have been disabled is to be looked up.
    Checking { success: bool },
    /// The node is being respawned; the outcome is awaited.
    Respawning,
    /// The loop is over.
    Ended,
}

/// What a process leaves behind when it ends.
#[derive(Debug)]
pub struct NodeProcessFinished<R> {
    pub exit_status: NodeExitStatus,
    pub op_rx: R,
}

/// Something that happens to a node.
#[derive(Debug)]
pub enum LoopEvent<R> {
    /// The process ended. `restart_disabled` and `now` are what the flag and the clock say then.
    Finished { finished: NodeProcessFinished<R>, restart_disabled: bool, now: Instant },
    /// The end of the process can no longer be observed.
    FinishLost,
    /// A command arrived.
    Command(NodeCommand),
    /// No more commands can arrive.
    CommandsClosed,
    /// The delay before the restart is over.
    DelayElapsed,
    /// Whether restarts have been disabled.
    RestartDisabled(bool),
    /// The node was respawned.
    Respawned(NodeKind),
    /// The node could not be respawned, with the reason.
    RespawnFailed(String),
}

/// How a node process ended, and what becomes of the node.
#[derive(Debug, PartialEq, Eq)]
pub struct NodeResult {
    pub dataflow_id: u128,
    pub node_id: String,
    pub exit_status: NodeExitStatus,
    pub dynamic_node: bool,
    /// Whether the node is restarted on its own.
    pub restart: bool,
    /// Whether the node was stopped by hand and can be started again.
    pub manually_stopped: bool,
}

/// Something to be done, in the order in which it is returned.
#[derive(Debug)]
pub enum Effect<R> {
    /// Write to the node's log.
    Log(LogLine),
    /// Trace that a process of the node failed.
    TraceFailure { dataflow_id: u128, node_id: String, exit_status: NodeExitStatus },
    /// Tell the daemon how the process ended.
    Report(NodeResult),
    /// Spawn the node again, with the receiver of process operations.
    Respawn(R),
    /// Publish the id of the node's process.
    StorePid(u32),
}

/// The content of an effect.
pub enum EffectView<R> {
    Log(LogLineView),
    TraceFailure { dataflow_id: u128, node_id: Seq<char>, exit_status: NodeExitStatus },
    Report {
        dataflow_id: u128,
        node_id: Seq<char>,
        exit_status: NodeExitStatus,
        dynamic_node: bool,
        restart: bool,
        manually_stopped: bool,
    },
    Respawn(R),
    StorePid(u32),
}

impl<R> View for Effect<R> {
    type V = EffectView<R>;

    open spec fn view(&self) -> EffectView<R> {
        match *self {
            Effect::Log(line) => EffectView::Log(line@),
            Effect::TraceFailure { dataflow_id, node_id, exit_status } => EffectView::TraceFailure {
                dataflow_id,
                node_id: node_id@,
                exit_status,
            },
            Effect::Report(result) => EffectView::Report {
                dataflow_id: result.dataflow_id,
                node_id: result.node_id@,
                exit_status: result.exit_status,
                dynamic_node: result.dynamic_node,
                restart: result.restart,
                manually_stopped: result.manually_stopped,
            },
            Effect::Respawn(op_rx) => EffectView::Respawn(op_rx),
            Effect::StorePid(pid) => EffectView::StorePid(pid),
        }
    }
}

/// The contents of a list of effects.
pub open spec fn effects_view<R>(effects: Seq<Effect<R>>) -> Seq<EffectView<R>> {
    effects.map_values(|e: Effect<R>| e@)
}

/// The state of the restart loop.
pub struct LoopState<R> {
    pub phase: Phase,
    /// The restarts that count towards the rate limit.
    pub restart_times: Seq<Instant>,
    /// The receiver of process operations, while no process holds it.
    pub op_rx: Option<R>,
}

/// A line of the given level in the node's log.
pub open spec fn log<R>(level: LogLevel, message: Seq<char>) -> EffectView<R> {
    EffectView::Log(daemon_line(level, message))
}

/// What the daemon is told about the end of a process.
pub open spec fn report<R>(
    node: PreparedNode,
    exit_status: NodeExitStatus,
    restart: bool,
    manually_stopped: bool,
) -> EffectView<R> {
    EffectView::Report {
        dataflow_id: node.dataflow_id,
        node_id: node.node.id@,
        exit_status,
        dynamic_node: node.node.dynamic,
        restart,
        manually_stopped,
    }
}

/// Whether a policy asks for a restart after an exit.
pub open spec fn wants_restart(policy: RestartPolicy, success: bool) -> bool {
    match policy {
        RestartPolicy::Always => true,
        RestartPolicy::OnFailure => !success,
        RestartPolicy::Never => false,
    }
}

/// Whether the rate limit of a node permits a restart at `now`.
pub open spec fn limit_permits(node: PreparedNode, times: Seq<Instant>, now: Instant) -> bool {
    match node.limit() {
        Some((burst, secs)) => within_limit(times, now, burst, (secs * NANOS_PER_SEC) as nat),
        None => true,
    }
}

/// Whether a restart is up to the rate limit: the policy asks for it and restarts are not disabled.
pub open spec fn eligible(node: PreparedNode, success: bool, restart_disabled: bool) -> bool {
    wants_restart(node.policy(), success) && !restart_disabled
}

/// Whether a node is restarted on its own after an exit.
pub open spec fn restarts(
    node: PreparedNode,
    times: Seq<Instant>,
    success: bool,
    restart_disabled: bool,
    now: Instant,
) -> bool {
    eligible(node, success, restart_disabled) && limit_permits(node, times, now)
}

/// The restarts on record after an exit.
pub open spec fn times_after_exit(
    node: PreparedNode,
    times: Seq<Instant>,
    success: bool,
    restart_disabled: bool,
    now: Instant,
) -> Seq<Instant> {
    match node.limit() {
        Some((burst, secs)) => if eligible(node, success, restart_disabled) {
            recorded(times, now, burst, (secs * NANOS_PER_SEC) as nat)
        } else {
            times
        },
        None => times,
    }
}

/// What the log says when the rate limit is exceeded.
pub open spec fn limit_message(burst: u32, secs: u64) -> Seq<char> {
    "node exceeded restart limit ("@ + decimal(burst as nat) + " restarts within "@ + decimal(
        secs as nat,
    ) + "s), giving up and leaving it stopped"@
}

/// What the log says before the delay.
pub open spec fn delay_message(secs: u64) -> Seq<char> {
    "waiting "@ + decimal(secs as nat) + "s before restarting node"@
}

/// What is logged about a restart that the policy asks for and that does not take place.
pub open spec fn refusal<R>(
    node: PreparedNode,
    times: Seq<Instant>,
    success: bool,
    restart_disabled: bool,
    now: Instant,
) -> Seq<EffectView<R>> {
    if !wants_restart(node.policy(), success) {
        Seq::empty()
    } else if restart_disabled {
        seq![
            log(LogLevel::Info, "not restarting node because all inputs are already closed"@),
        ]
    } else if !limit_permits(node, times, now) {
        let (burst, secs) = node.limit()->0;
        seq![log(LogLevel::Error, limit_message(burst, secs))]
    } else {
        Seq::empty()
    }
}

/// What is traced about the end of a process that was not stopped by hand: nothing, unless it failed.
pub open spec fn failure_trace<R>(
    node: PreparedNode,
    exit_status: NodeExitStatus,
) -> Seq<EffectView<R>> {
    if exit_status is Success {
        Seq::empty()
    } else {
        seq![
            EffectView::TraceFailure {
                dataflow_id: node.dataflow_id,
                node_id: node.node.id@,
                exit_status,
            },
        ]
    }
}

/// What follows the end of a process that was not stopped by hand.
pub open spec fn after_exit<R>(
    node: PreparedNode,
    s: LoopState<R>,
    finished: NodeProcessFinished<R>,
    restart_disabled: bool,
    now: Instant,
) -> (LoopState<R>, Seq<EffectView<R>>) {
    let success = finished.exit_status is Success;
    let restart = restarts(node, s.restart_times, success, restart_disabled, now);
    let told = refusal(node, s.restart_times, success, restart_disabled, now) + failure_trace(
        node,
        finished.exit_status,
    ) + seq![report(node, finished.exit_status, restart, false)];
    let phase = if !restart {
        Phase::Ended
    } else if node.delay_secs() > 0 {
        Phase::Delaying { success }
    } else {
        Phase::Checking { success }
    };
    let next = LoopState {
        phase,
        restart_times: times_after_exit(node, s.restart_times, success, restart_disabled, now),
        op_rx: Some(finished.op_rx),
    };
    if phase is Delaying {
        (next, told.push(log(LogLevel::Info, delay_message(node.delay_secs()))))
    } else {
        (next, told)
    }
}

/// Whether an event can occur in a phase.
pub open spec fn accepts<R>(phase: Phase, event: LoopEvent<R>) -> bool {
    match phase {
        Phase::Running => event is Finished || event is FinishLost || event is Command
            || event is CommandsClosed,
        Phase::Stopping | Phase::Killing => event is Finished || event is FinishLost,
        Phase::Delaying { .. } => event is DelayElapsed || event is Command
            || event is CommandsClosed,
        Phase::Parked { .. } => event is Command || event is CommandsClosed,
        Phase::Checking { .. } => event is RestartDisabled,
        Phase::Respawning => event is Respawned || event is RespawnFailed,
        Phase::Ended => false,
    }
}

/// The same state in another phase.
pub open spec fn at<R>(s: LoopState<R>, phase: Phase) -> LoopState<R> {
    LoopState { phase, ..s }
}

/// The receiver is handed to a new process.
pub open spec fn respawning<R>(s: LoopState<R>, told: EffectView<R>) -> (
    LoopState<R>,
    Seq<EffectView<R>>,
) {
    (
        LoopState { phase: Phase::Respawning, restart_times: s.restart_times, op_rx: None },
        seq![told, EffectView::Respawn(s.op_rx->0)],
    )
}

/// The transition of the restart loop of a node.
pub open spec fn transition<R>(node: PreparedNode, s: LoopState<R>, event: LoopEvent<R>) -> (
    LoopState<R>,
    Seq<EffectView<R>>,
) {
    match (s.phase, event) {
        // The process ended on its own, or was killed.
        (
            Phase::Running | Phase::Killing,
            LoopEvent::Finished { finished, restart_disabled, now },
        ) => after_exit(node, s, finished, restart_disabled, now),
        (Phase::Running, LoopEvent::FinishLost) => (
            at(s, Phase::Ended),
            seq![log(LogLevel::Error, "failed to receive finished signal"@)],
        ),
        (Phase::Running, LoopEvent::Command(NodeCommand::Stop)) => (
            at(s, Phase::Stopping),
            Seq::empty(),
        ),
        (Phase::Running, LoopEvent::Command(NodeCommand::Kill)) => (
            at(s, Phase::Killing),
            Seq::empty(),
        ),
        (Phase::Killing, LoopEvent::FinishLost) => (
            at(s, Phase::Ended),
            seq![log(LogLevel::Error, "failed to receive finished signal after kill command"@)],
        ),
        // The process ended after the node was asked to stop.
        (Phase::Stopping, LoopEvent::Finished { finished, .. }) => (
            LoopState {
                phase: Phase::Parked { resume: Resume::Respawn },
                restart_times: s.restart_times,
                op_rx: Some(finished.op_rx),
            },
            seq![
                report(node, finished.exit_status, false, true),
                log(LogLevel::Info, "node manually stopped, entering parked state"@),
            ],
        ),
        (Phase::Stopping, LoopEvent::FinishLost) => (
            at(s, Phase::Ended),
            seq![log(LogLevel::Error, "failed to receive finished signal after stop command"@)],
        ),
        // The delay before a restart.
        (Phase::Delaying { success }, LoopEvent::DelayElapsed) => (
            at(s, Phase::Checking { success }),
            Seq::empty(),
        ),
        (Phase::Delaying { success }, LoopEvent::Command(NodeCommand::Stop)) => (
            at(s, Phase::Parked { resume: Resume::Check { success } }),
            seq![
                log(
                    LogLevel::Info,
                    "stop command received during restart delay, entering parked state"@,
                ),
                report(node, NodeExitStatus::Success, false, true),
            ],
        ),
        (Phase::Delaying { success }, LoopEvent::Command(NodeCommand::Start)) => (
            at(s, Phase::Checking { success }),
            seq![
                log(
                    LogLevel::Info,
                    "start command received during restart delay, spawning immediately"@,
                ),
            ],
        ),
        // A node that was stopped by hand.
        (Phase::Parked { resume }, LoopEvent::Command(NodeCommand::Start)) => {
            let told = log(LogLevel::Info, "received start command, respawning node"@);
            match resume {
                Resume::Respawn => respawning(s, told),
                Resume::Check { success } => (at(s, Phase::Checking { success }), seq![told]),
            }
        },
        // The last look before a restart.
        (Phase::Checking { .. }, LoopEvent::RestartDisabled(true)) => (
            at(s, Phase::Ended),
            seq![log(LogLevel::Info, "restart disabled during delay, not restarting"@)],
        ),
        (Phase::Checking { success }, LoopEvent::RestartDisabled(false)) => respawning(
            s,
            if success {
                log(LogLevel::Info, "restarting node after successful exit"@)
            } else {
                log(LogLevel::Warn, "restarting node after failure"@)
            },
        ),
        // The outcome of spawning the node again.
        (Phase::Respawning, LoopEvent::Respawned(NodeKind::Spawned { pid })) => (
            at(s, Phase::Running),
            seq![EffectView::StorePid(pid)],
        ),
        (Phase::Respawning, LoopEvent::Respawned(NodeKind::Dynamic)) => (
            at(s, Phase::Ended),
            seq![log(LogLevel::Error, "cannot restart dynamic node"@)],
        ),
        (Phase::Respawning, LoopEvent::RespawnFailed(reason)) => (
            at(s, Phase::Ended),
            seq![log(LogLevel::Error, "failed to restart node: "@ + reason@)],
        ),
        (_, LoopEvent::CommandsClosed) => (at(s, Phase::Ended), Seq::empty()),
        // Any other command asks for what is already the case.
        _ => (s, Seq::empty()),
    }
}

/// What is awaited in a phase.
#[derive(Clone, Copy, Debug, PartialEq, Eq, Structural)]
pub enum Awaited {
    /// The end of the process, or a command.
    ExitOrCommand,
    /// The end of the process.
    Exit,
    /// The end of the delay, or a command. The delay starts when the phase is entered.
    DelayOrCommand,
    /// A command.
    Command,
    /// Whether restarts have been disabled.
    RestartDisabled,
    /// The outcome of the spawn.
    Respawn,
    /// Nothing: the loop is over.
    Nothing,
}

/// The restart loop of a node.
#[derive(Debug)]
pub struct Supervisor<R> {
    node: PreparedNode,
    phase: Phase,
    restart_times: VecDeque<Instant>,
    last_op_rx: Option<R>,
}

impl<R> View for Supervisor<R> {
    type V = LoopState<R>;

    closed spec fn view(&self) -> LoopState<R> {
        LoopState {
            phase: self.phase,
            restart_times: self.restart_times@,
            op_rx: self.last_op_rx,
        }
    }
}

/// Whether the receiver of process operations is at hand in every phase from which the node can
/// be respawned.
pub open spec fn receiver_kept<R>(s: LoopState<R>) -> bool {
    s.phase is Delaying || s.phase is Parked || s.phase is Checking ==> s.op_rx is Some
}

fn info(message: &str) -> (line: LogLine)
    ensures
        line@ == daemon_line(LogLevel::Info, message@),
{
    LogLine { level: LogLevel::Info, target: LogTarget::Daemon, message: message.to_owned() }
}

fn error(message: String) -> (line: LogLine)
    ensures
        line@ == daemon_line(LogLevel::Error, message@),
{
    LogLine { level: LogLevel::Error, target: LogTarget::Daemon, message }
}

impl<R> Supervisor<R> {
    /// The node that is supervised.
    pub closed spec fn node(self) -> PreparedNode {
        self.node
    }

    /// The loop of a node whose process has just been spawned.
    fn new(node: PreparedNode) -> (supervisor: Supervisor<R>)
        ensures
            supervisor.node() == node,
            supervisor@ == (LoopState::<R> {
                phase: Phase::Running,
                restart_times: Seq::empty(),
                op_rx: None,
            }),
    {
        Supervisor { node, phase: Phase::Running, restart_times: VecDeque::new(), last_op_rx: None }
    }

    /// Where the loop stands.
    pub fn phase(&self) -> (phase: Phase)
        ensures
            phase == self@.phase,
    {
        self.phase
    }

    /// The delay before a restart in seconds.
    pub fn delay(&self) -> (secs: u64)
        ensures
            secs == self.node().delay_secs(),
    {
        self.node.restart_sec()
    }

    /// What is awaited next.
    pub fn awaited(&self) -> (awaited: Awaited)
        ensures
            awaited == (match self@.phase {
                Phase::Running => Awaited::ExitOrCommand,
                Phase::Stopping | Phase::Killing => Awaited::Exit,
                Phase::Delaying { .. } => Awaited::DelayOrCommand,
                Phase::Parked { .. } => Awaited::Command,
                Phase::Checking { .. } => Awaited::RestartDisabled,
                Phase::Respawning => Awaited::Respawn,
                Phase::Ended => Awaited::Nothing,
            }),
    {
        match self.phase {
            Phase::Running => Awaited::ExitOrCommand,
            Phase::Stopping | Phase::Killing => Awaited::Exit,
            Phase::Delaying { .. } => Awaited::DelayOrCommand,
            Phase::Parked { .. } => Awaited::Command,
            Phase::Checking { .. } => Awaited::RestartDisabled,
            Phase::Respawning => Awaited::Respawn,
            Phase::Ended => Awaited::Nothing,
        }
    }

    /// Whether an event can occur where the loop stands.
    pub fn expects(&self, event: &LoopEvent<R>) -> (expected: bool)
        ensures
            expected == accepts(self@.phase, *event),
    {
        match (self.phase, event) {
            (Phase::Running, LoopEvent::Finished { .. }) => true,
            (Phase::Running, LoopEvent::FinishLost) => true,
            (Phase::Running, LoopEvent::Command(_)) => true,
            (Phase::Running, LoopEvent::CommandsClosed) => true,
            (Phase::Stopping | Phase::Killing, LoopEvent::Finished { .. }) => true,
            (Phase::Stopping | Phase::Killing, LoopEvent::FinishLost) => true,
            (Phase::Delaying { .. }, LoopEvent::DelayElapsed) => true,
            (Phase::Delaying { .. } | Phase::Parked { .. }, LoopEvent::Command(_)) => true,
            (Phase::Delaying { .. } | Phase::Parked { .. }, LoopEvent::CommandsClosed) => true,
            (Phase::Checking { .. }, LoopEvent::RestartDisabled(_)) => true,
            (Phase::Respawning, LoopEvent::Respawned(_)) => true,
            (Phase::Respawning, LoopEvent::RespawnFailed(_)) => true,
            _ => false,
        }
    }

    fn result(&self, exit_status: NodeExitStatus, restart: bool, manually_stopped: bool) -> (effect:
        Effect<R>)
        ensures
            effect@ == report::<R>(self.node, exit_status, restart, manually_stopped),
    {
        Effect::Report(
            NodeResult {
                dataflow_id: self.node.dataflow_id,
                node_id: self.node.node_id().clone(),
                exit_status,
                dynamic_node: self.node.dynamic(),
                restart,
                manually_stopped,
            },
        )
    }

    /// Handles the end of a process that was not stopped by hand: decides whether the node is
    /// restarted, and tells the daemon.
    pub fn handle_normal_exit(
        &mut self,
        finished: NodeProcessFinished<R>,
        restart_disabled: bool,
        now: Instant,
    ) -> (effects: Vec<Effect<R>>)
        requires
            old(self)@.phase is Running || old(self)@.phase is Killing,
        ensures
            final(self).node() == old(self).node(),
            receiver_kept(final(self)@),
            (final(self)@, effects_view(effects@)) == after_exit(
                old(self).node(),
                old(self)@,
                finished,
                restart_disabled,
                now,
            ),
    {
        let success = finished.exit_status.is_success();
        self.last_op_rx = Some(finished.op_rx);
        let wanted = match self.node.restart_policy() {
            RestartPolicy::Always => true,
            RestartPolicy::OnFailure => !success,
            RestartPolicy::Never => false,
        };
        let mut effects: Vec<Effect<R>> = Vec::new();
        if wanted && restart_disabled {
            effects.push(
                Effect::Log(info("not restarting node because all inputs are already closed")),
            );
        }
        let mut restart = wanted && !restart_disabled;
        if restart {
            if let Some((burst, interval)) = self.node.start_limit() {
                if !within_restart_limit(&mut self.restart_times, now, burst, interval) {
                    let message = "node exceeded restart limit (".to_owned().concat(
                        decimal_text(burst as u64).as_str(),
                    ).concat(" restarts within ").concat(
                        decimal_text(interval.as_secs()).as_str(),
                    ).concat("s), giving up and leaving it stopped");
                    effects.push(Effect::Log(error(message)));
                    restart = false;
                }
            }
        }
        let ghost told = effects_view(effects@);
        assert(told =~= refusal::<R>(
            old(self).node,
            old(self)@.restart_times,
            success,
            restart_disabled,
            now,
        ));
        if !success {
            effects.push(
                Effect::TraceFailure {
                    dataflow_id: self.node.dataflow_id,
                    node_id: self.node.node_id().clone(),
                    exit_status: finished.exit_status.clone(),
                },
            );
        }
        let result = self.result(finished.exit_status, restart, false);
        effects.push(result);
        if !restart {
            self.phase = Phase::Ended;
        } else {
            let restart_sec = self.node.restart_sec();
            if restart_sec > 0 {
                let message = "waiting ".to_owned().concat(
                    decimal_text(restart_sec).as_str(),
                ).concat("s before restarting node");
                effects.push(Effect::Log(info(message.as_str())));
                self.phase = Phase::Delaying { success };
            } else {
                self.phase = Phase::Checking { success };
            }
        }
        assert(effects_view(effects@) =~= after_exit(
            old(self).node,
            old(self)@,
            finished,
            restart_disabled,
            now,
        ).1);
        effects
    }

    /// Takes in what came of spawning the node again.
    fn do_respawn(&mut self, outcome: Result<NodeKind, String>) -> (effects: Vec<Effect<R>>)
        requires
            old(self).phase is Respawning,
        ensures
            final(self).node == old(self).node,
            (final(self)@, effects_view(effects@)) == transition(
                old(self).node,
                old(self)@,
                match outcome {
                    Ok(kind) => LoopEvent::Respawned(kind),
                    Err(reason) => LoopEvent::RespawnFailed(reason),
                },
            ),
    {
        let effect: Effect<R> = match outcome {
            Ok(NodeKind::Spawned { pid }) => {
                self.phase = Phase::Running;
                Effect::StorePid(pid)
            },
            Ok(NodeKind::Dynamic) => {
                self.phase = Phase::Ended;
                Effect::Log(error("cannot restart dynamic node".to_owned()))
            },
            Err(reason) => {
                self.phase = Phase::Ended;
                Effect::Log(error("failed to restart node: ".to_owned().concat(reason.as_str())))
            },
        };
        one(effect)
    }

    /// Hands the receiver of process operations to a new process.
    fn respawn(&mut self, line: LogLine) -> (effects: Vec<Effect<R>>)
        requires
            old(self).last_op_rx is Some,
        ensures
            final(self).node == old(self).node,
            (final(self)@, effects_view(effects@)) == respawning(
                old(self)@,
                EffectView::Log(line@),
            ),
    {
        self.phase = Phase::Respawning;
        let mut effects = one(Effect::Log(line));
        let op_rx = self.last_op_rx.take().unwrap();
        effects.push(Effect::Respawn(op_rx));
        assert(effects_view(effects@) =~= seq![
            EffectView::Log(line@),
            EffectView::Respawn(old(self)@.op_rx->0),
        ]);
        effects
    }

    /// Takes in a command while the delay before a restart runs.
    fn command_in_delay(&mut self, command: NodeCommand, success: bool) -> (effects: Vec<
        Effect<R>,
    >)
        requires
            old(self).phase == (Phase::Delaying { success }),
        ensures
            final(self).node == old(self).node,
            (final(self)@, effects_view(effects@)) == transition(
                old(self).node,
                old(self)@,
                LoopEvent::Command(command),
            ),
    {
        match command {
            NodeCommand::Stop => {
                self.phase = Phase::Parked { resume: Resume::Check { success } };
                let mut effects = one(
                    Effect::Log(
                        info("stop command received during restart delay, entering parked state"),
                    ),
                );
                let result = self.result(NodeExitStatus::Success, false, true);
                effects.push(result);
                assert(effects_view(effects@) =~= transition(
                    old(self).node,
                    old(self)@,
                    LoopEvent::Command(command),
                ).1);
                effects
            },
            NodeCommand::Start => {
                self.phase = Phase::Checking { success };
                one(
                    Effect::Log(
                        info("start command received during restart delay, spawning immediately"),
                    ),
                )
            },
            NodeCommand::Kill => none(),
        }
    }

    /// Takes in one event, and returns what is to be done.
    pub fn restart_loop(&mut self, event: LoopEvent<R>) -> (effects: Vec<Effect<R>>)
        requires
            receiver_kept(old(self)@),
            accepts(old(self)@.phase, event),
        ensures
            final(self).node() == old(self).node(),
            receiver_kept(final(self)@),
            (final(self)@, effects_view(effects@)) == transition(
                old(self).node(),
                old(self)@,
                event,
            ),
    {
        match (self.phase, event) {
            (
                Phase::Running | Phase::Killing,
                LoopEvent::Finished { finished, restart_disabled, now },
            ) => self.handle_normal_exit(finished, restart_disabled, now),
            (Phase::Running, LoopEvent::FinishLost) => {
                self.phase = Phase::Ended;
                one(Effect::Log(error("failed to receive finished signal".to_owned())))
            },
            (Phase::Running, LoopEvent::Command(command)) => {
                match command {
                    NodeCommand::Stop => {
                        self.phase = Phase::Stopping;
                    },
                    NodeCommand::Kill => {
                        self.phase = Phase::Killing;
                    },
                    NodeCommand::Start => {},
                }
                none()
            },
            (Phase::Killing, LoopEvent::FinishLost) => {
                self.phase = Phase::Ended;
                one(
                    Effect::Log(
                        error("failed to receive finished signal after kill command".to_owned()),
                    ),
                )
            },
            (Phase::Stopping, LoopEvent::Finished { finished, .. }) => {
                self.phase = Phase::Parked { resume: Resume::Respawn };
                self.last_op_rx = Some(finished.op_rx);
                let mut effects = one(self.result(finished.exit_status, false, true));
                effects.push(Effect::Log(info("node manually stopped, entering parked state")));
                assert(effects_view(effects@) =~= transition(old(self).node, old(self)@, event).1);
                effects
            },
            (Phase::Stopping, LoopEvent::FinishLost) => {
                self.phase = Phase::Ended;
                one(
                    Effect::Log(
                        error("failed to receive finished signal after stop command".to_owned()),
                    ),
                )
            },
            (Phase::Delaying { success }, LoopEvent::DelayElapsed) => {
                self.phase = Phase::Checking { success };
                none()
            },
            (Phase::Delaying { success }, LoopEvent::Command(command)) => self.command_in_delay(
                command,
                success,
            ),
            (Phase::Parked { resume }, LoopEvent::Command(NodeCommand::Start)) => {
                let line = info("received start command, respawning node");
                match resume {
                    Resume::Respawn => self.respawn(line),
                    Resume::Check { success } => {
                        self.phase = Phase::Checking { success };
                        one(Effect::Log(line))
                    },
                }
            },
            (Phase::Checking { .. }, LoopEvent::RestartDisabled(true)) => {
                self.phase = Phase::Ended;
                one(Effect::Log(info("restart disabled during delay, not restarting")))
            },
            (Phase::Checking { success }, LoopEvent::RestartDisabled(false)) => {
                let line = if success {
                    info("restarting node after successful exit")
                } else {
                    LogLine {
                        level: LogLevel::Warn,
                        target: LogTarget::Daemon,
                        message: "restarting node after failure".to_owned(),
                    }
                };
                self.respawn(line)
            },
            (Phase::Respawning, LoopEvent::Respawned(kind)) => self.do_respawn(Ok(kind)),
            (Phase::Respawning, LoopEvent::RespawnFailed(reason)) => self.do_respawn(Err(reason)),
            (_, LoopEvent::CommandsClosed) => {
                self.phase = Phase::Ended;
                none()
            },
            _ => none(),
        }
    }
}

fn none<R>() -> (effects: Vec<Effect<R>>)
    ensures
        effects_view(effects@) == Seq::<EffectView<R>>::empty(),
{
    let effects: Vec<Effect<R>> = Vec::new();
    assert(effects_view(effects@) =~= Seq::<EffectView<R>>::empty());
    effects
}

fn one<R>(effect: Effect<R>) -> (effects: Vec<Effect<R>>)
    ensures
        effects@ == seq![effect],
        effects_view(effects@) == seq![effect@],
{
    let mut effects: Vec<Effect<R>> = Vec::new();
    effects.push(effect);
    assert(effects@ =~= seq![effect]);
    assert(effects_view(effects@) =~= seq![effect@]);
    effects
}

impl PreparedNode {
    /// The record of a node that was just spawned, and its restart loop. `kind` is what came of
    /// the spawn.
    pub fn spawn<R>(self, kind: NodeKind) -> (spawned: (RunningNode, Supervisor<R>))
        ensures
            spawned.0.process == (kind is Spawned),
            spawned.0.node_config == self.node_config,
            spawned.0.restart_policy == self.policy(),
            !spawned.0.disable_restart,
            !spawned.0.manually_stopped,
            !spawned.0.grace_timer,
            spawned.0.pid == (match kind {
                NodeKind::Dynamic => None,
                NodeKind::Spawned { pid } => Some(pid),
            }),
            spawned.1.node() == self,
            spawned.1@ == (LoopState::<R> {
                phase: Phase::Running,
                restart_times: Seq::empty(),
                op_rx: None,
            }),
    {
        let running = RunningNode {
            process: match kind {
                NodeKind::Dynamic => false,
                NodeKind::Spawned { .. } => true,
            },
            node_config: self.node_config.clone(),
            restart_policy: self.restart_policy(),
            disable_restart: false,
            manually_stopped: false,
            grace_timer: false,
            pid: match kind {
                NodeKind::Dynamic => None,
                NodeKind::Spawned { pid } => Some(pid),
            },
        };
        (running, Supervisor::new(self))
    }
}

} // verus!
