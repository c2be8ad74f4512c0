//! The node commands: what each of them asks of the coordinator, and what it makes of the replies.
//!
//! A command goes through phases. In each it takes in one event, and says what to print and how to
//! go on.

use crate::control::{ControlRequest, ControlRequestReply, RequestFailure};
use crate::text::{uuid_form, uuid_text};
use crate::time::{Duration, NANOS_PER_SEC};
use crate::wait::{
    failed_poll, find_node, is_killed, killed, wait_for_node_state, WaitError, WaitEvent, WaitStep,
    POLL_INTERVAL_MILLIS,
};
use vstd::pervasive::unreached;
use vstd::prelude::*;

verus! {

/// What `duration_str::parse` makes of a text: seconds and nanoseconds, or a message.
pub uninterp spec fn duration_of_text(text: Seq<char>) -> Result<(u64, u32), Seq<char>>;

/// `duration_str::parse`: whether the text is a duration, which one, and the message if it is none
/// depend on the text alone. An empty text is none. The nanoseconds are less than a second.
#[verifier::external_body]
fn duration_str_parse(text: &str) -> (parsed: Result<(u64, u32), String>)
    ensures
        match parsed {
            Ok((secs, nanos)) => (duration_of_text(text@) matches Ok(d) && d == (secs, nanos))
                && nanos < NANOS_PER_SEC,
            Err(message) => duration_of_text(text@) matches Err(m) && m == message@,
        },
        text@.len() == 0 ==> parsed is Err && parsed->Err_0@ == "Empty input"@,
{
    duration_str::parse(text).map(|d| (d.as_secs(), d.subsec_nanos()))
}

/// Parses a duration on the command line, such as `30s` or `1m 30s`.
pub fn parse_duration(text: &str) -> (parsed: Result<Duration, String>)
    ensures
        match parsed {
            Ok(duration) => duration_of_text(text@) matches Ok((secs, nanos)) && duration@ == secs
                * NANOS_PER_SEC + nanos,
            Err(message) => duration_of_text(text@) matches Err(m) && m == message@,
        },
        text@.len() == 0 ==> (parsed matches Err(message) && message@ == "Empty input"@),
{
    match duration_str_parse(text) {
        Ok((secs, nanos)) => Ok(Duration::new(secs, nanos)),
        Err(message) => Err(message),
    }
}

/// A node as the coordinator names it.
#[derive(Debug, PartialEq, Eq)]
pub struct NodeRef {
    pub uuid: u128,
    pub node_id: String,
}

/// Where a command stands.
#[derive(Debug, PartialEq, Eq)]
pub enum CommandPhase {
    /// The dataflow is being looked up.
    Resolve,
    /// The reply to the command's request is awaited.
    Reply,
    /// The time that has passed since the wait began is to be looked up.
    Clock(NodeRef),
    /// The reply to a poll is awaited.
    Poll(NodeRef),
}

/// What a command takes in.
#[derive(Debug)]
pub enum CommandEvent {
    /// The UUID of the dataflow.
    Dataflow(u128),
    /// A reply of the coordinator.
    Reply(ControlRequestReply),
    /// The last request came to nothing.
    Failed(RequestFailure),
    /// The time that has passed since the wait began.
    Elapsed(Duration),
}

/// Why a command failed.
#[derive(Debug)]
pub enum CommandError {
    /// The coordinator could not be asked, or refused, with this message.
    Refused(String),
    /// The coordinator replied to something else.
    Unexpected(ControlRequestReply),
    /// The wait failed.
    Wait(WaitError),
}

/// How a command goes on.
#[derive(Debug)]
pub enum CommandNext {
    /// Send the request, then go to the phase.
    Send(ControlRequest, CommandPhase),
    /// Go to the phase. The wait begins when this is returned for the first time.
    Enter(CommandPhase),
    /// Sleep, send the request, then go to the phase.
    SleepThenSend(Duration, ControlRequest, CommandPhase),
    /// The command is done.
    Finish,
    /// The command failed.
    Fail(CommandError),
}

/// What follows an event.
#[derive(Debug)]
pub struct CommandStep {
    /// A line to print first.
    pub print: Option<String>,
    pub next: CommandNext,
}

impl CommandStep {
    /// The line that is printed.
    pub open spec fn printed(self) -> Option<Seq<char>> {
        match self.print {
            Some(line) => Some(line@),
            None => None,
        }
    }
}

/// Whether an event can occur in a phase.
pub open spec fn occurs_in(event: CommandEvent, phase: CommandPhase) -> bool {
    match phase {
        CommandPhase::Resolve => event is Dataflow,
        CommandPhase::Reply => event is Reply || event is Failed,
        CommandPhase::Clock(_) => event is Elapsed,
        CommandPhase::Poll(_) => event is Reply || event is Failed,
    }
}

impl CommandPhase {
    /// Whether an event can occur in this phase.
    pub fn expects(&self, event: &CommandEvent) -> (expected: bool)
        ensures
            expected == occurs_in(*event, *self),
    {
        match (self, event) {
            (CommandPhase::Resolve, CommandEvent::Dataflow(_)) => true,
            (CommandPhase::Reply, CommandEvent::Reply(_)) => true,
            (CommandPhase::Reply, CommandEvent::Failed(_)) => true,
            (CommandPhase::Clock(_), CommandEvent::Elapsed(_)) => true,
            (CommandPhase::Poll(_), CommandEvent::Reply(_)) => true,
            (CommandPhase::Poll(_), CommandEvent::Failed(_)) => true,
            _ => false,
        }
    }
}

/// "`node_id` in dataflow `uuid`", between two other pieces of text.
pub open spec fn about_node(
    before: Seq<char>,
    node_id: Seq<char>,
    uuid: u128,
    after: Seq<char>,
) -> Seq<char> {
    before + " node `"@ + node_id + "` in dataflow `"@ + uuid_form(uuid) + "`"@ + after
}

fn node_text(before: &str, node_id: &String, uuid: u128, after: &str) -> (text: String)
    ensures
        text@ == about_node(before@, node_id@, uuid, after@),
{
    before.to_owned().concat(" node `").concat(node_id.as_str()).concat("` in dataflow `").concat(
        uuid_text(uuid).as_str(),
    ).concat("`").concat(after)
}

/// Whether a step sends a request, and nothing is printed before.
pub open spec fn sends(step: CommandStep, request: ControlRequest) -> bool {
    step == (CommandStep { print: None, next: CommandNext::Send(request, CommandPhase::Reply) })
}

/// Whether a step prints a line, and the command is done.
pub open spec fn finishes_with(step: CommandStep, line: Seq<char>) -> bool {
    step.printed() == Some(line) && step.next is Finish
}

/// Whether a step fails with the given message.
pub open spec fn is_refused(step: CommandStep, text: Seq<char>) -> bool {
    step.print is None && (step.next matches CommandNext::Fail(CommandError::Refused(message))
        && message@ == text)
}

/// What is said of a request that came to nothing. `request` is its name.
pub open spec fn failed_request(request: Seq<char>, failure: RequestFailure) -> Seq<char> {
    match failure {
        RequestFailure::NotSent => "failed to send node "@ + request + " request to coordinator"@,
        RequestFailure::NotParsed => "failed to parse reply"@,
    }
}

/// Whether a step fails because of a reply to something else.
pub open spec fn is_unexpected(step: CommandStep, reply: ControlRequestReply) -> bool {
    step == (CommandStep {
        print: None,
        next: CommandNext::Fail(CommandError::Unexpected(reply)),
    })
}

fn send(request: ControlRequest) -> (step: CommandStep)
    ensures
        sends(step, request),
{
    CommandStep { print: None, next: CommandNext::Send(request, CommandPhase::Reply) }
}

fn finish(line: String) -> (step: CommandStep)
    ensures
        finishes_with(step, line@),
{
    CommandStep { print: Some(line), next: CommandNext::Finish }
}

fn refuse(what: &str, reason: String) -> (step: CommandStep)
    ensures
        is_refused(step, what@ + reason@),
{
    CommandStep {
        print: None,
        next: CommandNext::Fail(
            CommandError::Refused(what.to_owned().concat(reason.as_str())),
        ),
    }
}

fn fail(request: &str, failure: RequestFailure) -> (step: CommandStep)
    ensures
        is_refused(step, failed_request(request@, failure)),
{
    let message = match failure {
        RequestFailure::NotSent => "failed to send node ".to_owned().concat(request).concat(
            " request to coordinator",
        ),
        RequestFailure::NotParsed => "failed to parse reply".to_owned(),
    };
    CommandStep { print: None, next: CommandNext::Fail(CommandError::Refused(message)) }
}

fn unexpected(reply: ControlRequestReply) -> (step: CommandStep)
    ensures
        is_unexpected(step, reply),
{
    CommandStep { print: None, next: CommandNext::Fail(CommandError::Unexpected(reply)) }
}

/// Stops a running node in a dataflow. This disables the node's restart policy.
#[derive(Debug, PartialEq, Eq)]
pub struct Stop {
    /// The node to stop.
    pub node_id: String,
    /// UUID or name of the dataflow.
    pub dataflow: Option<String>,
    /// How long the process may take before it is killed.
    pub grace_duration: Option<Duration>,
}

impl Stop {
    /// Whether `step` is what follows the event.
    pub open spec fn does(self, phase: CommandPhase, event: CommandEvent, step: CommandStep) -> bool {
        match event {
            CommandEvent::Dataflow(dataflow_uuid) => sends(
                step,
                ControlRequest::NodeStop {
                    dataflow_uuid,
                    node_id: self.node_id,
                    grace_duration: self.grace_duration,
                },
            ),
            CommandEvent::Reply(ControlRequestReply::NodeStopped { uuid, node_id }) => finishes_with(
                step,
                about_node("Stopped"@, node_id@, uuid, ""@),
            ),
            CommandEvent::Reply(ControlRequestReply::Error(reason)) => is_refused(
                step,
                "Failed to stop node: "@ + reason@,
            ),
            CommandEvent::Reply(other) => is_unexpected(step, other),
            CommandEvent::Failed(failure) => is_refused(step, failed_request("stop"@, failure)),
            CommandEvent::Elapsed(_) => false,
        }
    }

    /// Takes in one event.
    pub fn execute(&self, phase: CommandPhase, event: CommandEvent) -> (step: CommandStep)
        requires
            occurs_in(event, phase),
            phase is Resolve || phase is Reply,
        ensures
            self.does(phase, event, step),
    {
        match event {
            CommandEvent::Dataflow(dataflow_uuid) => send(
                ControlRequest::NodeStop {
                    dataflow_uuid,
                    node_id: self.node_id.clone(),
                    grace_duration: self.grace_duration,
                },
            ),
            CommandEvent::Reply(ControlRequestReply::NodeStopped { uuid, node_id }) => finish(
                node_text("Stopped", &node_id, uuid, ""),
            ),
            CommandEvent::Reply(ControlRequestReply::Error(reason)) => refuse(
                "Failed to stop node: ",
                reason,
            ),
            CommandEvent::Reply(other) => unexpected(other),
            CommandEvent::Failed(failure) => fail("stop", failure),
            CommandEvent::Elapsed(_) => unreached(),
        }
    }
}

/// Starts a stopped or restarting node in a dataflow. This re-enables the node's restart policy.
#[derive(Debug, PartialEq, Eq)]
pub struct Start {
    /// The node to start.
    pub node_id: String,
    /// UUID or name of the dataflow.
    pub dataflow: Option<String>,
}

impl Start {
    /// Whether `step` is what follows the event.
    pub open spec fn does(self, phase: CommandPhase, event: CommandEvent, step: CommandStep) -> bool {
        match event {
            CommandEvent::Dataflow(dataflow_uuid) => sends(
                step,
                ControlRequest::NodeStart { dataflow_uuid, node_id: self.node_id },
            ),
            CommandEvent::Reply(ControlRequestReply::NodeStarted { uuid, node_id }) => finishes_with(
                step,
                about_node("Started"@, node_id@, uuid, ""@),
            ),
            CommandEvent::Reply(ControlRequestReply::Error(reason)) => is_refused(
                step,
                "Failed to start node: "@ + reason@,
            ),
            CommandEvent::Reply(other) => is_unexpected(step, other),
            CommandEvent::Failed(failure) => is_refused(step, failed_request("start"@, failure)),
            CommandEvent::Elapsed(_) => false,
        }
    }

    /// Takes in one event.
    pub fn execute(&self, phase: CommandPhase, event: CommandEvent) -> (step: CommandStep)
        requires
            occurs_in(event, phase),
            phase is Resolve || phase is Reply,
        ensures
            self.does(phase, event, step),
    {
        match event {
            CommandEvent::Dataflow(dataflow_uuid) => send(
                ControlRequest::NodeStart { dataflow_uuid, node_id: self.node_id.clone() },
            ),
            CommandEvent::Reply(ControlRequestReply::NodeStarted { uuid, node_id }) => finish(
                node_text("Started", &node_id, uuid, ""),
            ),
            CommandEvent::Reply(ControlRequestReply::Error(reason)) => refuse(
                "Failed to start node: ",
                reason,
            ),
            CommandEvent::Reply(other) => unexpected(other),
            CommandEvent::Failed(failure) => fail("start", failure),
            CommandEvent::Elapsed(_) => unreached(),
        }
    }
}

/// Kills a running node in a dataflow. Unlike [`Stop`], this does not disable the restart policy: a
/// node with one is restarted according to it.
#[derive(Debug, PartialEq, Eq)]
pub struct Kill {
    /// The node to kill.
    pub node_id: String,
    /// UUID or name of the dataflow.
    pub dataflow: Option<String>,
    /// How long the process may take before it is killed by force.
    pub grace_duration: Option<Duration>,
    /// Whether to wait until the process has exited.
    pub wait: bool,
    /// How long to wait at most.
    pub wait_timeout: Duration,
}

/// Whether a step fails because the wait did, for the given reason.
pub open spec fn wait_fails(step: CommandStep, is_reason: spec_fn(WaitError) -> bool) -> bool {
    step.print is None && (step.next matches CommandNext::Fail(CommandError::Wait(error))
        && is_reason(error))
}

/// Whether a step fails because a poll came to nothing.
pub open spec fn is_failed_poll(step: CommandStep, failure: RequestFailure) -> bool {
    wait_fails(
        step,
        |error: WaitError|
            error matches WaitError::Refused(message) && message@ == failed_poll(failure),
    )
}

impl Kill {
    /// What follows the reply to the request.
    pub open spec fn does_on_reply(self, reply: ControlRequestReply, step: CommandStep) -> bool {
        match reply {
            ControlRequestReply::NodeKilled { uuid, node_id } => if self.wait {
                &&& step.printed() == Some(
                    about_node("Killing"@, node_id@, uuid, ", waiting for process to exit..."@),
                )
                &&& step.next == CommandNext::Enter(CommandPhase::Clock(NodeRef { uuid, node_id }))
            } else {
                finishes_with(step, about_node("Killed"@, node_id@, uuid, ""@))
            },
            ControlRequestReply::Error(reason) => is_refused(
                step,
                "Failed to kill node: "@ + reason@,
            ),
            other => is_unexpected(step, other),
        }
    }

    /// What follows a look at the clock.
    pub open spec fn does_on_clock(
        self,
        node: NodeRef,
        elapsed: Duration,
        step: CommandStep,
    ) -> bool {
        if elapsed@ >= self.wait_timeout@ {
            wait_fails(
                step,
                |error: WaitError|
                    error matches WaitError::TimedOut { timeout, node_id, description } && timeout
                        == self.wait_timeout && node_id@ == node.node_id@ && description@
                        == "killed"@,
            )
        } else {
            &&& step.print is None
            &&& step.next matches CommandNext::SleepThenSend(time, request, phase)
            &&& time@ == POLL_INTERVAL_MILLIS * 1_000_000
            &&& request is GetNodeInfo
            &&& phase == CommandPhase::Poll(node)
        }
    }

    /// What follows the reply to a poll.
    pub open spec fn does_on_poll(
        self,
        node: NodeRef,
        reply: ControlRequestReply,
        step: CommandStep,
    ) -> bool {
        match reply {
            ControlRequestReply::NodeInfoList(infos) => match find_node(
                infos@,
                node.uuid,
                node.node_id@,
            ) {
                Some(info) => if killed(info) {
                    finishes_with(step, "Node `"@ + node.node_id@ + "` process has exited."@)
                } else {
                    step == (CommandStep {
                        print: None,
                        next: CommandNext::Enter(CommandPhase::Clock(node)),
                    })
                },
                None => wait_fails(
                    step,
                    |error: WaitError|
                        error matches WaitError::Refused(message) && message@ == "Node `"@
                            + node.node_id@ + "` not found in dataflow `"@ + uuid_form(node.uuid)
                            + "` while waiting"@,
                ),
            },
            ControlRequestReply::Error(reason) => wait_fails(
                step,
                |error: WaitError|
                    error matches WaitError::Refused(message) && message@
                        == "Error polling node info: "@ + reason@,
            ),
            other => wait_fails(step, |error: WaitError| error == WaitError::Unexpected(other)),
        }
    }

    /// Whether `step` is what follows the event.
    pub open spec fn does(self, phase: CommandPhase, event: CommandEvent, step: CommandStep) -> bool {
        match (phase, event) {
            (_, CommandEvent::Dataflow(dataflow_uuid)) => sends(
                step,
                ControlRequest::NodeKill {
                    dataflow_uuid,
                    node_id: self.node_id,
                    grace_duration: self.grace_duration,
                },
            ),
            (CommandPhase::Reply, CommandEvent::Reply(reply)) => self.does_on_reply(reply, step),
            (CommandPhase::Clock(node), CommandEvent::Elapsed(elapsed)) => self.does_on_clock(
                node,
                elapsed,
                step,
            ),
            (CommandPhase::Poll(node), CommandEvent::Reply(reply)) => self.does_on_poll(
                node,
                reply,
                step,
            ),
            (CommandPhase::Reply, CommandEvent::Failed(failure)) => is_refused(
                step,
                failed_request("kill"@, failure),
            ),
            (CommandPhase::Poll(_), CommandEvent::Failed(failure)) => is_failed_poll(step, failure),
            _ => false,
        }
    }

    fn on_reply(&self, reply: ControlRequestReply) -> (step: CommandStep)
        ensures
            self.does_on_reply(reply, step),
    {
        match reply {
            ControlRequestReply::NodeKilled { uuid, node_id } => if self.wait {
                CommandStep {
                    print: Some(
                        node_text("Killing", &node_id, uuid, ", waiting for process to exit..."),
                    ),
                    next: CommandNext::Enter(CommandPhase::Clock(NodeRef { uuid, node_id })),
                }
            } else {
                finish(node_text("Killed", &node_id, uuid, ""))
            },
            ControlRequestReply::Error(reason) => refuse("Failed to kill node: ", reason),
            other => unexpected(other),
        }
    }

    fn on_wait(&self, node: NodeRef, event: WaitEvent) -> (step: CommandStep)
        ensures
            match event {
                WaitEvent::Elapsed(elapsed) => self.does_on_clock(node, elapsed, step),
                WaitEvent::Reply(reply) => self.does_on_poll(node, reply, step),
                WaitEvent::Failed(failure) => is_failed_poll(step, failure),
            },
    {
        match wait_for_node_state(
            event,
            node.uuid,
            &node.node_id,
            is_killed,
            self.wait_timeout,
            "killed",
        ) {
            WaitStep::Poll => CommandStep {
                print: None,
                next: CommandNext::SleepThenSend(
                    Duration::from_millis(POLL_INTERVAL_MILLIS),
                    ControlRequest::GetNodeInfo,
                    CommandPhase::Poll(node),
                ),
            },
            WaitStep::Measure => CommandStep {
                print: None,
                next: CommandNext::Enter(CommandPhase::Clock(node)),
            },
            WaitStep::Reached => finish(
                "Node `".to_owned().concat(node.node_id.as_str()).concat("` process has exited."),
            ),
            WaitStep::Fail(error) => CommandStep {
                print: None,
                next: CommandNext::Fail(CommandError::Wait(error)),
            },
        }
    }

    /// Takes in one event.
    pub fn execute(&self, phase: CommandPhase, event: CommandEvent) -> (step: CommandStep)
        requires
            occurs_in(event, phase),
        ensures
            self.does(phase, event, step),
    {
        match (phase, event) {
            (_, CommandEvent::Dataflow(dataflow_uuid)) => send(
                ControlRequest::NodeKill {
                    dataflow_uuid,
                    node_id: self.node_id.clone(),
                    grace_duration: self.grace_duration,
                },
            ),
            (CommandPhase::Clock(node), CommandEvent::Elapsed(elapsed)) => self.on_wait(
                node,
                WaitEvent::Elapsed(elapsed),
            ),
            (CommandPhase::Poll(node), CommandEvent::Reply(reply)) => self.on_wait(
                node,
                WaitEvent::Reply(reply),
            ),
            (CommandPhase::Poll(node), CommandEvent::Failed(failure)) => self.on_wait(
                node,
                WaitEvent::Failed(failure),
            ),
            (_, CommandEvent::Reply(reply)) => self.on_reply(reply),
            (_, CommandEvent::Failed(failure)) => fail("kill", failure),
            (_, CommandEvent::Elapsed(_)) => unreached(),
        }
    }
}

impl CommandError {
    /// The message of the error. `rendered` is what was not expected in words, or the timeout in
    /// seconds, with one decimal; nothing else needs it.
    pub fn message(&self, rendered: &str) -> (message: String)
        ensures
            message@ == (match *self {
                CommandError::Refused(reason) => reason@,
                CommandError::Unexpected(_) => "Unexpected reply: "@ + rendered@,
                CommandError::Wait(error) => error.text(rendered@),
            }),
    {
        match self {
            CommandError::Refused(reason) => reason.clone(),
            CommandError::Unexpected(_) => "Unexpected reply: ".to_owned().concat(rendered),
            CommandError::Wait(error) => error.message(rendered),
        }
    }
}

/// Manages and inspects dataflow nodes. `L` is the command that lists them.
#[derive(Debug, PartialEq, Eq)]
pub enum Node<L> {
    List(L),
    /// Stop a running node, disabling its restart policy.
    Stop(Stop),
    /// Start a stopped or restarting node, re-enabling its restart policy.
    Start(Start),
    /// Kill a running node without disabling its restart policy.
    Kill(Kill),
}

impl<L> Node<L> {
    /// Whether the command goes through a phase: only a kill waits.
    pub open spec fn enters(self, phase: CommandPhase) -> bool {
        phase is Resolve || phase is Reply || self is Kill
    }

    /// Whether the command goes through a phase.
    pub fn goes_through(&self, phase: &CommandPhase) -> (enters: bool)
        ensures
            enters == self.enters(*phase),
    {
        match (self, phase) {
            (_, CommandPhase::Resolve) => true,
            (_, CommandPhase::Reply) => true,
            (Node::Kill(_), _) => true,
            _ => false,
        }
    }

    /// Takes in one event. A listing is not done this way.
    pub fn execute(&self, phase: CommandPhase, event: CommandEvent) -> (step: Option<CommandStep>)
        requires
            occurs_in(event, phase),
            self.enters(phase),
        ensures
            match *self {
                Node::List(_) => step is None,
                Node::Stop(stop) => step is Some && stop.does(phase, event, step->0),
                Node::Start(start) => step is Some && start.does(phase, event, step->0),
                Node::Kill(kill) => step is Some && kill.does(phase, event, step->0),
            },
    {
        match self {
            Node::List(_) => None,
            Node::Stop(stop) => Some(stop.execute(phase, event)),
            Node::Start(start) => Some(start.execute(phase, event)),
            Node::Kill(kill) => Some(kill.execute(phase, event)),
        }
    }
}

/// A kill that waits is done only once the coordinator has said of the node that its process has
/// exited.
pub proof fn law_waiting_kill_finishes_after_exit(
    kill: Kill,
    phase: CommandPhase,
    event: CommandEvent,
    step: CommandStep,
)
    requires
        kill.wait,
        kill.does(phase, event, step),
        step.next is Finish,
    ensures
        phase matches CommandPhase::Poll(node) && event matches CommandEvent::Reply(
            ControlRequestReply::NodeInfoList(infos),
        ) && find_node(infos@, node.uuid, node.node_id@) matches Some(info) && (info.stopped
            || info.restarting || info.manually_stopped),
{
}

/// A kill that waits goes on polling exactly until its timeout: a look at the clock that finds the
/// time used up ends the command.
pub proof fn law_kill_polls_until_timeout(
    kill: Kill,
    node: NodeRef,
    elapsed: Duration,
    step: CommandStep,
)
    requires
        kill.does(CommandPhase::Clock(node), CommandEvent::Elapsed(elapsed), step),
    ensures
        step.next is SleepThenSend <==> elapsed@ < kill.wait_timeout@,
        step.next is Fail <==> elapsed@ >= kill.wait_timeout@,
{
}

/// One round of the wait of a kill: a look at the clock, and the poll after it.
pub ghost struct KillRound {
    pub elapsed: Duration,
    pub clock_step: CommandStep,
    pub reply: ControlRequestReply,
    pub poll_step: CommandStep,
}

/// Whether the steps of the rounds are those of a kill that waits for `node`.
pub open spec fn kill_rounds(kill: Kill, node: NodeRef, rounds: Seq<KillRound>) -> bool {
    forall|i: int|
        0 <= i < rounds.len() ==> kill.does(
            CommandPhase::Clock(node),
            CommandEvent::Elapsed((#[trigger] rounds[i]).elapsed),
            rounds[i].clock_step,
        ) && kill.does(
            CommandPhase::Poll(node),
            CommandEvent::Reply(rounds[i].reply),
            rounds[i].poll_step,
        )
}

/// Whether a reply tells of the node that its process has exited, or that it has not.
pub open spec fn tells(reply: ControlRequestReply, node: NodeRef, exited: bool) -> bool {
    reply matches ControlRequestReply::NodeInfoList(infos) && find_node(
        infos@,
        node.uuid,
        node.node_id@,
    ) matches Some(info) && (info.stopped || info.restarting || info.manually_stopped) == exited
}

/// A kill that waits is done at a poll exactly if its timeout had not been reached before this poll
/// and before every earlier one, every earlier poll told that the process has not exited, and this one
/// tells that it has.
pub proof fn law_kill_is_done_exactly_if_exited_in_time(
    kill: Kill,
    node: NodeRef,
    rounds: Seq<KillRound>,
)
    requires
        rounds.len() > 0,
        kill_rounds(kill, node, rounds),
    ensures
        ({
            &&& forall|i: int|
                0 <= i < rounds.len() ==> (#[trigger] rounds[i]).clock_step.next is SleepThenSend
            &&& forall|i: int|
                0 <= i < rounds.len() - 1 ==> (#[trigger] rounds[i]).poll_step.next is Enter
            &&& rounds.last().poll_step.next is Finish
        }) <==> {
            &&& forall|i: int|
                0 <= i < rounds.len() ==> (#[trigger] rounds[i]).elapsed@ < kill.wait_timeout@
            &&& forall|i: int|
                0 <= i < rounds.len() - 1 ==> tells((#[trigger] rounds[i]).reply, node, false)
            &&& tells(rounds.last().reply, node, true)
        },
{
    assert forall|i: int| 0 <= i < rounds.len() implies ((#[trigger] rounds[
        i
    ]).clock_step.next is SleepThenSend <==> rounds[i].elapsed@ < kill.wait_timeout@) && (
    rounds[i].poll_step.next is Enter <==> tells(rounds[i].reply, node, false)) && (
    rounds[i].poll_step.next is Finish <==> tells(rounds[i].reply, node, true)) by {}
    assert(rounds.last() == rounds[rounds.len() - 1]);
}

} // verus!
