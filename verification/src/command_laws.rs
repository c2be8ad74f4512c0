//! What the node commands ask for and what they make of every reply.

use crate::command::{
    duration_of_text, parse_duration, CommandError, CommandEvent, CommandNext, CommandPhase,
    CommandStep, Kill, Node, NodeRef, Start, Stop,
};
use crate::control::{ControlRequest, ControlRequestReply, NodeInfo, RequestFailure};
use crate::text::uuid_form;
use crate::time::Duration;
use crate::wait::{find_node, law_first_entry_is_found, WaitError};
use vstd::prelude::*;

verus! {

/// Whether a command prints this line and is done.
pub open spec fn done_with(step: CommandStep, line: Seq<char>) -> bool {
    step.next is Finish && (step.print matches Some(printed) && printed@ == line)
}

/// Whether a command prints nothing and fails with this message.
pub open spec fn fails_with(step: CommandStep, text: Seq<char>) -> bool {
    step.print is None && (step.next matches CommandNext::Fail(CommandError::Refused(message))
        && message@ == text)
}

/// Whether a command prints nothing and fails because this reply was not expected.
pub open spec fn balks_at(step: CommandStep, reply: ControlRequestReply) -> bool {
    step.print is None && (step.next matches CommandNext::Fail(CommandError::Unexpected(other))
        && other == reply)
}

/// Whether a command prints nothing and its wait fails with this message.
pub open spec fn wait_ends_with(step: CommandStep, text: Seq<char>) -> bool {
    step.print is None && (step.next matches CommandNext::Fail(
        CommandError::Wait(WaitError::Refused(message)),
    ) && message@ == text)
}

/// A stop asks the coordinator for exactly what it was given, before it says anything.
pub proof fn law_stop_asks_for_its_node(stop: Stop, dataflow_uuid: u128, step: CommandStep)
    requires
        call_ensures(
            Stop::execute,
            (&stop, CommandPhase::Resolve, CommandEvent::Dataflow(dataflow_uuid)),
            step,
        ),
    ensures
        step.print is None,
        step.next matches CommandNext::Send(request, phase) && phase is Reply && (request matches
            ControlRequest::NodeStop { dataflow_uuid: u, node_id: n, grace_duration: g } && u
            == dataflow_uuid && n@ == stop.node_id@ && g == stop.grace_duration),
{
}

/// A start asks the coordinator for exactly what it was given, before it says anything.
pub proof fn law_start_asks_for_its_node(start: Start, dataflow_uuid: u128, step: CommandStep)
    requires
        call_ensures(
            Start::execute,
            (&start, CommandPhase::Resolve, CommandEvent::Dataflow(dataflow_uuid)),
            step,
        ),
    ensures
        step.print is None,
        step.next matches CommandNext::Send(request, phase) && phase is Reply && (request matches
            ControlRequest::NodeStart { dataflow_uuid: u, node_id: n } && u
            == dataflow_uuid && n@ == start.node_id@),
{
}

/// A kill asks the coordinator for exactly what it was given, before it says anything.
pub proof fn law_kill_asks_for_its_node(kill: Kill, dataflow_uuid: u128, step: CommandStep)
    requires
        call_ensures(
            Kill::execute,
            (&kill, CommandPhase::Resolve, CommandEvent::Dataflow(dataflow_uuid)),
            step,
        ),
    ensures
        step.print is None,
        step.next matches CommandNext::Send(request, phase) && phase is Reply && (request matches
            ControlRequest::NodeKill { dataflow_uuid: u, node_id: n, grace_duration: g } && u
            == dataflow_uuid && n@ == kill.node_id@ && g == kill.grace_duration),
{
}

/// A stop is done exactly when the coordinator says that the node was stopped: it prints the node and
/// the dataflow that the coordinator names. A refusal is passed on with its reason, any other reply is not
/// expected, and a request that comes to nothing ends the command.
pub proof fn law_stop_takes_every_reply(stop: Stop, event: CommandEvent, step: CommandStep)
    requires
        call_ensures(Stop::execute, (&stop, CommandPhase::Reply, event), step),
        event is Reply || event is Failed,
    ensures
        step.next is Finish <==> (event matches CommandEvent::Reply(reply) && reply is NodeStopped),
        match event {
            CommandEvent::Reply(ControlRequestReply::NodeStopped { uuid, node_id }) => done_with(
                step,
                "Stopped node `"@ + node_id@ + "` in dataflow `"@ + uuid_form(uuid) + "`"@,
            ),
            CommandEvent::Reply(ControlRequestReply::Error(reason)) => fails_with(
                step,
                "Failed to stop node: "@ + reason@,
            ),
            CommandEvent::Reply(other) => balks_at(step, other),
            CommandEvent::Failed(RequestFailure::NotSent) => fails_with(
                step,
                "failed to send node stop request to coordinator"@,
            ),
            CommandEvent::Failed(RequestFailure::NotParsed) => fails_with(
                step,
                "failed to parse reply"@,
            ),
            _ => true,
        },
{
    reveal_strlit("Stopped node `");
    reveal_strlit("Stopped");
    reveal_strlit(" node `");
    reveal_strlit("");
    reveal_strlit("failed to send node stop request to coordinator");
    reveal_strlit("failed to send node ");
    reveal_strlit("stop");
    reveal_strlit(" request to coordinator");
    assert("failed to send node stop request to coordinator"@ =~= "failed to send node "@ + "stop"@
        + " request to coordinator"@);
    if let CommandEvent::Reply(ControlRequestReply::NodeStopped { uuid, node_id }) = event {
        assert("Stopped node `"@ + node_id@ + "` in dataflow `"@ + uuid_form(uuid) + "`"@ =~= "Stopped"@
            + " node `"@ + node_id@ + "` in dataflow `"@ + uuid_form(uuid) + "`"@ + ""@);
    }
}

/// A start is done exactly when the coordinator says that the node was started: it prints the node and
/// the dataflow that the coordinator names. A refusal is passed on with its reason, any other reply is not
/// expected, and a request that comes to nothing ends the command.
pub proof fn law_start_takes_every_reply(start: Start, event: CommandEvent, step: CommandStep)
    requires
        call_ensures(Start::execute, (&start, CommandPhase::Reply, event), step),
        event is Reply || event is Failed,
    ensures
        step.next is Finish <==> (event matches CommandEvent::Reply(reply) && reply is NodeStarted),
        match event {
            CommandEvent::Reply(ControlRequestReply::NodeStarted { uuid, node_id }) => done_with(
                step,
                "Started node `"@ + node_id@ + "` in dataflow `"@ + uuid_form(uuid) + "`"@,
            ),
            CommandEvent::Reply(ControlRequestReply::Error(reason)) => fails_with(
                step,
                "Failed to start node: "@ + reason@,
            ),
            CommandEvent::Reply(other) => balks_at(step, other),
            CommandEvent::Failed(RequestFailure::NotSent) => fails_with(
                step,
                "failed to send node start request to coordinator"@,
            ),
            CommandEvent::Failed(RequestFailure::NotParsed) => fails_with(
                step,
                "failed to parse reply"@,
            ),
            _ => true,
        },
{
    reveal_strlit("Started node `");
    reveal_strlit("Started");
    reveal_strlit(" node `");
    reveal_strlit("");
    reveal_strlit("failed to send node start request to coordinator");
    reveal_strlit("failed to send node ");
    reveal_strlit("start");
    reveal_strlit(" request to coordinator");
    assert("failed to send node start request to coordinator"@ =~= "failed to send node "@ + "start"@
        + " request to coordinator"@);
    if let CommandEvent::Reply(ControlRequestReply::NodeStarted { uuid, node_id }) = event {
        assert("Started node `"@ + node_id@ + "` in dataflow `"@ + uuid_form(uuid) + "`"@ =~= "Started"@
            + " node `"@ + node_id@ + "` in dataflow `"@ + uuid_form(uuid) + "`"@ + ""@);
    }
}

/// A kill takes the reply to its request: where the node was killed it is done at once, unless it waits,
/// in which case it says so and turns to the clock. A refusal is passed on with its reason, any other
/// reply is not expected, and a request that comes to nothing ends the command.
pub proof fn law_kill_takes_every_reply(kill: Kill, event: CommandEvent, step: CommandStep)
    requires
        call_ensures(Kill::execute, (&kill, CommandPhase::Reply, event), step),
        event is Reply || event is Failed,
    ensures
        step.next is Finish <==> !kill.wait && (event matches CommandEvent::Reply(reply)
            && reply is NodeKilled),
        step.next is Enter <==> kill.wait && (event matches CommandEvent::Reply(reply)
            && reply is NodeKilled),
        match event {
            CommandEvent::Reply(ControlRequestReply::NodeKilled { uuid, node_id }) => if kill.wait {
                &&& step.print matches Some(line) && line@ == "Killing node `"@ + node_id@
                    + "` in dataflow `"@ + uuid_form(uuid) + "`, waiting for process to exit..."@
                &&& step.next matches CommandNext::Enter(CommandPhase::Clock(node)) && node.uuid
                    == uuid && node.node_id@ == node_id@
            } else {
                done_with(
                    step,
                    "Killed node `"@ + node_id@ + "` in dataflow `"@ + uuid_form(uuid) + "`"@,
                )
            },
            CommandEvent::Reply(ControlRequestReply::Error(reason)) => fails_with(
                step,
                "Failed to kill node: "@ + reason@,
            ),
            CommandEvent::Reply(other) => balks_at(step, other),
            CommandEvent::Failed(RequestFailure::NotSent) => fails_with(
                step,
                "failed to send node kill request to coordinator"@,
            ),
            CommandEvent::Failed(RequestFailure::NotParsed) => fails_with(
                step,
                "failed to parse reply"@,
            ),
            _ => true,
        },
{
    reveal_strlit("Killing node `");
    reveal_strlit("Killing");
    reveal_strlit("Killed node `");
    reveal_strlit("Killed");
    reveal_strlit(" node `");
    reveal_strlit("");
    reveal_strlit("`");
    reveal_strlit(", waiting for process to exit...");
    reveal_strlit("`, waiting for process to exit...");
    reveal_strlit("failed to send node kill request to coordinator");
    reveal_strlit("failed to send node ");
    reveal_strlit("kill");
    reveal_strlit(" request to coordinator");
    assert("failed to send node kill request to coordinator"@ =~= "failed to send node "@ + "kill"@
        + " request to coordinator"@);
    if let CommandEvent::Reply(ControlRequestReply::NodeKilled { uuid, node_id }) = event {
        assert("Killed node `"@ + node_id@ + "` in dataflow `"@ + uuid_form(uuid) + "`"@ =~= "Killed"@
            + " node `"@ + node_id@ + "` in dataflow `"@ + uuid_form(uuid) + "`"@ + ""@);
        assert("Killing node `"@ + node_id@ + "` in dataflow `"@ + uuid_form(uuid)
            + "`, waiting for process to exit..."@ =~= "Killing"@ + " node `"@ + node_id@
            + "` in dataflow `"@ + uuid_form(uuid) + "`"@ + ", waiting for process to exit..."@);
    }
}

/// A waiting kill sleeps a fifth of a second and polls again exactly while its timeout is not reached,
/// and otherwise fails with that timeout and with the node for which it waits.
pub proof fn law_waiting_kill_looks_at_the_clock(
    kill: Kill,
    node: NodeRef,
    elapsed: Duration,
    step: CommandStep,
)
    requires
        call_ensures(
            Kill::execute,
            (&kill, CommandPhase::Clock(node), CommandEvent::Elapsed(elapsed)),
            step,
        ),
    ensures
        step.print is None,
        elapsed@ < kill.wait_timeout@ ==> (step.next matches CommandNext::SleepThenSend(
            time,
            request,
            phase,
        ) && time@ == 200_000_000 && request is GetNodeInfo && phase == CommandPhase::Poll(node)),
        elapsed@ >= kill.wait_timeout@ ==> (step.next matches CommandNext::Fail(
            CommandError::Wait(WaitError::TimedOut { timeout, node_id, description }),
        ) && timeout@ == kill.wait_timeout@ && node_id@ == node.node_id@ && description@
            == "killed"@),
{
}

/// A waiting kill goes by the first entry of its node in the list: it is done, and says so, exactly if
/// one of the three flags of a node without a process is set there, and otherwise turns to the clock.
pub proof fn law_waiting_kill_goes_by_the_first_entry(
    kill: Kill,
    node: NodeRef,
    infos: Vec<NodeInfo>,
    i: int,
    step: CommandStep,
)
    requires
        call_ensures(
            Kill::execute,
            (
                &kill,
                CommandPhase::Poll(node),
                CommandEvent::Reply(ControlRequestReply::NodeInfoList(infos)),
            ),
            step,
        ),
        0 <= i < infos@.len(),
        infos@[i].dataflow_id == node.uuid,
        infos@[i].node_id@ == node.node_id@,
        forall|j: int|
            0 <= j < i ==> (#[trigger] infos@[j]).dataflow_id != node.uuid || infos@[j].node_id@
                != node.node_id@,
    ensures
        infos@[i].stopped || infos@[i].restarting || infos@[i].manually_stopped ==> done_with(
            step,
            "Node `"@ + node.node_id@ + "` process has exited."@,
        ),
        !infos@[i].stopped && !infos@[i].restarting && !infos@[i].manually_stopped ==> step.print
            is None && step.next == CommandNext::Enter(CommandPhase::Clock(node)),
{
    law_first_entry_is_found(infos@, node.uuid, node.node_id@);
    assert(infos@[i].dataflow_id == node.uuid);
    let found = find_node(infos@, node.uuid, node.node_id@)->0;
    let k = choose|k: int|
        0 <= k < infos@.len() && #[trigger] infos@[k] == found && found.dataflow_id == node.uuid
            && found.node_id@ == node.node_id@ && forall|j: int|
            0 <= j < k ==> (#[trigger] infos@[j]).dataflow_id != node.uuid || infos@[j].node_id@
                != node.node_id@;
    assert(k == i) by {
        if k < i {
            assert(infos@[k].dataflow_id != node.uuid || infos@[k].node_id@ != node.node_id@);
        }
    }
}

/// Every other outcome of a poll ends a waiting kill: its node is gone, the coordinator refuses, replies
/// to something else, or cannot be asked.
pub proof fn law_waiting_kill_ends_without_its_node(
    kill: Kill,
    node: NodeRef,
    event: CommandEvent,
    step: CommandStep,
)
    requires
        call_ensures(Kill::execute, (&kill, CommandPhase::Poll(node), event), step),
        event is Reply || event is Failed,
    ensures
        match event {
            CommandEvent::Reply(ControlRequestReply::NodeInfoList(infos)) => (forall|j: int|
                0 <= j < infos@.len() ==> (#[trigger] infos@[j]).dataflow_id != node.uuid
                    || infos@[j].node_id@ != node.node_id@) ==> wait_ends_with(
                step,
                "Node `"@ + node.node_id@ + "` not found in dataflow `"@ + uuid_form(node.uuid)
                    + "` while waiting"@,
            ),
            CommandEvent::Reply(ControlRequestReply::Error(reason)) => wait_ends_with(
                step,
                "Error polling node info: "@ + reason@,
            ),
            CommandEvent::Reply(other) => step.print is None && (step.next matches CommandNext::Fail(
                CommandError::Wait(WaitError::Unexpected(reply)),
            ) && reply == other),
            CommandEvent::Failed(RequestFailure::NotSent) => wait_ends_with(
                step,
                "failed to poll node info from coordinator"@,
            ),
            CommandEvent::Failed(RequestFailure::NotParsed) => wait_ends_with(
                step,
                "failed to parse node info reply"@,
            ),
            _ => true,
        },
{
    if let CommandEvent::Reply(ControlRequestReply::NodeInfoList(infos)) = event {
        law_first_entry_is_found(infos@, node.uuid, node.node_id@);
    }
}

/// Each phase takes in the events that can occur in it and no others.
pub proof fn law_phases_take_in_their_events(phase: CommandPhase, event: CommandEvent, expected: bool)
    requires
        call_ensures(CommandPhase::expects, (&phase, &event), expected),
    ensures
        event is Dataflow ==> (expected <==> phase is Resolve),
        event is Reply ==> (expected <==> phase is Reply || phase is Poll),
        event is Failed ==> (expected <==> phase is Reply || phase is Poll),
        event is Elapsed ==> (expected <==> phase is Clock),
{
}

/// Only a kill goes through the phases of the wait; every command goes through the others.
pub proof fn law_only_a_kill_waits<L>(node: Node<L>, phase: CommandPhase, enters: bool)
    requires
        call_ensures(Node::<L>::goes_through, (&node, &phase), enters),
    ensures
        node is Kill ==> enters,
        !(node is Kill) ==> (enters <==> phase is Resolve || phase is Reply),
{
}

/// A command of the group does what the command alone does, and a listing does nothing here.
pub proof fn law_group_hands_on<L>(
    list: L,
    stop: Stop,
    start: Start,
    kill: Kill,
    phase: CommandPhase,
    event: CommandEvent,
    listed: Option<CommandStep>,
    stopped: Option<CommandStep>,
    started: Option<CommandStep>,
    killed: Option<CommandStep>,
)
    requires
        call_ensures(Node::<L>::execute, (&Node::List(list), phase, event), listed),
        call_ensures(Node::<L>::execute, (&Node::Stop(stop), phase, event), stopped),
        call_ensures(Node::<L>::execute, (&Node::Start(start), phase, event), started),
        call_ensures(Node::<L>::execute, (&Node::Kill(kill), phase, event), killed),
    ensures
        listed is None,
        stopped is Some && stop.does(phase, event, stopped->0),
        started is Some && start.does(phase, event, started->0),
        killed is Some && kill.does(phase, event, killed->0),
{
}

/// What a failed command says: the reason as it is, the reply where it was not expected, and what the
/// wait says where the wait failed.
pub proof fn law_failed_command_says_why(
    error: CommandError,
    rendered: &str,
    message: String,
    wait: WaitError,
    wait_message: String,
)
    requires
        call_ensures(CommandError::message, (&error, rendered), message),
        call_ensures(WaitError::message, (&wait, rendered), wait_message),
    ensures
        match error {
            CommandError::Refused(reason) => message@ == reason@,
            CommandError::Unexpected(_) => message@ == "Unexpected reply: "@ + rendered@,
            CommandError::Wait(why) => why == wait ==> message@ == wait_message@,
        },
{
}

/// A duration on the command line is the one that the text stands for, to the nanosecond, and a text
/// that stands for none is refused with the parser's message.
pub proof fn law_duration_is_taken_as_written(text: &str, parsed: Result<Duration, String>)
    requires
        call_ensures(parse_duration, (text,), parsed),
    ensures
        parsed is Ok <==> duration_of_text(text@) is Ok,
        parsed matches Ok(duration) ==> (duration_of_text(text@) matches Ok((secs, nanos))
            && duration@ == secs * 1_000_000_000 + nanos),
        parsed matches Err(message) ==> (duration_of_text(text@) matches Err(m) && m == message@),
        text@.len() == 0 ==> parsed is Err,
{
}

} // verus!
