//! Waiting until a node has reached a state.

use crate::control::{ControlRequestReply, NodeInfo, RequestFailure};
use crate::text::{uuid_form, uuid_text};
use crate::time::Duration;
use vstd::prelude::*;

verus! {

/// Milliseconds between two polls of the coordinator.
pub const POLL_INTERVAL_MILLIS: u64 = 200;

/// Checks if a node is running (has metrics).
pub fn is_running(info: &NodeInfo) -> (running: bool)
    ensures
        running == info.has_metrics,
{
    info.has_metrics
}

/// Checks if a node was stopped by hand.
pub fn is_manually_stopped(info: &NodeInfo) -> (stopped: bool)
    ensures
        stopped == info.manually_stopped,
{
    info.manually_stopped
}

/// Whether the process of a node has exited.
pub open spec fn killed(info: NodeInfo) -> bool {
    info.stopped || info.restarting || info.manually_stopped
}

/// Checks if a node has been killed (process exited, either stopped or restarting).
pub fn is_killed(info: &NodeInfo) -> (is: bool)
    ensures
        is == killed(*info),
        is == (info.stopped || info.restarting || info.manually_stopped),
{
    info.stopped || info.restarting || info.manually_stopped
}

/// What a wait goes on.
#[derive(Debug)]
pub enum WaitEvent {
    /// How long the wait has lasted.
    Elapsed(Duration),
    /// The coordinator's reply to a poll.
    Reply(ControlRequestReply),
    /// A poll came to nothing.
    Failed(RequestFailure),
}

/// Why a wait failed.
#[derive(Debug)]
pub enum WaitError {
    /// The state was not reached in time.
    TimedOut { timeout: Duration, node_id: String, description: String },
    /// The coordinator could not be asked or could not tell, or the node is gone.
    Refused(String),
    /// The coordinator replied to something else.
    Unexpected(ControlRequestReply),
}

/// What a wait does next.
#[derive(Debug)]
pub enum WaitStep {
    /// Sleep for the poll interval, then ask the coordinator for the state of all nodes.
    Poll,
    /// Look at the clock.
    Measure,
    /// The state is reached.
    Reached,
    /// The wait failed.
    Fail(WaitError),
}

/// What is said of a poll that came to nothing.
pub open spec fn failed_poll(failure: RequestFailure) -> Seq<char> {
    match failure {
        RequestFailure::NotSent => "failed to poll node info from coordinator"@,
        RequestFailure::NotParsed => "failed to parse node info reply"@,
    }
}

/// Whether the information is about the given node.
pub open spec fn is_about(info: NodeInfo, dataflow_uuid: u128, node_id: Seq<char>) -> bool {
    info.dataflow_id == dataflow_uuid && info.node_id@ == node_id
}

/// The first piece of information about the given node.
pub open spec fn find_node(
    infos: Seq<NodeInfo>,
    dataflow_uuid: u128,
    node_id: Seq<char>,
) -> Option<NodeInfo>
    decreases infos.len(),
{
    if infos.len() == 0 {
        None
    } else if is_about(infos[0], dataflow_uuid, node_id) {
        Some(infos[0])
    } else {
        find_node(infos.skip(1), dataflow_uuid, node_id)
    }
}

fn position(infos: &Vec<NodeInfo>, dataflow_uuid: u128, node_id: &String) -> (found: Option<usize>)
    ensures
        match found {
            Some(i) => i < infos@.len() && find_node(infos@, dataflow_uuid, node_id@) == Some(
                infos@[i as int],
            ),
            None => find_node(infos@, dataflow_uuid, node_id@) is None,
        },
{
    let mut i: usize = 0;
    assert(infos@.skip(0) =~= infos@);
    while i < infos.len()
        invariant
            i <= infos@.len(),
            find_node(infos@, dataflow_uuid, node_id@) == find_node(
                infos@.skip(i as int),
                dataflow_uuid,
                node_id@,
            ),
        decreases infos@.len() - i,
    {
        if infos[i].dataflow_id == dataflow_uuid && infos[i].node_id == *node_id {
            return Some(i);
        }
        assert(infos@.skip(i as int).skip(1) =~= infos@.skip(i + 1));
        i += 1;
    }
    None
}

/// A wait for a node to reach a state.
pub ghost struct Wait {
    pub dataflow_uuid: u128,
    pub node_id: Seq<char>,
    /// Whether the answer to the question for the state can be this one.
    pub answers: spec_fn(NodeInfo, bool) -> bool,
    pub timeout: Duration,
    pub description: Seq<char>,
}

impl Wait {
    /// What is known about the node after a poll.
    pub open spec fn found(self, poll: WaitEvent) -> Option<NodeInfo> {
        match poll {
            WaitEvent::Reply(ControlRequestReply::NodeInfoList(infos)) => find_node(
                infos@,
                self.dataflow_uuid,
                self.node_id,
            ),
            _ => None,
        }
    }

    /// Whether `step` is what follows the event.
    pub open spec fn does(self, event: WaitEvent, step: WaitStep) -> bool {
        match event {
            WaitEvent::Elapsed(elapsed) => if elapsed@ >= self.timeout@ {
                step matches WaitStep::Fail(WaitError::TimedOut { timeout, node_id, description })
                    && timeout == self.timeout && node_id@ == self.node_id && description@
                    == self.description
            } else {
                step is Poll
            },
            WaitEvent::Reply(ControlRequestReply::NodeInfoList(_)) => match self.found(event) {
                Some(info) => {
                    ||| step is Reached && (self.answers)(info, true)
                    ||| step is Measure && (self.answers)(info, false)
                },
                None => step matches WaitStep::Fail(WaitError::Refused(message)) && message@
                    == "Node `"@ + self.node_id + "` not found in dataflow `"@ + uuid_form(
                    self.dataflow_uuid,
                ) + "` while waiting"@,
            },
            WaitEvent::Reply(ControlRequestReply::Error(reason)) => step matches WaitStep::Fail(
                WaitError::Refused(message),
            ) && message@ == "Error polling node info: "@ + reason@,
            WaitEvent::Reply(other) => step == WaitStep::Fail(WaitError::Unexpected(other)),
            WaitEvent::Failed(failure) => step matches WaitStep::Fail(WaitError::Refused(message))
                && message@ == failed_poll(failure),
        }
    }
}

/// One turn of polling the coordinator until a node reaches a desired state or the timeout expires.
///
/// The time is looked at before each poll. `description` says in error messages what state the node
/// is to reach. A poll that comes to nothing ends the wait at once.
pub fn wait_for_node_state(
    event: WaitEvent,
    dataflow_uuid: u128,
    node_id: &String,
    predicate: impl Fn(&NodeInfo) -> bool,
    timeout: Duration,
    description: &str,
) -> (step: WaitStep)
    requires
        forall|info: NodeInfo| call_requires(predicate, (&info,)),
    ensures
        (Wait {
            dataflow_uuid,
            node_id: node_id@,
            answers: |info: NodeInfo, answer: bool| call_ensures(predicate, (&info,), answer),
            timeout,
            description: description@,
        }).does(event, step),
{
    match event {
        WaitEvent::Elapsed(elapsed) => if elapsed.as_nanos() >= timeout.as_nanos() {
            WaitStep::Fail(
                WaitError::TimedOut {
                    timeout,
                    node_id: node_id.clone(),
                    description: description.to_owned(),
                },
            )
        } else {
            WaitStep::Poll
        },
        WaitEvent::Reply(ControlRequestReply::NodeInfoList(infos)) => match position(
            &infos,
            dataflow_uuid,
            node_id,
        ) {
            Some(i) => if predicate(&infos[i]) {
                WaitStep::Reached
            } else {
                WaitStep::Measure
            },
            None => {
                let message = "Node `".to_owned().concat(node_id.as_str()).concat(
                    "` not found in dataflow `",
                ).concat(uuid_text(dataflow_uuid).as_str()).concat("` while waiting");
                WaitStep::Fail(WaitError::Refused(message))
            },
        },
        WaitEvent::Reply(ControlRequestReply::Error(reason)) => WaitStep::Fail(
            WaitError::Refused("Error polling node info: ".to_owned().concat(reason.as_str())),
        ),
        WaitEvent::Reply(other) => WaitStep::Fail(WaitError::Unexpected(other)),
        WaitEvent::Failed(failure) => {
            let message = match failure {
                RequestFailure::NotSent => "failed to poll node info from coordinator",
                RequestFailure::NotParsed => "failed to parse node info reply",
            };
            WaitStep::Fail(WaitError::Refused(message.to_owned()))
        },
    }
}

impl WaitError {
    /// The message of the error, with what is put in words elsewhere.
    pub open spec fn text(self, rendered: Seq<char>) -> Seq<char> {
        match self {
            WaitError::TimedOut { node_id, description, .. } => "Timed out after "@ + rendered
                + "s waiting for node `"@ + node_id@ + "` to become "@ + description@,
            WaitError::Refused(reason) => reason@,
            WaitError::Unexpected(_) => "Unexpected reply while polling node info: "@ + rendered,
        }
    }

    /// The message of the error. `rendered` is the timeout in seconds, with one decimal, or the
    /// unexpected reply in words; nothing else needs it.
    pub fn message(&self, rendered: &str) -> (message: String)
        ensures
            message@ == self.text(rendered@),
    {
        match self {
            WaitError::TimedOut { node_id, description, .. } => "Timed out after ".to_owned().concat(
                rendered,
            ).concat("s waiting for node `").concat(node_id.as_str()).concat("` to become ").concat(
                description.as_str(),
            ),
            WaitError::Refused(reason) => reason.clone(),
            WaitError::Unexpected(_) => "Unexpected reply while polling node info: ".to_owned().concat(
                rendered,
            ),
        }
    }
}

/// What is found about a node is the first entry with its dataflow and its id in the list; nothing is
/// found exactly if there is no such entry.
pub proof fn law_first_entry_is_found(infos: Seq<NodeInfo>, dataflow_uuid: u128, node_id: Seq<char>)
    ensures
        match find_node(infos, dataflow_uuid, node_id) {
            Some(info) => exists|i: int|
                0 <= i < infos.len() && #[trigger] infos[i] == info && info.dataflow_id
                    == dataflow_uuid && info.node_id@ == node_id && forall|j: int|
                    0 <= j < i ==> (#[trigger] infos[j]).dataflow_id != dataflow_uuid
                        || infos[j].node_id@ != node_id,
            None => forall|j: int|
                0 <= j < infos.len() ==> (#[trigger] infos[j]).dataflow_id != dataflow_uuid
                    || infos[j].node_id@ != node_id,
        },
    decreases infos.len(),
{
    if infos.len() > 0 {
        let rest = infos.skip(1);
        if is_about(infos[0], dataflow_uuid, node_id) {
            assert(infos[0] == find_node(infos, dataflow_uuid, node_id)->0);
        } else {
            law_first_entry_is_found(rest, dataflow_uuid, node_id);
            if let Some(info) = find_node(rest, dataflow_uuid, node_id) {
                let i = choose|i: int|
                    0 <= i < rest.len() && #[trigger] rest[i] == info && info.dataflow_id
                        == dataflow_uuid && info.node_id@ == node_id && forall|j: int|
                        0 <= j < i ==> (#[trigger] rest[j]).dataflow_id != dataflow_uuid
                            || rest[j].node_id@ != node_id;
                assert(infos[i + 1] == info);
                assert forall|j: int| 0 <= j < i + 1 implies (#[trigger] infos[j]).dataflow_id
                    != dataflow_uuid || infos[j].node_id@ != node_id by {
                    if j > 0 {
                        assert(infos[j] == rest[j - 1]);
                    }
                }
            } else {
                assert forall|j: int| 0 <= j < infos.len() implies (#[trigger] infos[j]).dataflow_id
                    != dataflow_uuid || infos[j].node_id@ != node_id by {
                    if j > 0 {
                        assert(infos[j] == rest[j - 1]);
                    }
                }
            }
        }
    }
}

/// One round of a wait: a look at the clock, and the poll after it.
pub ghost struct Round {
    pub elapsed: Duration,
    pub clock_step: WaitStep,
    pub poll: WaitEvent,
    pub poll_step: WaitStep,
}

impl Wait {
    /// Whether the steps of a round are those of this wait.
    pub open spec fn has_round(self, round: Round) -> bool {
        &&& self.does(WaitEvent::Elapsed(round.elapsed), round.clock_step)
        &&& !(round.poll is Elapsed)
        &&& self.does(round.poll, round.poll_step)
    }

    /// Whether the steps of the rounds are those of this wait.
    pub open spec fn has_rounds(self, rounds: Seq<Round>) -> bool {
        forall|i: int| 0 <= i < rounds.len() ==> self.has_round(#[trigger] rounds[i])
    }

    /// Whether the question for the state has one answer for each node.
    pub open spec fn asks_for(self, in_state: spec_fn(NodeInfo) -> bool) -> bool {
        forall|info: NodeInfo, answer: bool| #[trigger]
            (self.answers)(info, answer) ==> answer == in_state(info)
    }
}

/// Whether each of the polls takes place: the clock before it lets the wait go on, and no earlier
/// poll ends it.
pub open spec fn all_polled(rounds: Seq<Round>) -> bool {
    &&& forall|i: int| 0 <= i < rounds.len() ==> (#[trigger] rounds[i]).clock_step is Poll
    &&& forall|i: int| 0 <= i < rounds.len() - 1 ==> (#[trigger] rounds[i]).poll_step is Measure
}

/// A wait succeeds at a poll exactly if time was left before it and before every earlier poll, every
/// earlier poll found the node not yet in the state, and this one finds it there.
pub proof fn law_wait_succeeds_exactly_if_reached_in_time(
    wait: Wait,
    in_state: spec_fn(NodeInfo) -> bool,
    rounds: Seq<Round>,
)
    requires
        rounds.len() > 0,
        wait.has_rounds(rounds),
        wait.asks_for(in_state),
    ensures
        all_polled(rounds) && rounds.last().poll_step is Reached <==> {
            &&& forall|i: int|
                0 <= i < rounds.len() ==> (#[trigger] rounds[i]).elapsed@ < wait.timeout@
            &&& forall|i: int|
                0 <= i < rounds.len() - 1 ==> (wait.found((#[trigger] rounds[i]).poll) matches Some(
                    info,
                ) && !in_state(info))
            &&& wait.found(rounds.last().poll) matches Some(info) && in_state(info)
        },
{
    assert(wait.has_round(rounds[rounds.len() - 1]));
    assert forall|i: int| 0 <= i < rounds.len() implies ((#[trigger] rounds[i]).clock_step is Poll
        <==> rounds[i].elapsed@ < wait.timeout@) && (rounds[i].poll_step is Measure <==> (
    wait.found(rounds[i].poll) matches Some(info) && !in_state(info))) by {
        assert(wait.has_round(rounds[i]));
    }
}

/// The number of polls is bounded: where each round begins no earlier than all the sleeps before it
/// take, a wait polls at most as often as the poll interval, rounded up, fits into the timeout.
pub proof fn law_number_of_polls_is_bounded(wait: Wait, rounds: Seq<Round>)
    requires
        wait.has_rounds(rounds),
        all_polled(rounds),
        forall|i: int|
            0 <= i < rounds.len() ==> i * POLL_INTERVAL_MILLIS * 1_000_000 <= (
            #[trigger] rounds[i]).elapsed@,
    ensures
        rounds.len() <= (wait.timeout@ + 199_999_999) / 200_000_000,
{
    if rounds.len() > 0 {
        let last = rounds.len() - 1;
        assert(wait.has_round(rounds[last]));
        assert(rounds[last].clock_step is Poll);
        assert(last * POLL_INTERVAL_MILLIS * 1_000_000 == last * 200_000_000);
    }
}

/// A node counts as exited exactly if at least one of the three flags is set that a node without a
/// process has, whatever is known of its metrics.
pub proof fn law_exited_is_told_by_the_three_flags(info: NodeInfo, other: NodeInfo, is: bool)
    requires
        call_ensures(is_killed, (&info,), is),
    ensures
        info.stopped ==> is,
        info.restarting ==> is,
        info.manually_stopped ==> is,
        is ==> info.stopped || info.restarting || info.manually_stopped,
        killed(info) == is,
        other.stopped == info.stopped && other.restarting == info.restarting
            && other.manually_stopped == info.manually_stopped ==> killed(other) == is,
{
}

/// Running is told by the metrics alone, and stopped by hand by its flag alone.
pub proof fn law_running_and_stopped_are_told_apart(info: NodeInfo, running: bool, stopped: bool)
    requires
        call_ensures(is_running, (&info,), running),
        call_ensures(is_manually_stopped, (&info,), stopped),
    ensures
        running == info.has_metrics,
        stopped == info.manually_stopped,
{
}

/// A look at the clock lets the wait go on exactly while the time is not used up, and otherwise ends it
/// with the timeout, the node and the state in the error.
pub proof fn law_clock_decides_on_the_timeout<P: Fn(&NodeInfo) -> bool>(
    elapsed: Duration,
    dataflow_uuid: u128,
    node_id: String,
    predicate: P,
    timeout: Duration,
    description: &str,
    step: WaitStep,
)
    requires
        call_ensures(
            wait_for_node_state,
            (WaitEvent::Elapsed(elapsed), dataflow_uuid, &node_id, predicate, timeout, description),
            step,
        ),
    ensures
        step is Poll <==> elapsed@ < timeout@,
        elapsed@ >= timeout@ ==> (step matches WaitStep::Fail(
            WaitError::TimedOut { timeout: t, node_id: n, description: d },
        ) && t@ == timeout@ && n@ == node_id@ && d@ == description@),
{
}

/// A list with an entry of the node decides by the first such entry: the wait is over exactly if the
/// predicate holds of it, and otherwise goes on with the clock.
pub proof fn law_first_entry_decides<P: Fn(&NodeInfo) -> bool>(
    infos: Vec<NodeInfo>,
    i: int,
    dataflow_uuid: u128,
    node_id: String,
    predicate: P,
    timeout: Duration,
    description: &str,
    step: WaitStep,
)
    requires
        call_ensures(
            wait_for_node_state,
            (
                WaitEvent::Reply(ControlRequestReply::NodeInfoList(infos)),
                dataflow_uuid,
                &node_id,
                predicate,
                timeout,
                description,
            ),
            step,
        ),
        0 <= i < infos@.len(),
        infos@[i].dataflow_id == dataflow_uuid,
        infos@[i].node_id@ == node_id@,
        forall|j: int|
            0 <= j < i ==> (#[trigger] infos@[j]).dataflow_id != dataflow_uuid || infos@[j].node_id@
                != node_id@,
    ensures
        step is Reached || step is Measure,
        step is Reached ==> call_ensures(predicate, (&infos@[i],), true),
        step is Measure ==> call_ensures(predicate, (&infos@[i],), false),
{
    law_first_entry_is_found(infos@, dataflow_uuid, node_id@);
    assert(infos@[i].dataflow_id == dataflow_uuid);
    let found = find_node(infos@, dataflow_uuid, node_id@)->0;
    let k = choose|k: int|
        0 <= k < infos@.len() && #[trigger] infos@[k] == found && found.dataflow_id == dataflow_uuid
            && found.node_id@ == node_id@ && forall|j: int|
            0 <= j < k ==> (#[trigger] infos@[j]).dataflow_id != dataflow_uuid
                || infos@[j].node_id@ != node_id@;
    assert(k == i) by {
        if k < i {
            assert(infos@[k].dataflow_id != dataflow_uuid || infos@[k].node_id@ != node_id@);
        }
    }
}

/// A list without an entry of the node ends the wait, and so does every reply that is no list. The
/// error says what happened.
pub proof fn law_poll_without_the_node_ends_the_wait<P: Fn(&NodeInfo) -> bool>(
    poll: WaitEvent,
    dataflow_uuid: u128,
    node_id: String,
    predicate: P,
    timeout: Duration,
    description: &str,
    step: WaitStep,
)
    requires
        call_ensures(
            wait_for_node_state,
            (poll, dataflow_uuid, &node_id, predicate, timeout, description),
            step,
        ),
    ensures
        match poll {
            WaitEvent::Elapsed(_) => true,
            WaitEvent::Reply(ControlRequestReply::NodeInfoList(infos)) => (forall|j: int|
                0 <= j < infos@.len() ==> (#[trigger] infos@[j]).dataflow_id != dataflow_uuid
                    || infos@[j].node_id@ != node_id@) ==> (step matches WaitStep::Fail(
                WaitError::Refused(message),
            ) && message@ == "Node `"@ + node_id@ + "` not found in dataflow `"@ + uuid_form(
                dataflow_uuid,
            ) + "` while waiting"@),
            WaitEvent::Reply(ControlRequestReply::Error(reason)) => step matches WaitStep::Fail(
                WaitError::Refused(message),
            ) && message@ == "Error polling node info: "@ + reason@,
            WaitEvent::Reply(other) => step matches WaitStep::Fail(WaitError::Unexpected(reply))
                && reply == other,
            WaitEvent::Failed(RequestFailure::NotSent) => step matches WaitStep::Fail(
                WaitError::Refused(message),
            ) && message@ == "failed to poll node info from coordinator"@,
            WaitEvent::Failed(RequestFailure::NotParsed) => step matches WaitStep::Fail(
                WaitError::Refused(message),
            ) && message@ == "failed to parse node info reply"@,
        },
{
    if let WaitEvent::Reply(ControlRequestReply::NodeInfoList(infos)) = poll {
        law_first_entry_is_found(infos@, dataflow_uuid, node_id@);
    }
}

/// What a failed wait says: the timeout, the node and the state where the time was used up, the reply
/// where it was not expected, and the reason as it is otherwise.
pub proof fn law_failed_wait_says_why(error: WaitError, rendered: &str, message: String)
    requires
        call_ensures(WaitError::message, (&error, rendered), message),
    ensures
        message@ == error.text(rendered@),
        match error {
            WaitError::TimedOut { node_id, description, .. } => message@ == "Timed out after "@
                + rendered@ + "s waiting for node `"@ + node_id@ + "` to become "@ + description@,
            WaitError::Refused(reason) => message@ == reason@,
            WaitError::Unexpected(_) => message@ == "Unexpected reply while polling node info: "@
                + rendered@,
        },
{
}

} // verus!
