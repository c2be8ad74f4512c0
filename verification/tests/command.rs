use dora_nodes::command::{
    parse_duration, CommandError, CommandEvent, CommandNext, CommandPhase, CommandStep, Kill, Node,
    NodeRef, Start, Stop,
};
use dora_nodes::control::{ControlRequest, ControlRequestReply, NodeInfo, RequestFailure};
use dora_nodes::time::Duration;
use dora_nodes::wait::{
    is_killed, is_manually_stopped, is_running, wait_for_node_state, WaitError, WaitEvent, WaitStep,
};

const UUID: u128 = 0xa1a2a3a4b1b2c1c2d1d2d3d4d5d6d7d8;
const UUID_TEXT: &str = "a1a2a3a4-b1b2-c1c2-d1d2-d3d4d5d6d7d8";

fn info(dataflow_id: u128, node_id: &str) -> NodeInfo {
    NodeInfo {
        dataflow_id,
        node_id: node_id.to_string(),
        has_metrics: true,
        stopped: false,
        restarting: false,
        manually_stopped: false,
    }
}

fn stop() -> Stop {
    Stop {
        node_id: "camera".to_string(),
        dataflow: None,
        grace_duration: Some(Duration::from_secs(2)),
    }
}

fn start() -> Start {
    Start { node_id: "camera".to_string(), dataflow: Some("flow".to_string()) }
}

fn kill(wait: bool) -> Kill {
    Kill {
        node_id: "camera".to_string(),
        dataflow: None,
        grace_duration: None,
        wait,
        wait_timeout: Duration::from_secs(30),
    }
}

fn node_ref() -> NodeRef {
    NodeRef { uuid: UUID, node_id: "camera".to_string() }
}

fn failure(step: CommandStep, rendered: &str) -> String {
    assert_eq!(step.print, None);
    match step.next {
        CommandNext::Fail(error) => error.message(rendered),
        other => panic!("{other:?}"),
    }
}

fn printed_at_end(step: CommandStep) -> String {
    assert!(matches!(step.next, CommandNext::Finish));
    step.print.expect("a line")
}

#[test]
fn durations_are_parsed() {
    assert_eq!(parse_duration("30s"), Ok(Duration::from_secs(30)));
    assert_eq!(parse_duration("1m 30s"), Ok(Duration::from_secs(90)));
    assert_eq!(parse_duration("250ms"), Ok(Duration::from_millis(250)));
    assert_eq!(parse_duration("1s500ms"), Ok(Duration::new(1, 500_000_000)));
    assert_eq!(parse_duration(""), Err("Empty input".to_string()));
    assert!(parse_duration("soon").is_err());
}

#[test]
fn stop_sends_its_request_and_reports() {
    let step = stop().execute(CommandPhase::Resolve, CommandEvent::Dataflow(UUID));
    assert_eq!(step.print, None);
    match step.next {
        CommandNext::Send(request, phase) => {
            assert_eq!(
                request,
                ControlRequest::NodeStop {
                    dataflow_uuid: UUID,
                    node_id: "camera".to_string(),
                    grace_duration: Some(Duration::from_secs(2)),
                }
            );
            assert_eq!(phase, CommandPhase::Reply);
        }
        other => panic!("{other:?}"),
    }
    let reply = ControlRequestReply::NodeStopped { uuid: UUID, node_id: "camera".to_string() };
    assert_eq!(
        printed_at_end(stop().execute(CommandPhase::Reply, CommandEvent::Reply(reply))),
        format!("Stopped node `camera` in dataflow `{UUID_TEXT}`")
    );
    let refused = ControlRequestReply::Error("no such node".to_string());
    assert_eq!(
        failure(stop().execute(CommandPhase::Reply, CommandEvent::Reply(refused)), ""),
        "Failed to stop node: no such node"
    );
}

#[test]
fn start_sends_its_request_and_reports() {
    let step = start().execute(CommandPhase::Resolve, CommandEvent::Dataflow(UUID));
    match step.next {
        CommandNext::Send(request, _) => assert_eq!(
            request,
            ControlRequest::NodeStart { dataflow_uuid: UUID, node_id: "camera".to_string() }
        ),
        other => panic!("{other:?}"),
    }
    let reply = ControlRequestReply::NodeStarted { uuid: UUID, node_id: "camera".to_string() };
    assert_eq!(
        printed_at_end(start().execute(CommandPhase::Reply, CommandEvent::Reply(reply))),
        format!("Started node `camera` in dataflow `{UUID_TEXT}`")
    );
    let refused = ControlRequestReply::Error("no such node".to_string());
    assert_eq!(
        failure(start().execute(CommandPhase::Reply, CommandEvent::Reply(refused)), ""),
        "Failed to start node: no such node"
    );
}

#[test]
fn kill_without_wait_is_done_at_once() {
    let step = kill(false).execute(CommandPhase::Resolve, CommandEvent::Dataflow(UUID));
    match step.next {
        CommandNext::Send(request, phase) => {
            assert_eq!(
                request,
                ControlRequest::NodeKill {
                    dataflow_uuid: UUID,
                    node_id: "camera".to_string(),
                    grace_duration: None,
                }
            );
            assert_eq!(phase, CommandPhase::Reply);
        }
        other => panic!("{other:?}"),
    }
    let reply = ControlRequestReply::NodeKilled { uuid: UUID, node_id: "camera".to_string() };
    assert_eq!(
        printed_at_end(kill(false).execute(CommandPhase::Reply, CommandEvent::Reply(reply))),
        format!("Killed node `camera` in dataflow `{UUID_TEXT}`")
    );
    let refused = ControlRequestReply::Error("no such node".to_string());
    assert_eq!(
        failure(kill(true).execute(CommandPhase::Reply, CommandEvent::Reply(refused)), ""),
        "Failed to kill node: no such node"
    );
}

#[test]
fn other_replies_are_unexpected() {
    let other = ControlRequestReply::NodeStarted { uuid: UUID, node_id: "camera".to_string() };
    let step = kill(true).execute(CommandPhase::Reply, CommandEvent::Reply(other));
    match &step.next {
        CommandNext::Fail(CommandError::Unexpected(reply)) => assert_eq!(
            *reply,
            ControlRequestReply::NodeStarted { uuid: UUID, node_id: "camera".to_string() }
        ),
        other => panic!("{other:?}"),
    }
    assert_eq!(failure(step, "NodeStarted"), "Unexpected reply: NodeStarted");
    let other = ControlRequestReply::Other("CliError".to_string());
    let step = stop().execute(CommandPhase::Reply, CommandEvent::Reply(other));
    assert_eq!(failure(step, "CliError"), "Unexpected reply: CliError");
    let other = ControlRequestReply::NodeKilled { uuid: UUID, node_id: "camera".to_string() };
    let step = start().execute(CommandPhase::Reply, CommandEvent::Reply(other));
    assert_eq!(failure(step, "NodeKilled"), "Unexpected reply: NodeKilled");
}

#[test]
fn kill_waits_until_the_process_has_exited() {
    let kill = kill(true);
    let reply = ControlRequestReply::NodeKilled { uuid: UUID, node_id: "camera".to_string() };
    let step = kill.execute(CommandPhase::Reply, CommandEvent::Reply(reply));
    assert_eq!(
        step.print,
        Some(format!(
            "Killing node `camera` in dataflow `{UUID_TEXT}`, waiting for process to exit..."
        ))
    );
    let phase = match step.next {
        CommandNext::Enter(phase) => phase,
        other => panic!("{other:?}"),
    };
    assert_eq!(phase, CommandPhase::Clock(node_ref()));

    let step = kill.execute(phase, CommandEvent::Elapsed(Duration::from_millis(29_999)));
    assert_eq!(step.print, None);
    let phase = match step.next {
        CommandNext::SleepThenSend(time, request, phase) => {
            assert_eq!(time, Duration::from_millis(200));
            assert_eq!(request, ControlRequest::GetNodeInfo);
            phase
        }
        other => panic!("{other:?}"),
    };
    assert_eq!(phase, CommandPhase::Poll(node_ref()));

    let running = ControlRequestReply::NodeInfoList(vec![info(UUID, "camera")]);
    let step = kill.execute(phase, CommandEvent::Reply(running));
    assert_eq!(step.print, None);
    assert!(matches!(step.next, CommandNext::Enter(CommandPhase::Clock(_))));

    let restarting = NodeInfo { restarting: true, ..info(UUID, "camera") };
    let exited = ControlRequestReply::NodeInfoList(vec![info(UUID, "other"), restarting]);
    let step = kill.execute(CommandPhase::Poll(node_ref()), CommandEvent::Reply(exited));
    assert_eq!(printed_at_end(step), "Node `camera` process has exited.");
}

#[test]
fn kill_gives_up_at_its_timeout() {
    let step = kill(true).execute(
        CommandPhase::Clock(node_ref()),
        CommandEvent::Elapsed(Duration::from_secs(30)),
    );
    match &step.next {
        CommandNext::Fail(CommandError::Wait(WaitError::TimedOut { timeout, .. })) => {
            assert_eq!(*timeout, Duration::from_secs(30))
        }
        other => panic!("{other:?}"),
    }
    assert_eq!(
        failure(step, "30.0"),
        "Timed out after 30.0s waiting for node `camera` to become killed"
    );
}

#[test]
fn kill_fails_when_the_poll_does() {
    let poll = |reply| kill(true).execute(CommandPhase::Poll(node_ref()), CommandEvent::Reply(reply));
    let elsewhere = ControlRequestReply::NodeInfoList(vec![info(UUID + 1, "camera")]);
    assert_eq!(
        failure(poll(elsewhere), ""),
        format!("Node `camera` not found in dataflow `{UUID_TEXT}` while waiting")
    );
    assert_eq!(
        failure(poll(ControlRequestReply::Error("down".to_string())), ""),
        "Error polling node info: down"
    );
    assert_eq!(
        failure(poll(ControlRequestReply::Other("x".to_string())), "x"),
        "Unexpected reply while polling node info: x"
    );
}

#[test]
fn failed_requests_end_the_commands() {
    let not_sent = || CommandEvent::Failed(RequestFailure::NotSent);
    let not_parsed = || CommandEvent::Failed(RequestFailure::NotParsed);
    assert_eq!(
        failure(stop().execute(CommandPhase::Reply, not_sent()), ""),
        "failed to send node stop request to coordinator"
    );
    assert_eq!(
        failure(start().execute(CommandPhase::Reply, not_sent()), ""),
        "failed to send node start request to coordinator"
    );
    assert_eq!(
        failure(kill(true).execute(CommandPhase::Reply, not_sent()), ""),
        "failed to send node kill request to coordinator"
    );
    for step in [
        stop().execute(CommandPhase::Reply, not_parsed()),
        start().execute(CommandPhase::Reply, not_parsed()),
        kill(false).execute(CommandPhase::Reply, not_parsed()),
    ] {
        assert_eq!(failure(step, ""), "failed to parse reply");
    }
    let poll = |event| kill(true).execute(CommandPhase::Poll(node_ref()), event);
    assert_eq!(failure(poll(not_sent()), ""), "failed to poll node info from coordinator");
    assert_eq!(failure(poll(not_parsed()), ""), "failed to parse node info reply");
}

#[test]
fn only_a_kill_waits() {
    let clock = CommandPhase::Clock(node_ref());
    let poll = CommandPhase::Poll(node_ref());
    let stop: Node<u8> = Node::Stop(stop());
    let kill: Node<u8> = Node::Kill(kill(true));
    assert!(stop.goes_through(&CommandPhase::Resolve) && stop.goes_through(&CommandPhase::Reply));
    assert!(!stop.goes_through(&clock) && !stop.goes_through(&poll));
    assert!(kill.goes_through(&CommandPhase::Reply));
    assert!(kill.goes_through(&clock) && kill.goes_through(&poll));
}

#[test]
fn commands_are_dispatched() {
    let dataflow = || CommandEvent::Dataflow(UUID);
    let sent = |node: Node<u8>| {
        node.execute(CommandPhase::Resolve, dataflow()).map(|step| match step.next {
            CommandNext::Send(request, _) => request,
            other => panic!("{other:?}"),
        })
    };
    assert_eq!(sent(Node::List(1)), None);
    assert!(matches!(sent(Node::Stop(stop())), Some(ControlRequest::NodeStop { .. })));
    assert!(matches!(sent(Node::Start(start())), Some(ControlRequest::NodeStart { .. })));
    assert!(matches!(sent(Node::Kill(kill(true))), Some(ControlRequest::NodeKill { .. })));
}

#[test]
fn phases_expect_their_events() {
    let reply = || CommandEvent::Reply(ControlRequestReply::Error(String::new()));
    let elapsed = || CommandEvent::Elapsed(Duration::from_secs(1));
    assert!(CommandPhase::Resolve.expects(&CommandEvent::Dataflow(1)));
    assert!(!CommandPhase::Resolve.expects(&reply()));
    assert!(CommandPhase::Reply.expects(&reply()));
    assert!(!CommandPhase::Reply.expects(&elapsed()));
    let failed = CommandEvent::Failed(RequestFailure::NotSent);
    assert!(CommandPhase::Reply.expects(&failed));
    assert!(CommandPhase::Poll(node_ref()).expects(&failed));
    assert!(!CommandPhase::Resolve.expects(&failed));
    assert!(!CommandPhase::Clock(node_ref()).expects(&failed));
    assert!(CommandPhase::Clock(node_ref()).expects(&elapsed()));
    assert!(!CommandPhase::Clock(node_ref()).expects(&reply()));
    assert!(CommandPhase::Poll(node_ref()).expects(&reply()));
    assert!(!CommandPhase::Poll(node_ref()).expects(&CommandEvent::Dataflow(1)));
}

#[test]
fn node_states() {
    let node = info(UUID, "camera");
    assert!(is_running(&node));
    assert!(!is_killed(&node));
    assert!(!is_manually_stopped(&node));
    let node = NodeInfo { has_metrics: false, manually_stopped: true, ..node };
    assert!(!is_running(&node));
    assert!(is_killed(&node));
    assert!(is_manually_stopped(&node));
    assert!(is_killed(&NodeInfo { stopped: true, ..info(UUID, "camera") }));
    assert!(is_killed(&NodeInfo { restarting: true, ..info(UUID, "camera") }));
}

#[test]
fn wait_looks_at_the_first_entry_of_the_node() {
    let stopped = NodeInfo { manually_stopped: true, ..info(UUID, "camera") };
    let list = || {
        let stopped = NodeInfo { manually_stopped: true, ..info(UUID, "camera") };
        vec![info(UUID, "other"), stopped, info(UUID, "camera")]
    };
    assert!(is_manually_stopped(&stopped));
    let turn = |infos, wanted: fn(&NodeInfo) -> bool| {
        wait_for_node_state(
            WaitEvent::Reply(ControlRequestReply::NodeInfoList(infos)),
            UUID,
            &"camera".to_string(),
            wanted,
            Duration::from_secs(1),
            "stopped",
        )
    };
    assert!(matches!(turn(list(), is_manually_stopped), WaitStep::Reached));
    let mut reversed = list();
    reversed.reverse();
    assert!(matches!(turn(reversed, is_manually_stopped), WaitStep::Measure));
}

#[test]
fn wait_without_time_never_polls() {
    let step = wait_for_node_state(
        WaitEvent::Elapsed(Duration::from_secs(0)),
        UUID,
        &"camera".to_string(),
        is_running,
        Duration::from_secs(0),
        "running",
    );
    match step {
        WaitStep::Fail(error) => assert_eq!(
            error.message("0.0"),
            "Timed out after 0.0s waiting for node `camera` to become running"
        ),
        other => panic!("{other:?}"),
    }
}

/// Runs a wait on a clock that moves by 200 ms per round. Returns the number of polls, and whether the
/// node was reached.
fn run_wait(timeout: Duration, reached_at: u64) -> (u64, bool) {
    let mut polls = 0;
    loop {
        let turn = |event| {
            wait_for_node_state(event, UUID, &"camera".to_string(), is_killed, timeout, "killed")
        };
        match turn(WaitEvent::Elapsed(Duration::from_millis(200 * polls))) {
            WaitStep::Poll => {}
            WaitStep::Fail(_) => return (polls, false),
            other => panic!("{other:?}"),
        }
        polls += 1;
        let node = NodeInfo { stopped: polls >= reached_at, ..info(UUID, "camera") };
        match turn(WaitEvent::Reply(ControlRequestReply::NodeInfoList(vec![node]))) {
            WaitStep::Measure => {}
            WaitStep::Reached => return (polls, true),
            other => panic!("{other:?}"),
        }
    }
}

#[test]
fn wait_succeeds_exactly_if_reached_in_time() {
    assert_eq!(run_wait(Duration::from_millis(1000), 1), (1, true));
    assert_eq!(run_wait(Duration::from_millis(1000), 5), (5, true));
    assert_eq!(run_wait(Duration::from_millis(1000), 6), (5, false));
}

#[test]
fn number_of_polls_is_bounded() {
    assert_eq!(run_wait(Duration::from_millis(1000), u64::MAX), (5, false));
    assert_eq!(run_wait(Duration::from_millis(1001), u64::MAX), (6, false));
    assert_eq!(run_wait(Duration::from_millis(1), u64::MAX), (1, false));
    assert_eq!(run_wait(Duration::from_millis(0), u64::MAX), (0, false));
}

#[test]
fn failed_poll_ends_the_wait() {
    let failed = |failure| {
        wait_for_node_state(
            WaitEvent::Failed(failure),
            UUID,
            &"camera".to_string(),
            is_running,
            Duration::from_secs(1),
            "running",
        )
    };
    match failed(RequestFailure::NotSent) {
        WaitStep::Fail(error) => {
            assert_eq!(error.message(""), "failed to poll node info from coordinator")
        }
        other => panic!("{other:?}"),
    }
    match failed(RequestFailure::NotParsed) {
        WaitStep::Fail(error) => assert_eq!(error.message(""), "failed to parse node info reply"),
        other => panic!("{other:?}"),
    }
}
