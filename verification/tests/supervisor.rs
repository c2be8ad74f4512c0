use dora_nodes::logging::{LogLevel, LogTarget};
use dora_nodes::node::{
    CoreNodeKind, CustomNode, NodeExitStatus, NodeKind, PreparedNode, ResolvedNode, RestartPolicy,
};
use dora_nodes::supervisor::{
    Awaited, Effect, LoopEvent, NodeCommand, NodeProcessFinished, NodeResult, Phase, Resume,
    Supervisor,
};
use dora_nodes::time::{Duration, Instant};

const DATAFLOW: u128 = 7;

/// The receiver of process operations is a number here.
type Rx = u32;

fn custom(restart_policy: RestartPolicy) -> CustomNode {
    CustomNode {
        restart_policy,
        restart_sec: None,
        start_limit_burst: None,
        start_limit_interval_sec: None,
    }
}

fn node_of(kind: CoreNodeKind) -> PreparedNode {
    PreparedNode {
        command: None,
        spawn_error_msg: "failed to spawn".to_string(),
        dataflow_id: DATAFLOW,
        node: ResolvedNode { id: "camera".to_string(), kind, dynamic: false },
        node_config: "{\"node_id\":\"camera\"}".to_string(),
    }
}

fn supervise(custom: CustomNode) -> Supervisor<Rx> {
    node_of(CoreNodeKind::Custom(custom)).spawn(NodeKind::Spawned { pid: 1 }).1
}

fn finished(exit_status: NodeExitStatus, op_rx: Rx, disabled: bool, secs: u64) -> LoopEvent<Rx> {
    LoopEvent::Finished {
        finished: NodeProcessFinished { exit_status, op_rx },
        restart_disabled: disabled,
        now: Instant::after_start(Duration::from_secs(secs)),
    }
}

fn failure() -> NodeExitStatus {
    NodeExitStatus::ExitCode(1)
}

/// Feeds an event in, and puts what is to be done into words.
fn feed(s: &mut Supervisor<Rx>, event: LoopEvent<Rx>) -> Vec<String> {
    assert!(s.expects(&event));
    s.restart_loop(event).into_iter().map(words).collect()
}

fn words(effect: Effect<Rx>) -> String {
    match effect {
        Effect::Log(line) => {
            assert_eq!(line.target, LogTarget::Daemon);
            format!("{:?}: {}", line.level, line.message)
        }
        Effect::Report(NodeResult {
            dataflow_id,
            node_id,
            exit_status,
            dynamic_node,
            restart,
            manually_stopped,
        }) => {
            assert_eq!(dataflow_id, DATAFLOW);
            assert_eq!(node_id, "camera");
            assert!(!dynamic_node);
            format!("{exit_status:?} restart={restart} manually_stopped={manually_stopped}")
        }
        Effect::TraceFailure { dataflow_id, node_id, exit_status } => {
            assert_eq!(dataflow_id, DATAFLOW);
            assert_eq!(node_id, "camera");
            format!("trace {exit_status:?}")
        }
        Effect::Respawn(op_rx) => format!("respawn {op_rx}"),
        Effect::StorePid(pid) => format!("pid {pid}"),
    }
}

fn command(c: NodeCommand) -> LoopEvent<Rx> {
    LoopEvent::Command(c)
}

fn nothing() -> Vec<String> {
    Vec::new()
}

#[test]
fn always_restarts_after_success_and_failure() {
    let mut s = supervise(custom(RestartPolicy::Always));
    assert_eq!(s.awaited(), Awaited::ExitOrCommand);
    assert_eq!(
        feed(&mut s, finished(NodeExitStatus::Success, 5, false, 0)),
        vec!["Success restart=true manually_stopped=false"]
    );
    assert_eq!(s.phase(), Phase::Checking { success: true });
    assert_eq!(s.awaited(), Awaited::RestartDisabled);
    assert_eq!(
        feed(&mut s, LoopEvent::RestartDisabled(false)),
        vec!["Info: restarting node after successful exit", "respawn 5"]
    );
    assert_eq!(s.awaited(), Awaited::Respawn);
    assert_eq!(feed(&mut s, LoopEvent::Respawned(NodeKind::Spawned { pid: 42 })), vec!["pid 42"]);
    assert_eq!(s.phase(), Phase::Running);
    assert_eq!(
        feed(&mut s, finished(failure(), 6, false, 1)),
        vec!["trace ExitCode(1)", "ExitCode(1) restart=true manually_stopped=false"]
    );
    assert_eq!(
        feed(&mut s, LoopEvent::RestartDisabled(false)),
        vec!["Warn: restarting node after failure", "respawn 6"]
    );
}

#[test]
fn on_failure_restarts_only_after_failure() {
    let mut s = supervise(custom(RestartPolicy::OnFailure));
    assert_eq!(
        feed(&mut s, finished(NodeExitStatus::Success, 5, false, 0)),
        vec!["Success restart=false manually_stopped=false"]
    );
    assert_eq!(s.awaited(), Awaited::Nothing);

    let mut s = supervise(custom(RestartPolicy::OnFailure));
    assert_eq!(
        feed(&mut s, finished(NodeExitStatus::Signal(9), 5, false, 0)),
        vec!["trace Signal(9)", "Signal(9) restart=true manually_stopped=false"]
    );
    assert_eq!(s.phase(), Phase::Checking { success: false });
}

#[test]
fn never_policy_and_runtime_nodes_do_not_restart() {
    let mut s = supervise(custom(RestartPolicy::Never));
    assert_eq!(
        feed(&mut s, finished(failure(), 5, false, 0)),
        vec!["trace ExitCode(1)", "ExitCode(1) restart=false manually_stopped=false"]
    );
    assert_eq!(s.phase(), Phase::Ended);

    let mut s = node_of(CoreNodeKind::Runtime).spawn::<Rx>(NodeKind::Spawned { pid: 1 }).1;
    feed(&mut s, finished(failure(), 5, false, 0));
    assert_eq!(s.phase(), Phase::Ended);
}

#[test]
fn disabled_restart_is_explained() {
    let mut s = supervise(custom(RestartPolicy::Always));
    assert_eq!(
        feed(&mut s, finished(failure(), 5, true, 0)),
        vec![
            "Info: not restarting node because all inputs are already closed",
            "trace ExitCode(1)",
            "ExitCode(1) restart=false manually_stopped=false",
        ]
    );
    assert_eq!(s.phase(), Phase::Ended);

    // nothing to explain where the policy asks for no restart
    let mut s = supervise(custom(RestartPolicy::Never));
    assert_eq!(
        feed(&mut s, finished(failure(), 5, true, 0)),
        vec!["trace ExitCode(1)", "ExitCode(1) restart=false manually_stopped=false"]
    );
}

#[test]
fn kill_restarts_according_to_policy() {
    let mut killed = supervise(custom(RestartPolicy::OnFailure));
    assert_eq!(feed(&mut killed, command(NodeCommand::Kill)), nothing());
    assert_eq!(killed.phase(), Phase::Killing);
    assert_eq!(killed.awaited(), Awaited::Exit);
    let after_kill = feed(&mut killed, finished(NodeExitStatus::Signal(9), 5, false, 0));

    let mut exited = supervise(custom(RestartPolicy::OnFailure));
    let after_exit = feed(&mut exited, finished(NodeExitStatus::Signal(9), 5, false, 0));
    assert_eq!(after_kill, after_exit);
    assert_eq!(killed.phase(), exited.phase());
}

#[test]
fn stop_parks_the_node_until_it_is_started() {
    let mut s = supervise(custom(RestartPolicy::Always));
    assert_eq!(feed(&mut s, command(NodeCommand::Stop)), nothing());
    assert_eq!(s.phase(), Phase::Stopping);
    assert_eq!(
        feed(&mut s, finished(failure(), 5, false, 0)),
        vec![
            "ExitCode(1) restart=false manually_stopped=true",
            "Info: node manually stopped, entering parked state",
        ]
    );
    assert_eq!(s.phase(), Phase::Parked { resume: Resume::Respawn });
    assert_eq!(s.awaited(), Awaited::Command);
    assert_eq!(feed(&mut s, command(NodeCommand::Stop)), nothing());
    assert_eq!(feed(&mut s, command(NodeCommand::Kill)), nothing());
    assert_eq!(s.phase(), Phase::Parked { resume: Resume::Respawn });
    assert_eq!(
        feed(&mut s, command(NodeCommand::Start)),
        vec!["Info: received start command, respawning node", "respawn 5"]
    );
    feed(&mut s, LoopEvent::Respawned(NodeKind::Spawned { pid: 2 }));
    assert_eq!(s.phase(), Phase::Running);
    // the policy is in force again
    assert_eq!(
        feed(&mut s, finished(failure(), 6, false, 1)),
        vec!["trace ExitCode(1)", "ExitCode(1) restart=true manually_stopped=false"]
    );
}

#[test]
fn start_while_running_changes_nothing() {
    let mut s = supervise(custom(RestartPolicy::Never));
    assert_eq!(feed(&mut s, command(NodeCommand::Start)), nothing());
    assert_eq!(s.phase(), Phase::Running);
}

#[test]
fn delay_comes_before_the_restart() {
    let mut s = supervise(CustomNode { restart_sec: Some(12), ..custom(RestartPolicy::Always) });
    assert_eq!(s.delay(), 12);
    assert_eq!(
        feed(&mut s, finished(failure(), 5, false, 0)),
        vec![
            "trace ExitCode(1)",
            "ExitCode(1) restart=true manually_stopped=false",
            "Info: waiting 12s before restarting node",
        ]
    );
    assert_eq!(s.phase(), Phase::Delaying { success: false });
    assert_eq!(s.awaited(), Awaited::DelayOrCommand);
    assert_eq!(feed(&mut s, command(NodeCommand::Kill)), nothing());
    assert_eq!(s.phase(), Phase::Delaying { success: false });
    assert_eq!(feed(&mut s, LoopEvent::DelayElapsed), nothing());
    assert_eq!(
        feed(&mut s, LoopEvent::RestartDisabled(true)),
        vec!["Info: restart disabled during delay, not restarting"]
    );
    assert_eq!(s.phase(), Phase::Ended);
}

#[test]
fn start_cuts_the_delay_short() {
    let mut s = supervise(CustomNode { restart_sec: Some(1), ..custom(RestartPolicy::Always) });
    feed(&mut s, finished(NodeExitStatus::Success, 5, false, 0));
    assert_eq!(
        feed(&mut s, command(NodeCommand::Start)),
        vec!["Info: start command received during restart delay, spawning immediately"]
    );
    assert_eq!(
        feed(&mut s, LoopEvent::RestartDisabled(false)),
        vec!["Info: restarting node after successful exit", "respawn 5"]
    );
}

#[test]
fn stop_during_the_delay_parks_the_node() {
    let mut s = supervise(CustomNode { restart_sec: Some(1), ..custom(RestartPolicy::Always) });
    feed(&mut s, finished(failure(), 5, false, 0));
    assert_eq!(
        feed(&mut s, command(NodeCommand::Stop)),
        vec![
            "Info: stop command received during restart delay, entering parked state",
            "Success restart=false manually_stopped=true",
        ]
    );
    assert_eq!(s.phase(), Phase::Parked { resume: Resume::Check { success: false } });
    assert_eq!(
        feed(&mut s, command(NodeCommand::Start)),
        vec!["Info: received start command, respawning node"]
    );
    assert_eq!(
        feed(&mut s, LoopEvent::RestartDisabled(false)),
        vec!["Warn: restarting node after failure", "respawn 5"]
    );
}

#[test]
fn rate_limit_ends_a_crash_loop() {
    let mut s = supervise(CustomNode {
        start_limit_burst: Some(2),
        start_limit_interval_sec: Some(60),
        ..custom(RestartPolicy::Always)
    });
    for i in 0..2 {
        assert_eq!(
            feed(&mut s, finished(failure(), 5, false, i)),
            vec!["trace ExitCode(1)", "ExitCode(1) restart=true manually_stopped=false"]
        );
        feed(&mut s, LoopEvent::RestartDisabled(false));
        feed(&mut s, LoopEvent::Respawned(NodeKind::Spawned { pid: 3 }));
    }
    assert_eq!(
        feed(&mut s, finished(failure(), 5, false, 59)),
        vec![
            "Error: node exceeded restart limit (2 restarts within 60s), giving up and leaving it stopped",
            "trace ExitCode(1)",
            "ExitCode(1) restart=false manually_stopped=false",
        ]
    );
    assert_eq!(s.phase(), Phase::Ended);
}

#[test]
fn rate_limit_lets_slow_failures_pass() {
    let mut s = supervise(CustomNode {
        start_limit_burst: Some(1),
        start_limit_interval_sec: Some(10),
        ..custom(RestartPolicy::OnFailure)
    });
    for i in 0..20 {
        assert_eq!(
            feed(&mut s, finished(failure(), 5, false, i * 10)),
            vec!["trace ExitCode(1)", "ExitCode(1) restart=true manually_stopped=false"]
        );
        feed(&mut s, LoopEvent::RestartDisabled(false));
        feed(&mut s, LoopEvent::Respawned(NodeKind::Spawned { pid: 3 }));
    }
}

#[test]
fn manual_stops_do_not_count_towards_the_limit() {
    let mut s = supervise(CustomNode {
        start_limit_burst: Some(1),
        start_limit_interval_sec: Some(60),
        ..custom(RestartPolicy::Always)
    });
    for i in 0..5 {
        feed(&mut s, command(NodeCommand::Stop));
        feed(&mut s, finished(failure(), 5, false, i));
        feed(&mut s, command(NodeCommand::Start));
        feed(&mut s, LoopEvent::Respawned(NodeKind::Spawned { pid: 3 }));
    }
    assert_eq!(
        feed(&mut s, finished(failure(), 5, false, 6)),
        vec!["trace ExitCode(1)", "ExitCode(1) restart=true manually_stopped=false"]
    );
}

#[test]
fn failed_respawn_ends_the_loop() {
    for (event, message) in [
        (LoopEvent::Respawned(NodeKind::Dynamic), "Error: cannot restart dynamic node"),
        (
            LoopEvent::RespawnFailed("no such file".to_string()),
            "Error: failed to restart node: no such file",
        ),
    ] {
        let mut s = supervise(custom(RestartPolicy::Always));
        feed(&mut s, finished(failure(), 5, false, 0));
        feed(&mut s, LoopEvent::RestartDisabled(false));
        assert_eq!(feed(&mut s, event), vec![message]);
        assert_eq!(s.phase(), Phase::Ended);
    }
}

#[test]
fn lost_signals_end_the_loop() {
    let lost = "Error: failed to receive finished signal";
    let mut s = supervise(custom(RestartPolicy::Always));
    assert_eq!(feed(&mut s, LoopEvent::FinishLost), vec![lost.to_string()]);
    assert_eq!(s.phase(), Phase::Ended);

    let mut s = supervise(custom(RestartPolicy::Always));
    feed(&mut s, command(NodeCommand::Stop));
    assert_eq!(feed(&mut s, LoopEvent::FinishLost), vec![format!("{lost} after stop command")]);

    let mut s = supervise(custom(RestartPolicy::Always));
    feed(&mut s, command(NodeCommand::Kill));
    assert_eq!(feed(&mut s, LoopEvent::FinishLost), vec![format!("{lost} after kill command")]);
}

#[test]
fn closed_command_channel_ends_the_loop() {
    let mut running = supervise(custom(RestartPolicy::Always));
    assert_eq!(feed(&mut running, LoopEvent::CommandsClosed), nothing());
    assert_eq!(running.phase(), Phase::Ended);

    let mut delaying =
        supervise(CustomNode { restart_sec: Some(1), ..custom(RestartPolicy::Always) });
    feed(&mut delaying, finished(failure(), 5, false, 0));
    assert_eq!(feed(&mut delaying, LoopEvent::CommandsClosed), nothing());
    assert_eq!(delaying.phase(), Phase::Ended);

    let mut parked = supervise(custom(RestartPolicy::Always));
    feed(&mut parked, command(NodeCommand::Stop));
    feed(&mut parked, finished(failure(), 5, false, 0));
    assert_eq!(feed(&mut parked, LoopEvent::CommandsClosed), nothing());
    assert_eq!(parked.phase(), Phase::Ended);
    assert!(!parked.expects(&command(NodeCommand::Start)));
}

#[test]
fn events_occur_only_where_they_are_awaited() {
    let mut s = supervise(custom(RestartPolicy::Always));
    assert!(!s.expects(&LoopEvent::DelayElapsed));
    assert!(!s.expects(&LoopEvent::RestartDisabled(false)));
    feed(&mut s, command(NodeCommand::Stop));
    // commands wait until the process has ended
    assert!(!s.expects(&command(NodeCommand::Start)));
    assert!(!s.expects(&LoopEvent::CommandsClosed));
}

#[test]
fn spawned_node_is_on_record() {
    let node = node_of(CoreNodeKind::Custom(custom(RestartPolicy::OnFailure)));
    let (running, _) = node.clone().spawn::<Rx>(NodeKind::Spawned { pid: 77 });
    assert!(running.process);
    assert_eq!(running.pid, Some(77));
    assert_eq!(running.restart_policy, RestartPolicy::OnFailure);
    assert!(!running.disable_restart);
    assert!(!running.manually_stopped);
    assert!(!running.grace_timer);
    assert_eq!(running.node_config, "{\"node_id\":\"camera\"}");
    let (running, _) = node.spawn::<Rx>(NodeKind::Dynamic);
    assert!(!running.process);
    assert_eq!(running.pid, None);
}

#[test]
fn settings_of_a_node() {
    let mut node = node_of(CoreNodeKind::Custom(CustomNode {
        restart_policy: RestartPolicy::Always,
        restart_sec: Some(3),
        start_limit_burst: Some(4),
        start_limit_interval_sec: Some(5),
    }));
    node.node.dynamic = true;
    assert_eq!(node.node_id(), "camera");
    assert!(node.dynamic());
    assert_eq!(node.restart_policy(), RestartPolicy::Always);
    assert_eq!(node.restart_sec(), 3);
    assert_eq!(node.start_limit(), Some((4, Duration::from_secs(5))));

    let runtime = node_of(CoreNodeKind::Runtime);
    assert!(!runtime.dynamic());
    assert_eq!(runtime.restart_policy(), RestartPolicy::Never);
    assert_eq!(runtime.restart_sec(), 0);
    assert_eq!(runtime.start_limit(), None);
}

#[test]
fn start_limit_needs_both_settings() {
    for (burst, interval) in
        [(None, Some(5)), (Some(4), None), (Some(0), Some(5)), (Some(4), Some(0)), (None, None)]
    {
        let node = node_of(CoreNodeKind::Custom(CustomNode {
            start_limit_burst: burst,
            start_limit_interval_sec: interval,
            ..custom(RestartPolicy::Always)
        }));
        assert_eq!(node.start_limit(), None);
    }
}

#[test]
fn log_levels_and_targets_have_names() {
    assert_eq!(LogTarget::Daemon.name(), "daemon");
    assert_eq!(LogTarget::Spawner.name(), "spawner");
    assert_ne!(LogLevel::Info, LogLevel::Warn);
    assert!(NodeExitStatus::Success.is_success());
    assert!(!NodeExitStatus::Unknown.is_success());
    assert!(!NodeExitStatus::IoError("gone".to_string()).is_success());
}

#[test]
fn extra_kills_in_the_delay_change_nothing() {
    let course = |kills: usize| {
        let mut s =
            supervise(CustomNode { restart_sec: Some(3), ..custom(RestartPolicy::Always) });
        let mut done = feed(&mut s, finished(failure(), 5, false, 0));
        for _ in 0..kills {
            done.extend(feed(&mut s, command(NodeCommand::Kill)));
        }
        done.extend(feed(&mut s, LoopEvent::DelayElapsed));
        done.extend(feed(&mut s, LoopEvent::RestartDisabled(false)));
        (done, s.phase())
    };
    assert_eq!(course(0), course(1));
    assert_eq!(course(0), course(4));
    assert_eq!(course(0).1, Phase::Respawning);
}

#[test]
fn stored_pid_is_that_of_the_last_process() {
    let mut s = supervise(custom(RestartPolicy::Always));
    let mut done = Vec::new();
    for pid in [11, 12, 13] {
        done.extend(feed(&mut s, finished(NodeExitStatus::Success, 5, false, 0)));
        done.extend(feed(&mut s, LoopEvent::RestartDisabled(false)));
        done.extend(feed(&mut s, LoopEvent::Respawned(NodeKind::Spawned { pid })));
    }
    let stored: Vec<String> = done.into_iter().filter(|e| e.starts_with("pid")).collect();
    assert_eq!(stored, vec!["pid 11", "pid 12", "pid 13"]);
}

#[test]
fn disabling_stops_a_restart_that_is_under_way() {
    let mut s = supervise(CustomNode { restart_sec: Some(3), ..custom(RestartPolicy::Always) });
    feed(&mut s, finished(NodeExitStatus::Success, 5, false, 0));
    feed(&mut s, LoopEvent::DelayElapsed);
    assert_eq!(
        feed(&mut s, LoopEvent::RestartDisabled(true)),
        vec!["Info: restart disabled during delay, not restarting"]
    );
    assert_eq!(s.awaited(), Awaited::Nothing);
}

#[test]
fn stopped_nodes_leave_no_trace_of_a_failure() {
    let mut s = supervise(custom(RestartPolicy::Always));
    feed(&mut s, command(NodeCommand::Stop));
    assert_eq!(
        feed(&mut s, finished(NodeExitStatus::Unknown, 5, false, 0)),
        vec![
            "Unknown restart=false manually_stopped=true",
            "Info: node manually stopped, entering parked state",
        ]
    );
    let status = NodeExitStatus::IoError("gone".to_string());
    assert_eq!(status.clone(), status);
}

#[test]
fn kills_among_other_commands_in_the_delay_change_nothing() {
    let course = |kills: bool| {
        let mut s =
            supervise(CustomNode { restart_sec: Some(3), ..custom(RestartPolicy::Always) });
        let mut done = feed(&mut s, finished(failure(), 5, false, 0));
        let events = [NodeCommand::Stop, NodeCommand::Stop, NodeCommand::Start];
        for event in events {
            if kills {
                done.extend(feed(&mut s, command(NodeCommand::Kill)));
            }
            done.extend(feed(&mut s, command(event)));
        }
        done.extend(feed(&mut s, LoopEvent::RestartDisabled(false)));
        (done, s.phase())
    };
    assert_eq!(course(true), course(false));
    assert_eq!(course(true).1, Phase::Respawning);
}

#[test]
fn normal_exit_is_handled_like_the_event() {
    let mut direct = supervise(custom(RestartPolicy::Always));
    let mut fed = supervise(custom(RestartPolicy::Always));
    let effects = direct.handle_normal_exit(
        NodeProcessFinished { exit_status: failure(), op_rx: 5 },
        false,
        Instant::after_start(Duration::from_secs(1)),
    );
    let effects: Vec<String> = effects.into_iter().map(words).collect();
    assert_eq!(effects, feed(&mut fed, finished(failure(), 5, false, 1)));
    assert_eq!(direct.phase(), fed.phase());
    assert_eq!(direct.phase(), Phase::Checking { success: false });
}
