use crossbeam::queue::ArrayQueue;
use dora_nodes::log_message::{log_message, LogLevelOrStdout, LogMessage, LogOrigin};
use dora_nodes::logging::{LogLevel, LogLine, LogTarget};
use dora_nodes::node::{
    CommandLine, CoreNodeKind, NodeExitStatus, NodeKind, PreparedNode, ResolvedNode,
};
use dora_nodes::output::{
    after_write, decode_output, plan_output, stderr_chunk, stdout_chunk, Decoded, OutputId, OutputStep,
    ReadOutcome,
};
use dora_nodes::recent::remember;
use dora_nodes::sample::Sample;
use dora_nodes::spawn::{watch_process, SpawnEvent, SpawnStep, WatchEvent, WatchStep};
use dora_nodes::text::{decimal_text, join_lines};

fn prepared(command: Option<CommandLine>) -> PreparedNode {
    PreparedNode {
        command,
        spawn_error_msg: "failed to spawn node `camera`".to_string(),
        dataflow_id: 1,
        node: ResolvedNode {
            id: "camera".to_string(),
            kind: CoreNodeKind::Runtime,
            dynamic: false,
        },
        node_config: String::new(),
    }
}

#[test]
fn launch_is_logged() {
    let node = prepared(Some(CommandLine {
        program: "python3".to_string(),
        current_dir: Some("/tmp/work".to_string()),
    }));
    match node.spawn_inner(SpawnEvent::Begin) {
        SpawnStep::Launch(line) => {
            assert_eq!(line.level, LogLevel::Info);
            assert_eq!(line.target, LogTarget::Spawner);
            assert_eq!(line.message, "spawning `python3` in `/tmp/work`");
        }
        other => panic!("{other:?}"),
    }
    let node = prepared(Some(CommandLine { program: "a b".to_string(), current_dir: None }));
    match node.spawn_inner(SpawnEvent::Begin) {
        SpawnStep::Launch(line) => assert_eq!(line.message, "spawning `a b` in `<unknown>`"),
        other => panic!("{other:?}"),
    }
}

#[test]
fn node_without_command_attaches_itself() {
    assert!(matches!(
        prepared(None).spawn_inner(SpawnEvent::Begin),
        SpawnStep::Attach(NodeKind::Dynamic)
    ));
}

#[test]
fn launched_process_is_served() {
    match prepared(None).spawn_inner(SpawnEvent::Launched { pid: Some(4294967295) }) {
        SpawnStep::Serve(kind, line) => {
            assert_eq!(kind, NodeKind::Spawned { pid: 4294967295 });
            assert_eq!(line.level, LogLevel::Debug);
            assert_eq!(line.target, LogTarget::Spawner);
            assert_eq!(line.message, "spawned node with pid 4294967295");
        }
        other => panic!("{other:?}"),
    }
    match prepared(None).spawn_inner(SpawnEvent::Launched { pid: None }) {
        SpawnStep::Fail(message) => assert_eq!(
            message,
            "Could not get the pid for the just spawned node and indicate that there is an error"
        ),
        other => panic!("{other:?}"),
    }
}

#[test]
fn process_is_watched_until_it_ends() {
    assert!(matches!(watch_process(WatchEvent::Operation(9)), WatchStep::Execute(9)));
    assert!(matches!(
        watch_process::<u8>(WatchEvent::OperationsClosed),
        WatchStep::AwaitExit
    ));
    assert!(matches!(
        watch_process::<u8>(WatchEvent::Exited(NodeExitStatus::ExitCode(3))),
        WatchStep::Finish(NodeExitStatus::ExitCode(3))
    ));
}

#[test]
fn valid_output_is_decoded() {
    let decoded = decode_output("größer\n".as_bytes().to_vec());
    assert_eq!(decoded.text, "größer\n");
    assert_eq!(decoded.error, None);
    let decoded = decode_output(Vec::new());
    assert_eq!(decoded.text, "");
    assert_eq!(decoded.error, None);
}

#[test]
fn invalid_output_is_replaced() {
    let decoded = decode_output(vec![b'a', 0xff, b'b']);
    assert_eq!(decoded.text, "a\u{fffd}b");
    assert_eq!(
        decoded.error.as_deref(),
        Some("invalid utf-8 sequence of 1 bytes from index 1")
    );
}

fn text(s: &str) -> Decoded {
    Decoded { text: s.to_string(), error: None }
}

fn messages(lines: Vec<LogLine>) -> Vec<String> {
    lines
        .into_iter()
        .map(|line| {
            assert_eq!(line.level, LogLevel::Warn);
            assert_eq!(line.target, LogTarget::Daemon);
            line.message
        })
        .collect()
}

#[test]
fn stdout_is_read_until_its_end() {
    let chunk = stdout_chunk(ReadOutcome::Line, text("hello\n"));
    assert!(!chunk.finished);
    assert_eq!(chunk.text, "hello\n");
    assert!(chunk.warnings.is_empty());

    let chunk = stdout_chunk(ReadOutcome::End, text(""));
    assert!(chunk.finished);
    assert_eq!(chunk.text, "");

    // a failed read does not end the reading
    let chunk = stdout_chunk(ReadOutcome::Failed("broken".to_string()), text("rest"));
    assert!(!chunk.finished);
    assert_eq!(chunk.text, "rest");
    assert_eq!(messages(chunk.warnings), vec!["broken"]);
}

#[test]
fn invalid_stdout_is_warned_about() {
    let decoded = Decoded { text: "a?b".to_string(), error: Some("bad byte".to_string()) };
    let chunk = stdout_chunk(ReadOutcome::Failed("broken".to_string()), decoded);
    assert_eq!(chunk.text, "a?b");
    assert_eq!(
        messages(chunk.warnings),
        vec!["broken", "stdout not valid UTF-8 string (bad byte: a?b"]
    );
}

#[test]
fn stderr_is_read_and_remembered() {
    let mut recent = ArrayQueue::new(2);
    let chunk = stderr_chunk("camera", ReadOutcome::Line, text("one\n"), &mut recent);
    assert!(!chunk.finished);
    assert_eq!(chunk.text, "one\n");
    assert!(chunk.warnings.is_empty());

    let decoded = Decoded { text: "a?b".to_string(), error: Some("bad byte".to_string()) };
    let chunk = stderr_chunk("camera", ReadOutcome::Line, decoded, &mut recent);
    assert_eq!(
        chunk.warnings,
        vec!["stderr not valid UTF-8 string (node camera): bad byte: a?b"]
    );

    // a failed read ends the reading
    let failed = ReadOutcome::Failed("broken".to_string());
    let chunk = stderr_chunk("camera", failed, text("three"), &mut recent);
    assert!(chunk.finished);
    assert_eq!(chunk.warnings, vec!["broken"]);
    assert_eq!(recent.pop().as_deref(), Some("a?b"));
    assert_eq!(recent.pop().as_deref(), Some("three"));
    assert_eq!(recent.pop(), None);

    let chunk = stderr_chunk("camera", ReadOutcome::End, text(""), &mut recent);
    assert!(chunk.finished);
    assert_eq!(recent.pop().as_deref(), Some(""));
}

#[test]
fn queue_keeps_the_latest() {
    let mut recent = ArrayQueue::new(3);
    for i in 0..10 {
        remember(&mut recent, format!("line {i}"));
    }
    assert_eq!(recent.len(), 3);
    for i in 7..10 {
        assert_eq!(recent.pop(), Some(format!("line {i}")));
    }
}

#[test]
fn lines_are_joined() {
    assert_eq!(join_lines(""), "");
    assert_eq!(join_lines("one\n"), "one");
    assert_eq!(join_lines("one\ntwo\n\nthree"), "onetwothree");
    assert_eq!(join_lines("one\r\ntwo\r\n"), "onetwo");
    assert_eq!(join_lines("a\rb\n"), "a\rb");
    assert_eq!(join_lines("a\r\r\nb"), "a\rb");
    assert_eq!(join_lines("tail\r"), "tail\r");
    for s in ["", "\n", "\r", "\r\n", "\n\r", "x\r\r\ny\n\nz\r", "ü\r\nö\n", "\r\n\r\n\r"] {
        assert_eq!(join_lines(s), s.lines().collect::<Vec<_>>().concat(), "{s:?}");
    }
}

#[test]
fn numbers_are_written_in_decimal() {
    assert_eq!(decimal_text(0), "0");
    assert_eq!(decimal_text(10), "10");
    assert_eq!(decimal_text(1205), "1205");
    assert_eq!(decimal_text(u64::MAX), u64::MAX.to_string());
}

#[test]
fn output_is_planned() {
    let node_id = "camera".to_string();
    assert_eq!(
        plan_output(&node_id, "one\ntwo\n", &Some("log".to_string()), false),
        vec![
            OutputStep::Send(OutputId {
                node_id: "camera".to_string(),
                data_id: "log".to_string()
            }),
            OutputStep::Write,
            OutputStep::Log("onetwo".to_string()),
            OutputStep::Sync,
        ]
    );
    assert_eq!(
        plan_output(&node_id, "one\n", &None, true),
        vec![OutputStep::Write, OutputStep::Sync]
    );
}

#[test]
fn pieces_decode_like_the_whole() {
    let whole = "größer\nüber\n€\n".as_bytes().to_vec();
    let pieces: Vec<Vec<u8>> = whole.split_inclusive(|b| *b == b'\n').map(<[u8]>::to_vec).collect();
    assert_eq!(pieces.len(), 3);
    let texts: Vec<String> = pieces.into_iter().map(|p| decode_output(p).text).collect();
    assert_eq!(texts.concat(), decode_output(whole).text);
}

#[test]
fn joined_text_is_one_line() {
    let joined = join_lines("{\"message\":\n\r\n\"x\"\r}\n");
    assert!(!joined.contains('\n'));
    assert_eq!(join_lines(&joined), joined);
}

#[test]
fn failed_write_is_logged() {
    assert!(after_write("hello\n", Ok(())).is_none());
    let line = after_write("hello\n", Err("disk full".to_string())).expect("a line");
    assert_eq!(line.level, LogLevel::Error);
    assert_eq!(line.target, LogTarget::Daemon);
    assert_eq!(line.message, "Could not log hello\n to file due to disk full");
}

fn origin() -> LogOrigin {
    LogOrigin { dataflow_id: 12, node_id: "camera".to_string(), daemon_id: "d1".to_string() }
}

#[test]
fn plain_line_becomes_a_stdout_message() {
    let message = log_message(None, "hello".to_string(), &origin(), "now".to_string());
    assert_eq!(
        message,
        LogMessage {
            build_id: None,
            dataflow_id: Some(12),
            node_id: Some("camera".to_string()),
            daemon_id: Some("d1".to_string()),
            level: LogLevelOrStdout::Stdout,
            target: None,
            module: None,
            file: None,
            line: None,
            message: "hello".to_string(),
            timestamp: "now".to_string(),
            fields: None,
        }
    );
}

#[test]
fn structured_line_keeps_its_content() {
    let parsed = LogMessage {
        build_id: Some(3),
        dataflow_id: None,
        node_id: Some("other".to_string()),
        daemon_id: None,
        level: LogLevelOrStdout::LogLevel(LogLevel::Warn),
        target: Some("t".to_string()),
        module: Some("m".to_string()),
        file: Some("f".to_string()),
        line: Some(8),
        message: "inner".to_string(),
        timestamp: "then".to_string(),
        fields: Some(vec![("k".to_string(), "v".to_string())]),
    };
    let message = log_message(Some(parsed), "outer".to_string(), &origin(), "now".to_string());
    assert_eq!(message.build_id, Some(3));
    assert_eq!(message.dataflow_id, Some(12));
    assert_eq!(message.node_id.as_deref(), Some("camera"));
    assert_eq!(message.daemon_id.as_deref(), Some("d1"));
    assert_eq!(message.level, LogLevelOrStdout::LogLevel(LogLevel::Warn));
    assert_eq!(message.message, "inner");
    assert_eq!(message.timestamp, "then");
    assert_eq!(message.line, Some(8));
    assert_eq!(message.fields, Some(vec![("k".to_string(), "v".to_string())]));
}

#[test]
fn sample_starts_zeroed_and_aligned() {
    let mut sample = Sample::zeroed(300);
    assert_eq!(sample.bytes_mut().to_vec(), vec![0; 300]);
    assert_eq!(sample.bytes_mut().as_ptr().align_offset(128), 0);
    sample.bytes_mut()[17] = 5;
    assert_eq!(sample.bytes_mut()[17], 5);
    assert_eq!(sample.bytes_mut()[18], 0);
    assert!(Sample::zeroed(0).bytes_mut().is_empty());
}

#[test]
fn dataflow_dir_is_named_by_the_uuid() {
    assert_eq!(
        prepared(None).dataflow_dir(),
        vec!["out".to_string(), "00000000-0000-0000-0000-000000000001".to_string()]
    );
}

#[test]
fn failed_launch_is_explained() {
    match prepared(None).spawn_inner(SpawnEvent::LaunchFailed) {
        SpawnStep::Fail(message) => assert_eq!(message, "failed to spawn node `camera`"),
        other => panic!("{other:?}"),
    }
}

#[test]
fn lines_of_valid_output_are_valid() {
    let whole = "gr\u{fc}n\n\u{1f600}\n\nend \u{20ac}";
    let pieces: Vec<Vec<u8>> =
        whole.as_bytes().split_inclusive(|byte| *byte == 10).map(|piece| piece.to_vec()).collect();
    assert_eq!(pieces.len(), 4);
    let mut text = String::new();
    for piece in pieces {
        let decoded = decode_output(piece);
        assert_eq!(decoded.error, None);
        text.push_str(&decoded.text);
    }
    assert_eq!(text, whole);
}
