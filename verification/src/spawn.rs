//! Spawning a node process and watching for its end.

use crate::logging::{LogLevel, LogLine, LogLineView, LogTarget};
use crate::node::{CommandLine, NodeExitStatus, NodeKind, PreparedNode};
use crate::text::{decimal, decimal_text, law_uuid_reads_back, uuid_form, uuid_text};
use vstd::prelude::*;

verus! {

/// How far the spawn of a node has come.
#[derive(Clone, Copy, Debug, PartialEq, Eq)]
pub enum SpawnEvent {
    /// Nothing has been done yet.
    Begin,
    /// The process was launched, under this id if it could be had.
    Launched { pid: Option<u32> },
    /// The process could not be launched.
    LaunchFailed,
}

/// What the spawn of a node goes on with.
#[derive(Debug)]
pub enum SpawnStep {
    /// Write to the node's log, then launch the process.
    Launch(LogLine),
    /// There is nothing to launch: the node attaches itself.
    Attach(NodeKind),
    /// Write to the node's log, then serve the process.
    Serve(NodeKind, LogLine),
    /// Give up, with this message.
    Fail(String),
}

/// What the log says before a command is run.
pub open spec fn launch_message(command: CommandLine) -> Seq<char> {
    "spawning `"@ + command.program@ + "` in `"@ + (match command.current_dir {
        Some(dir) => dir@,
        None => "<unknown>"@,
    }) + "`"@
}

impl PreparedNode {
    /// The next step of spawning the node.
    pub fn spawn_inner(&self, event: SpawnEvent) -> (step: SpawnStep)
        ensures
            match event {
                SpawnEvent::Begin => match self.command {
                    Some(command) => step matches SpawnStep::Launch(line) && line@ == (
                    LogLineView {
                        level: LogLevel::Info,
                        target: LogTarget::Spawner,
                        message: launch_message(command),
                    }),
                    None => step == SpawnStep::Attach(NodeKind::Dynamic),
                },
                SpawnEvent::Launched { pid: Some(pid) } => step matches SpawnStep::Serve(
                    kind,
                    line,
                ) && kind == (NodeKind::Spawned { pid }) && line@ == (LogLineView {
                    level: LogLevel::Debug,
                    target: LogTarget::Spawner,
                    message: "spawned node with pid "@ + decimal(pid as nat),
                }),
                SpawnEvent::Launched { pid: None } => step matches SpawnStep::Fail(message)
                    && message@
                    == "Could not get the pid for the just spawned node and indicate that there is an error"@,
                SpawnEvent::LaunchFailed => step matches SpawnStep::Fail(message) && message@
                    == self.spawn_error_msg@,
            },
    {
        match event {
            SpawnEvent::Begin => match &self.command {
                Some(command) => {
                    let dir = match &command.current_dir {
                        Some(dir) => dir.as_str(),
                        None => "<unknown>",
                    };
                    let message = "spawning `".to_owned().concat(command.program.as_str()).concat(
                        "` in `",
                    ).concat(dir).concat("`");
                    SpawnStep::Launch(
                        LogLine { level: LogLevel::Info, target: LogTarget::Spawner, message },
                    )
                },
                None => SpawnStep::Attach(NodeKind::Dynamic),
            },
            SpawnEvent::Launched { pid } => match pid {
                Some(pid) => {
                    let message = "spawned node with pid ".to_owned().concat(
                        decimal_text(pid as u64).as_str(),
                    );
                    SpawnStep::Serve(
                        NodeKind::Spawned { pid },
                        LogLine { level: LogLevel::Debug, target: LogTarget::Spawner, message },
                    )
                },
                None => SpawnStep::Fail(
                    "Could not get the pid for the just spawned node and indicate that there is an error".to_owned(),
                ),
            },
            SpawnEvent::LaunchFailed => SpawnStep::Fail(self.spawn_error_msg.clone()),
        }
    }
}

impl PreparedNode {
    /// The directory for the output of the node's dataflow, as steps from the working directory.
    pub fn dataflow_dir(&self) -> (steps: Vec<String>)
        ensures
            steps@.map_values(|step: String| step@) == seq!["out"@, uuid_form(self.dataflow_id)],
    {
        let mut steps: Vec<String> = Vec::new();
        steps.push("out".to_owned());
        steps.push(uuid_text(self.dataflow_id));
        assert(steps@.map_values(|step: String| step@) =~= seq![
            "out"@,
            uuid_form(self.dataflow_id),
        ]);
        steps
    }
}

/// What happens while a process runs. `Op` is an operation on the process.
#[derive(Debug)]
pub enum WatchEvent<Op> {
    Exited(NodeExitStatus),
    Operation(Op),
    /// No more operations can arrive.
    OperationsClosed,
}

/// What is done about it.
#[derive(Debug)]
pub enum WatchStep<Op> {
    /// The process is over.
    Finish(NodeExitStatus),
    /// Perform the operation, then go on watching for both.
    Execute(Op),
    /// From now on only the end of the process is awaited.
    AwaitExit,
}

/// One turn of watching a process: operations are performed until the process ends.
pub fn watch_process<Op>(event: WatchEvent<Op>) -> (step: WatchStep<Op>)
    ensures
        step == (match event {
            WatchEvent::Exited(status) => WatchStep::Finish(status),
            WatchEvent::Operation(op) => WatchStep::Execute(op),
            WatchEvent::OperationsClosed => WatchStep::AwaitExit,
        }),
{
    match event {
        WatchEvent::Exited(status) => WatchStep::Finish(status),
        WatchEvent::Operation(op) => WatchStep::Execute(op),
        WatchEvent::OperationsClosed => WatchStep::AwaitExit,
    }
}

/// A node with a command is launched, after a line in its log that names the program and where it
/// runs. A node without one attaches itself.
pub proof fn law_spawn_begins_with_the_command(node: PreparedNode, step: SpawnStep)
    requires
        call_ensures(PreparedNode::spawn_inner, (&node, SpawnEvent::Begin), step),
    ensures
        node.command is None <==> step is Attach,
        node.command is Some <==> step is Launch,
        step matches SpawnStep::Attach(kind) ==> kind is Dynamic,
        step matches SpawnStep::Launch(line) ==> {
            let command = node.command->0;
            &&& line.level is Info
            &&& line.target is Spawner
            &&& command.current_dir matches Some(dir) ==> line.message@ == "spawning `"@
                + command.program@ + "` in `"@ + dir@ + "`"@
            &&& command.current_dir is None ==> line.message@ == "spawning `"@ + command.program@
                + "` in `"@ + "<unknown>"@ + "`"@
        },
{
}

/// A process that was launched is served under its id, which is also logged, whatever the node is.
/// Without an id, or where the launch failed, the spawn fails and says why.
pub proof fn law_spawn_ends_with_the_process(
    node: PreparedNode,
    pid: u32,
    served: SpawnStep,
    nameless: SpawnStep,
    failed: SpawnStep,
)
    requires
        call_ensures(
            PreparedNode::spawn_inner,
            (&node, SpawnEvent::Launched { pid: Some(pid) }),
            served,
        ),
        call_ensures(PreparedNode::spawn_inner, (&node, SpawnEvent::Launched { pid: None }), nameless),
        call_ensures(PreparedNode::spawn_inner, (&node, SpawnEvent::LaunchFailed), failed),
    ensures
        served matches SpawnStep::Serve(kind, line) && kind == (NodeKind::Spawned { pid })
            && line.level is Debug && line.target is Spawner && line.message@
            == "spawned node with pid "@ + decimal(pid as nat),
        nameless matches SpawnStep::Fail(message) && message@
            == "Could not get the pid for the just spawned node and indicate that there is an error"@,
        failed matches SpawnStep::Fail(message) && message@ == node.spawn_error_msg@,
{
}

/// The output of two nodes goes to the same directory exactly if their dataflows are the same.
pub proof fn law_dataflow_has_its_directory(
    one: PreparedNode,
    other: PreparedNode,
    one_dir: Vec<String>,
    other_dir: Vec<String>,
)
    requires
        call_ensures(PreparedNode::dataflow_dir, (&one,), one_dir),
        call_ensures(PreparedNode::dataflow_dir, (&other,), other_dir),
    ensures
        one_dir@.len() == 2,
        one_dir@[0]@ == "out"@,
        one_dir@[1]@ == uuid_form(one.dataflow_id),
        other_dir@.len() == 2,
        one_dir@[0]@ == other_dir@[0]@,
        one_dir@[1]@ == other_dir@[1]@ <==> one.dataflow_id == other.dataflow_id,
{
    let texts = |step: String| step@;
    assert(one_dir@.map_values(texts).len() == 2 && other_dir@.map_values(texts).len() == 2);
    assert(one_dir@.map_values(texts)[0] == one_dir@[0]@);
    assert(one_dir@.map_values(texts)[1] == one_dir@[1]@);
    assert(other_dir@.map_values(texts)[0] == other_dir@[0]@);
    assert(other_dir@.map_values(texts)[1] == other_dir@[1]@);
    law_uuid_reads_back(one.dataflow_id);
    law_uuid_reads_back(other.dataflow_id);
}

/// The end of a process is passed on as it is, every operation is performed, and when no more of them
/// can come the end of the process is still awaited.
pub proof fn law_process_is_watched_to_its_end<Op>(
    status: NodeExitStatus,
    op: Op,
    exited: WatchStep<Op>,
    operated: WatchStep<Op>,
    closed: WatchStep<Op>,
)
    requires
        call_ensures(watch_process::<Op>, (WatchEvent::Exited(status),), exited),
        call_ensures(watch_process::<Op>, (WatchEvent::Operation(op),), operated),
        call_ensures(watch_process::<Op>, (WatchEvent::OperationsClosed,), closed),
    ensures
        exited matches WatchStep::Finish(s) && s == status,
        operated matches WatchStep::Execute(o) && o == op,
        closed is AwaitExit,
{
}

} // verus!
