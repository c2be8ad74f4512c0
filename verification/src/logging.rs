//! Log lines that concern a node.

use vstd::prelude::*;

verus! {

/// How severe a log line is.
#[derive(Clone, Copy, Debug, PartialEq, Eq, Structural)]
pub enum LogLevel {
    Error,
    Warn,
    Info,
    Debug,
    Trace,
}

/// Which part of the daemon a log line comes from.
#[derive(Clone, Copy, Debug, PartialEq, Eq, Structural)]
pub enum LogTarget {
    Daemon,
    Spawner,
}

/// A line for the log of a node.
#[derive(Debug)]
pub struct LogLine {
    pub level: LogLevel,
    pub target: LogTarget,
    pub message: String,
}

/// The content of a log line.
pub struct LogLineView {
    pub level: LogLevel,
    pub target: LogTarget,
    pub message: Seq<char>,
}

impl View for LogLine {
    type V = LogLineView;

    open spec fn view(&self) -> LogLineView {
        LogLineView { level: self.level, target: self.target, message: self.message@ }
    }
}

/// A line that the daemon writes.
pub open spec fn daemon_line(level: LogLevel, message: Seq<char>) -> LogLineView {
    LogLineView { level, target: LogTarget::Daemon, message }
}

impl LogTarget {
    /// The name under which the target appears in the log.
    pub fn name(&self) -> (name: &'static str)
        ensures
            name@ == (match *self {
                LogTarget::Daemon => "daemon"@,
                LogTarget::Spawner => "spawner"@,
            }),
    {
        match self {
            LogTarget::Daemon => "daemon",
            LogTarget::Spawner => "spawner",
        }
    }
}

/// The two parts of the daemon appear in the log under names of their own.
pub proof fn law_targets_are_named(target: LogTarget, name: &'static str)
    requires
        call_ensures(LogTarget::name, (&target,), name),
    ensures
        target is Daemon ==> name@ == seq!['d', 'a', 'e', 'm', 'o', 'n'],
        target is Spawner ==> name@ == seq!['s', 'p', 'a', 'w', 'n', 'e', 'r'],
{
    reveal_strlit("daemon");
    reveal_strlit("spawner");
}

} // verus!
