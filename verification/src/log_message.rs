//! The log message that a line of output becomes.

use crate::logging::LogLevel;
use vstd::prelude::*;

verus! {

/// The level of a log message, or the mark of plain output.
#[derive(Clone, Copy, Debug, PartialEq, Eq, Structural)]
pub enum LogLevelOrStdout {
    LogLevel(LogLevel),
    Stdout,
}

/// A structured log message.
#[derive(Debug, PartialEq, Eq)]
pub struct LogMessage {
    pub build_id: Option<u128>,
    pub dataflow_id: Option<u128>,
    pub node_id: Option<String>,
    pub daemon_id: Option<String>,
    pub level: LogLevelOrStdout,
    pub target: Option<String>,
    pub module: Option<String>,
    pub file: Option<String>,
    pub line: Option<u32>,
    pub message: String,
    /// The point in time, in RFC 3339 form.
    pub timestamp: String,
    pub fields: Option<Vec<(String, String)>>,
}

/// Where a line of output comes from.
#[derive(Debug, PartialEq, Eq)]
pub struct LogOrigin {
    pub dataflow_id: u128,
    pub node_id: String,
    pub daemon_id: String,
}

/// The log message for a line of output. Where the line is itself a log message, `parsed`, only its
/// origin is filled in; any other line is passed on as plain output with the given time.
pub fn log_message(
    parsed: Option<LogMessage>,
    line: String,
    origin: &LogOrigin,
    timestamp: String,
) -> (message: LogMessage)
    ensures
        message == (match parsed {
            Some(m) => LogMessage {
                dataflow_id: Some(origin.dataflow_id),
                node_id: Some(origin.node_id),
                daemon_id: Some(origin.daemon_id),
                ..m
            },
            None => LogMessage {
                build_id: None,
                dataflow_id: Some(origin.dataflow_id),
                node_id: Some(origin.node_id),
                daemon_id: Some(origin.daemon_id),
                level: LogLevelOrStdout::Stdout,
                target: None,
                module: None,
                file: None,
                line: None,
                message: line,
                timestamp,
                fields: None,
            },
        }),
{
    let dataflow_id = Some(origin.dataflow_id);
    let node_id = Some(origin.node_id.clone());
    let daemon_id = Some(origin.daemon_id.clone());
    match parsed {
        Some(mut message) => {
            message.dataflow_id = dataflow_id;
            message.node_id = node_id;
            message.daemon_id = daemon_id;
            message
        },
        None => LogMessage {
            build_id: None,
            dataflow_id,
            node_id,
            daemon_id,
            level: LogLevelOrStdout::Stdout,
            target: None,
            module: None,
            file: None,
            line: None,
            message: line,
            timestamp,
            fields: None,
        },
    }
}

/// Every message carries its origin, whatever the line was.
pub proof fn law_message_carries_its_origin(
    parsed: Option<LogMessage>,
    line: String,
    origin: LogOrigin,
    timestamp: String,
    message: LogMessage,
)
    requires
        call_ensures(log_message, (parsed, line, &origin, timestamp), message),
    ensures
        message.dataflow_id == Some(origin.dataflow_id),
        message.node_id is Some && message.node_id->0@ == origin.node_id@,
        message.daemon_id is Some && message.daemon_id->0@ == origin.daemon_id@,
{
}

/// A line that is a log message keeps everything that it says itself; only its origin is filled in.
pub proof fn law_parsed_message_is_kept(
    parsed: LogMessage,
    line: String,
    origin: LogOrigin,
    timestamp: String,
    message: LogMessage,
)
    requires
        call_ensures(log_message, (Some(parsed), line, &origin, timestamp), message),
    ensures
        message.build_id == parsed.build_id,
        message.level == parsed.level,
        message.target == parsed.target,
        message.module == parsed.module,
        message.file == parsed.file,
        message.line == parsed.line,
        message.message == parsed.message,
        message.timestamp == parsed.timestamp,
        message.fields == parsed.fields,
{
}

/// Any other line is passed on word by word as plain output with the given time, and nothing is made
/// up about it.
pub proof fn law_plain_line_is_passed_on(
    line: String,
    origin: LogOrigin,
    timestamp: String,
    message: LogMessage,
)
    requires
        call_ensures(log_message, (None, line, &origin, timestamp), message),
    ensures
        message.level is Stdout,
        message.message@ == line@,
        message.timestamp@ == timestamp@,
        message.build_id is None,
        message.target is None,
        message.module is None,
        message.file is None,
        message.line is None,
        message.fields is None,
{
}

} // verus!
