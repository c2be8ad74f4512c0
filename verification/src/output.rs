//! What is done with the output of a node process.

use crate::logging::{daemon_line, LogLevel, LogLine, LogLineView, LogTarget};
use crate::recent::{latest, recent, recent_capacity, remember};
use crate::text::{
    from_utf8, from_utf8_lossy, join_lines, lines_joined, lossy_text, utf8_error,
};
use crossbeam::queue::ArrayQueue;
use vstd::prelude::*;
use vstd::utf8::{decode_utf8, decode_utf8_encode_utf8, encode_utf8, valid_utf8};

verus! {

/// What came of reading one line of output.
#[derive(Debug)]
pub enum ReadOutcome {
    /// Something was read.
    Line,
    /// The stream is at its end.
    End,
    /// Reading failed, for this reason.
    Failed(String),
}

/// Output as text.
#[derive(Debug)]
pub struct Decoded {
    pub text: String,
    /// What is wrong with the bytes, where they are not valid UTF-8. The text is then what could be
    /// made of them.
    pub error: Option<String>,
}

/// What follows one read. `W` is a warning.
#[derive(Debug)]
pub struct Chunk<W> {
    /// Whether the stream is done with.
    pub finished: bool,
    /// Warnings to give, in order.
    pub warnings: Vec<W>,
    /// The text to pass on to the log.
    pub text: String,
}

/// The contents of a list of strings.
pub open spec fn texts(strings: Seq<String>) -> Seq<Seq<char>> {
    strings.map_values(|s: String| s@)
}

/// The contents of a list of log lines.
pub open spec fn lines_view(lines: Seq<LogLine>) -> Seq<LogLineView> {
    lines.map_values(|line: LogLine| line@)
}

/// Warnings as lines of the node's log.
pub open spec fn warning_lines(warnings: Seq<Seq<char>>) -> Seq<LogLineView> {
    warnings.map_values(|text: Seq<char>| daemon_line(LogLevel::Warn, text))
}

/// The warnings about a failed read and about a text that is not valid UTF-8.
pub open spec fn warnings_of(
    read: ReadOutcome,
    decoded: Decoded,
    invalid: spec_fn(Seq<char>) -> Seq<char>,
) -> Seq<Seq<char>> {
    (match read {
        ReadOutcome::Failed(reason) => seq![reason@],
        _ => Seq::empty(),
    }) + (match decoded.error {
        Some(error) => seq![invalid(error@)],
        None => Seq::empty(),
    })
}

/// The warning about standard output that is not valid UTF-8.
pub open spec fn invalid_stdout(error: Seq<char>, lossy: Seq<char>) -> Seq<char> {
    "stdout not valid UTF-8 string ("@ + error + ": "@ + lossy
}

/// The warning about standard error output that is not valid UTF-8.
pub open spec fn invalid_stderr(
    node_id: Seq<char>,
    error: Seq<char>,
    lossy: Seq<char>,
) -> Seq<char> {
    "stderr not valid UTF-8 string (node "@ + node_id + "): "@ + error + ": "@ + lossy
}

/// Decodes output, with replacements where it is not valid UTF-8.
pub fn decode_output(raw: Vec<u8>) -> (decoded: Decoded)
    ensures
        valid_utf8(raw@) ==> decoded.error is None && decoded.text@ == decode_utf8(raw@),
        !valid_utf8(raw@) ==> decoded.text@ == lossy_text(raw@) && (decoded.error matches Some(
            error,
        ) && error@ == utf8_error(raw@)),
{
    match from_utf8(raw) {
        Ok(text) => Decoded { text, error: None },
        Err((error, bytes)) => Decoded { text: from_utf8_lossy(&bytes), error: Some(error) },
    }
}

fn warning(message: String) -> (line: LogLine)
    ensures
        line@ == daemon_line(LogLevel::Warn, message@),
{
    LogLine { level: LogLevel::Warn, target: LogTarget::Daemon, message }
}

/// What follows a read of standard output: a failed read is warned about in the node's log, and
/// reading goes on until the end of the stream.
pub fn stdout_chunk(read: ReadOutcome, decoded: Decoded) -> (chunk: Chunk<LogLine>)
    ensures
        chunk.finished == (read is End),
        chunk.text == decoded.text,
        lines_view(chunk.warnings@) == warning_lines(
            warnings_of(
                read,
                decoded,
                |error: Seq<char>| invalid_stdout(error, decoded.text@),
            ),
        ),
{
    let mut warnings: Vec<LogLine> = Vec::new();
    let finished = match read {
        ReadOutcome::Line => false,
        ReadOutcome::End => true,
        ReadOutcome::Failed(reason) => {
            warnings.push(warning(reason));
            false
        },
    };
    if let Some(error) = &decoded.error {
        warnings.push(
            warning(
                "stdout not valid UTF-8 string (".to_owned().concat(error.as_str()).concat(
                    ": ",
                ).concat(decoded.text.as_str()),
            ),
        );
    }
    assert(lines_view(warnings@) =~= warning_lines(
        warnings_of(read, decoded, |error: Seq<char>| invalid_stdout(error, decoded.text@)),
    ));
    Chunk { finished, warnings, text: decoded.text }
}

/// What follows a read of standard error output: the text is also kept among the most recent ones,
/// and a failed read ends the reading.
pub fn stderr_chunk(
    node_id: &str,
    read: ReadOutcome,
    decoded: Decoded,
    most_recent: &mut ArrayQueue<String>,
) -> (chunk: Chunk<String>)
    ensures
        chunk.finished == !(read is Line),
        chunk.text == decoded.text,
        texts(chunk.warnings@) == warnings_of(
            read,
            decoded,
            |error: Seq<char>| invalid_stderr(node_id@, error, decoded.text@),
        ),
        recent_capacity(*final(most_recent)) == recent_capacity(*old(most_recent)),
        recent(*final(most_recent)) == latest(
            recent(*old(most_recent)).push(decoded.text@),
            recent_capacity(*old(most_recent)),
        ),
{
    let mut warnings: Vec<String> = Vec::new();
    let finished = match read {
        ReadOutcome::Line => false,
        ReadOutcome::End => true,
        ReadOutcome::Failed(reason) => {
            warnings.push(reason);
            true
        },
    };
    if let Some(error) = &decoded.error {
        warnings.push(
            "stderr not valid UTF-8 string (node ".to_owned().concat(node_id).concat("): ").concat(
                error.as_str(),
            ).concat(": ").concat(decoded.text.as_str()),
        );
    }
    assert(texts(warnings@) =~= warnings_of(
        read,
        decoded,
        |error: Seq<char>| invalid_stderr(node_id@, error, decoded.text@),
    ));
    remember(most_recent, decoded.text.clone());
    Chunk { finished, warnings, text: decoded.text }
}

/// Where a node's output appears in the dataflow.
#[derive(Debug, PartialEq, Eq)]
pub struct OutputId {
    pub node_id: String,
    pub data_id: String,
}

/// Something to be done with one piece of output.
#[derive(Debug, PartialEq, Eq)]
pub enum OutputStep {
    /// Send it to the dataflow under this output.
    Send(OutputId),
    /// Append it to the log file.
    Write,
    /// Log this line, which is itself a log message or plain output.
    Log(String),
    /// Make sure that the log file is on disk.
    Sync,
}

/// The content of a step.
pub enum OutputStepView {
    Send { node_id: Seq<char>, data_id: Seq<char> },
    Write,
    Log(Seq<char>),
    Sync,
}

impl View for OutputStep {
    type V = OutputStepView;

    open spec fn view(&self) -> OutputStepView {
        match *self {
            OutputStep::Send(id) => OutputStepView::Send {
                node_id: id.node_id@,
                data_id: id.data_id@,
            },
            OutputStep::Write => OutputStepView::Write,
            OutputStep::Log(line) => OutputStepView::Log(line@),
            OutputStep::Sync => OutputStepView::Sync,
        }
    }
}

/// What is done with one piece of output, in order.
pub open spec fn output_steps(
    node_id: Seq<char>,
    message: Seq<char>,
    send_stdout_as: Option<String>,
    quiet: bool,
) -> Seq<OutputStepView> {
    (match send_stdout_as {
        Some(name) => seq![OutputStepView::Send { node_id, data_id: name@ }],
        None => Seq::empty(),
    }) + seq![OutputStepView::Write] + (if quiet {
        Seq::empty()
    } else {
        seq![OutputStepView::Log(lines_joined(message))]
    }) + seq![OutputStepView::Sync]
}

/// Plans what is done with one piece of output: it is sent to the dataflow if the node asks for
/// that, written to the log file, and logged as one line unless logging is quiet.
pub fn plan_output(
    node_id: &String,
    message: &str,
    send_stdout_as: &Option<String>,
    quiet: bool,
) -> (steps: Vec<OutputStep>)
    ensures
        steps@.map_values(|step: OutputStep| step@) == output_steps(
            node_id@,
            message@,
            *send_stdout_as,
            quiet,
        ),
{
    let mut steps: Vec<OutputStep> = Vec::new();
    if let Some(name) = send_stdout_as {
        steps.push(
            OutputStep::Send(OutputId { node_id: node_id.clone(), data_id: name.clone() }),
        );
    }
    steps.push(OutputStep::Write);
    if !quiet {
        steps.push(OutputStep::Log(join_lines(message)));
    }
    steps.push(OutputStep::Sync);
    assert(steps@.map_values(|step: OutputStep| step@) =~= output_steps(
        node_id@,
        message@,
        *send_stdout_as,
        quiet,
    ));
    steps
}

/// What is logged about writing a piece of output to the log file: nothing, unless it failed.
pub fn after_write(message: &str, written: Result<(), String>) -> (line: Option<LogLine>)
    ensures
        match written {
            Ok(_) => line is None,
            Err(reason) => line is Some && line->0@ == daemon_line(
                LogLevel::Error,
                "Could not log "@ + message@ + " to file due to "@ + reason@,
            ),
        },
{
    match written {
        Ok(_) => None,
        Err(reason) => Some(
            LogLine {
                level: LogLevel::Error,
                target: LogTarget::Daemon,
                message: "Could not log ".to_owned().concat(message).concat(
                    " to file due to ",
                ).concat(reason.as_str()),
            },
        ),
    }
}

/// Each step of a plan depends on its own condition alone. The output is always written, once, and
/// synced at the very end. It is logged, as one line, exactly if logging is not quiet, whether or not it
/// is sent. It is sent, before it is written and under the given name, exactly if a name is given,
/// whether or not logging is quiet.
pub proof fn law_each_output_step_has_its_own_condition(
    node_id: String,
    message: &str,
    send_stdout_as: Option<String>,
    quiet: bool,
    steps: Vec<OutputStep>,
)
    requires
        call_ensures(plan_output, (&node_id, message, &send_stdout_as, quiet), steps),
    ensures
        ({
            let sent: int = if send_stdout_as is Some {
                1
            } else {
                0
            };
            let logged: int = if quiet {
                0
            } else {
                1
            };
            &&& steps@.len() == sent + 1 + logged + 1
            &&& forall|i: int|
                0 <= i < steps@.len() ==> {
                    &&& (#[trigger] steps@[i]) is Send <==> send_stdout_as is Some && i == 0
                    &&& steps@[i] is Write <==> i == sent
                    &&& steps@[i] is Log <==> !quiet && i == sent + 1
                    &&& steps@[i] is Sync <==> i == steps@.len() - 1
                }
            &&& send_stdout_as matches Some(name) ==> (steps@[0] matches OutputStep::Send(id)
                && id.node_id@ == node_id@ && id.data_id@ == name@)
            &&& !quiet ==> (steps@[sent + 1] matches OutputStep::Log(line) && line@
                == lines_joined(message@))
        }),
{
    let views = steps@.map_values(|step: OutputStep| step@);
    assert(views.len() == steps@.len());
    assert forall|i: int| 0 <= i < steps@.len() implies views[i] == (#[trigger] steps@[i])@ by {}
}

/// Standard output is read to its end: only the end of the stream finishes it, a failed read does not.
/// What was decoded is passed on, and every failed read and every text that is not valid UTF-8 is warned
/// about in the node's log, in this order.
pub proof fn law_stdout_is_read_to_its_end(
    read: ReadOutcome,
    decoded: Decoded,
    chunk: Chunk<LogLine>,
)
    requires
        call_ensures(stdout_chunk, (read, decoded), chunk),
    ensures
        chunk.finished <==> read is End,
        chunk.text@ == decoded.text@,
        ({
            let failed: int = if read is Failed {
                1
            } else {
                0
            };
            let invalid: int = if decoded.error is Some {
                1
            } else {
                0
            };
            &&& chunk.warnings@.len() == failed + invalid
            &&& forall|i: int|
                0 <= i < chunk.warnings@.len() ==> (#[trigger] chunk.warnings@[i]).level is Warn
                    && chunk.warnings@[i].target is Daemon
            &&& read matches ReadOutcome::Failed(reason) ==> chunk.warnings@[0].message@ == reason@
            &&& decoded.error matches Some(error) ==> chunk.warnings@[failed].message@
                == "stdout not valid UTF-8 string ("@ + error@ + ": "@ + decoded.text@
        }),
{
    let views = lines_view(chunk.warnings@);
    assert(views.len() == chunk.warnings@.len());
    assert forall|i: int| 0 <= i < views.len() implies views[i] == (
    #[trigger] chunk.warnings@[i])@ by {}
}

/// Standard error output is read until its end or until a read fails. What was decoded is passed on and
/// is the newest text on record, and every failed read and every text that is not valid UTF-8 is warned
/// about, in this order.
pub proof fn law_stderr_is_read_until_a_read_fails(
    node_id: &str,
    read: ReadOutcome,
    decoded: Decoded,
    most_recent: &mut ArrayQueue<String>,
    chunk: Chunk<String>,
)
    requires
        call_ensures(stderr_chunk, (node_id, read, decoded, most_recent), chunk),
        recent(*old(most_recent)).len() <= recent_capacity(*old(most_recent)),
        recent_capacity(*old(most_recent)) > 0,
    ensures
        chunk.finished <==> read is End || read is Failed,
        chunk.text@ == decoded.text@,
        ({
            let failed: int = if read is Failed {
                1
            } else {
                0
            };
            let invalid: int = if decoded.error is Some {
                1
            } else {
                0
            };
            &&& chunk.warnings@.len() == failed + invalid
            &&& read matches ReadOutcome::Failed(reason) ==> chunk.warnings@[0]@ == reason@
            &&& decoded.error matches Some(error) ==> chunk.warnings@[failed]@
                == "stderr not valid UTF-8 string (node "@ + node_id@ + "): "@ + error@ + ": "@
                + decoded.text@
        }),
        recent(*final(most_recent)).last() == decoded.text@,
        recent(*old(most_recent)).len() < recent_capacity(*old(most_recent)) ==> recent(
            *final(most_recent),
        ).drop_last() == recent(*old(most_recent)),
        recent(*old(most_recent)).len() == recent_capacity(*old(most_recent)) ==> recent(
            *final(most_recent),
        ).drop_last() == recent(*old(most_recent)).drop_first(),
{
    let views = texts(chunk.warnings@);
    assert(views.len() == chunk.warnings@.len());
    assert forall|i: int| 0 <= i < views.len() implies views[i] == (
    #[trigger] chunk.warnings@[i])@ by {}
    let before = recent(*old(most_recent));
    let after = recent(*final(most_recent));
    if before.len() < recent_capacity(*old(most_recent)) {
        assert(after == before.push(decoded.text@));
        assert(after.drop_last() =~= before);
    } else {
        assert(after == before.push(decoded.text@).skip(1));
        assert(after.drop_last() =~= before.drop_first());
    }
}

/// Nothing of valid output is lost, changed or complained about, and output that is not valid is always
/// complained about.
pub proof fn law_valid_output_is_decoded(raw: Vec<u8>, decoded: Decoded)
    requires
        call_ensures(decode_output, (raw,), decoded),
    ensures
        decoded.error is None <==> valid_utf8(raw@),
        valid_utf8(raw@) ==> encode_utf8(decoded.text@) == raw@,
        !valid_utf8(raw@) ==> decoded.text@ == lossy_text(raw@) && decoded.error->0@ == utf8_error(
            raw@,
        ),
{
    if valid_utf8(raw@) {
        decode_utf8_encode_utf8(raw@);
    }
}

/// A write that fails is logged as an error with the output and the reason; one that works is not.
pub proof fn law_only_failed_writes_are_logged(
    message: &str,
    written: Result<(), String>,
    line: Option<LogLine>,
)
    requires
        call_ensures(after_write, (message, written), line),
    ensures
        line is Some <==> written is Err,
        written matches Err(reason) ==> line->0.level is Error && line->0.target is Daemon
            && line->0.message@ == "Could not log "@ + message@ + " to file due to "@ + reason@,
{
}

} // verus!
