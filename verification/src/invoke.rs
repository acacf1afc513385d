//! One run of the compression tool: what is started, and what its end means.
//!
//! The tool is started by the caller, with the arguments as they are and no
//! shell in between, and runs to its end. This module says which program that
//! is, and turns what the finished process left behind into the outcome that
//! a front end shows: the captured output, or one message.

use vstd::prelude::*;
use vstd::string::StringExecFns;
use vstd::utf8::{decode_utf8, valid_utf8};
use crate::text::{decode_lossy, utf8_lossy};

verus! {

/// The name under which the compression tool is looked up.
pub const EXECUTABLE: &'static str = "video-compress";

/// A program and the arguments it is started with.
#[derive(Debug)]
pub struct CommandLine {
    pub program: String,
    pub args: Vec<String>,
}

/// The command line for one run of the tool: the tool's name, and `args` as
/// they are, in their order, with nothing added.
pub fn command_line(args: Vec<String>) -> (command: CommandLine)
    ensures
        command.program@ == EXECUTABLE@,
        command.args == args,
{
    CommandLine { program: String::from_str(EXECUTABLE), args }
}

/// What the caller saw of one run.
#[derive(Debug)]
pub enum ProcessReport {
    /// The process could not be started; the text describes why.
    NotStarted(String),
    /// The process ran to its end.
    Exited {
        /// Whether it reported success.
        success: bool,
        /// All that it wrote to its standard output.
        stdout: Vec<u8>,
        /// All that it wrote to its standard error.
        stderr: Vec<u8>,
    },
}

/// A `ProcessReport` as a mathematical value.
pub enum ProcessReportView {
    NotStarted(Seq<char>),
    Exited { success: bool, stdout: Seq<u8>, stderr: Seq<u8> },
}

impl View for ProcessReport {
    type V = ProcessReportView;

    open spec fn view(&self) -> ProcessReportView {
        match self {
            ProcessReport::NotStarted(reason) => ProcessReportView::NotStarted(reason@),
            ProcessReport::Exited { success, stdout, stderr } => ProcessReportView::Exited {
                success: *success,
                stdout: stdout@,
                stderr: stderr@,
            },
        }
    }
}

/// Why a run gave no output to show.
#[derive(Debug)]
pub enum InvocationError {
    /// The process could not be started.
    SpawnError(String),
    /// The process ran and reported failure.
    ProcessFailure(String),
}

/// An `InvocationError` as a mathematical value.
pub enum InvocationErrorView {
    SpawnError(Seq<char>),
    ProcessFailure(Seq<char>),
}

impl View for InvocationError {
    type V = InvocationErrorView;

    open spec fn view(&self) -> InvocationErrorView {
        match self {
            InvocationError::SpawnError(text) => InvocationErrorView::SpawnError(text@),
            InvocationError::ProcessFailure(text) => InvocationErrorView::ProcessFailure(text@),
        }
    }
}

impl InvocationErrorView {
    /// The message of this error.
    pub open spec fn message(self) -> Seq<char> {
        match self {
            InvocationErrorView::SpawnError(text) => text,
            InvocationErrorView::ProcessFailure(text) => text,
        }
    }
}

impl InvocationError {
    /// The message of this error: the description of the failed start, or what
    /// the process wrote to its standard error.
    pub fn message(self) -> (text: String)
        ensures
            text@ == self@.message(),
    {
        match self {
            InvocationError::SpawnError(text) => text,
            InvocationError::ProcessFailure(text) => text,
        }
    }
}

/// The outcome of a process that ran to its end, given the text of the stream
/// that counts for it: the text is the output where the process reported
/// success, and the failure's message where it did not.
pub open spec fn settled(success: bool, text: Seq<char>) -> Result<Seq<char>, InvocationErrorView> {
    if success {
        Ok(text)
    } else {
        Err(InvocationErrorView::ProcessFailure(text))
    }
}

/// The stream that counts for the outcome of a run: the standard output of a
/// process that reported success, the standard error of one that reported
/// failure, and nothing where no process was started.
pub open spec fn telling_stream(report: ProcessReportView) -> Seq<u8> {
    match report {
        ProcessReportView::NotStarted(_) => Seq::empty(),
        ProcessReportView::Exited { success, stdout, stderr } => if success {
            stdout
        } else {
            stderr
        },
    }
}

/// The outcome of a run whose telling stream reads `text`. A process that
/// could not be started gives a `SpawnError` with the description of that.
/// One that ran is judged by its reported status alone.
pub open spec fn classified_as(report: ProcessReportView, text: Seq<char>) -> Result<
    Seq<char>,
    InvocationErrorView,
> {
    match report {
        ProcessReportView::NotStarted(reason) => Err(InvocationErrorView::SpawnError(reason)),
        ProcessReportView::Exited { success, .. } => settled(success, text),
    }
}

/// The outcome of a run: that of its telling stream, decoded as UTF-8 with
/// every invalid sequence replaced.
pub open spec fn classified(report: ProcessReportView) -> Result<Seq<char>, InvocationErrorView> {
    classified_as(report, utf8_lossy(telling_stream(report)))
}

/// An outcome as a front end gets it: the output, or the message of the error.
pub open spec fn shown(outcome: Result<Seq<char>, InvocationErrorView>) -> Result<
    Seq<char>,
    Seq<char>,
> {
    match outcome {
        Ok(output) => Ok(output),
        Err(error) => Err(error.message()),
    }
}

/// The outcome of a run as a front end gets it.
pub open spec fn outcome_of(report: ProcessReportView) -> Result<Seq<char>, Seq<char>> {
    shown(classified(report))
}

/// Whether `outcome` is `expected`, text for text.
pub open spec fn is_classified(
    outcome: Result<String, InvocationError>,
    expected: Result<Seq<char>, InvocationErrorView>,
) -> bool {
    match expected {
        Ok(output) => outcome matches Ok(text) && text@ == output,
        Err(error) => outcome matches Err(found) && found@ == error,
    }
}

/// Whether `outcome` is `expected`, text for text.
pub open spec fn is_outcome(
    outcome: Result<String, String>,
    expected: Result<Seq<char>, Seq<char>>,
) -> bool {
    match expected {
        Ok(output) => outcome matches Ok(text) && text@ == output,
        Err(message) => outcome matches Err(text) && text@ == message,
    }
}

/// The outcome of a process that ran to its end, from its status and the
/// decoded text of the stream that counts for it.
pub fn settle(success: bool, text: String) -> (outcome: Result<String, InvocationError>)
    ensures
        is_classified(outcome, settled(success, text@)),
{
    if success {
        Ok(text)
    } else {
        Err(InvocationError::ProcessFailure(text))
    }
}

/// The outcome of a run, with the kind of failure kept apart.
///
/// Where the stream that counts is well-formed UTF-8, the text is what the
/// stream encodes, character for character and with nothing trimmed.
pub fn classify(report: ProcessReport) -> (outcome: Result<String, InvocationError>)
    ensures
        is_classified(outcome, classified(report@)),
        valid_utf8(telling_stream(report@)) ==> is_classified(
            outcome,
            classified_as(report@, decode_utf8(telling_stream(report@))),
        ),
{
    match report {
        ProcessReport::NotStarted(reason) => Err(InvocationError::SpawnError(reason)),
        ProcessReport::Exited { success, stdout, stderr } => {
            let text = if success {
                decode_lossy(stdout.as_slice())
            } else {
                decode_lossy(stderr.as_slice())
            };
            settle(success, text)
        },
    }
}

/// The outcome of a run as a front end gets it: the captured output where the
/// process reported success, and one message where it reported failure or
/// could not be started.
///
/// Where the stream that counts is well-formed UTF-8, the text is what the
/// stream encodes, character for character and with nothing trimmed.
pub fn run_cli(report: ProcessReport) -> (outcome: Result<String, String>)
    ensures
        is_outcome(outcome, outcome_of(report@)),
        valid_utf8(telling_stream(report@)) ==> is_outcome(
            outcome,
            shown(classified_as(report@, decode_utf8(telling_stream(report@)))),
        ),
{
    match classify(report) {
        Ok(output) => Ok(output),
        Err(error) => Err(error.message()),
    }
}

/// A run gives output exactly where a process ran to its end and reported
/// success, a `SpawnError` exactly where no process could be started, and a
/// `ProcessFailure` exactly where a process ran and reported failure, whatever
/// it wrote.
pub proof fn lemma_outcome_kinds(report: ProcessReportView)
    ensures
        classified(report) is Ok <==> report matches ProcessReportView::Exited {
            success: true,
            ..
        },
        classified(report) matches Err(InvocationErrorView::SpawnError(_))
            <==> report is NotStarted,
        classified(report) matches Err(InvocationErrorView::ProcessFailure(_))
            <==> report matches ProcessReportView::Exited { success: false, .. },
{
}

/// The outcome depends on nothing but the report: reports that hold the same
/// give the same outcome, whenever and however often they are judged.
pub proof fn lemma_outcome_repeatable(first: ProcessReport, second: ProcessReport)
    requires
        first@ == second@,
    ensures
        classified(first@) == classified(second@),
        outcome_of(first@) == outcome_of(second@),
{
}

} // verus!
