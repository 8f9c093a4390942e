use vstd::prelude::*;
use crate::model::{Job, JobId};
use crate::process::{LogLine, ProcInfo};

verus! {

/// Command line of the client; its arguments are one command.
pub struct Cli;

/// Shared commands with background service
#[derive(Clone, Debug)]
pub enum ExecCommand {
    /// Execute command
    Run { args: Vec<String> },
    /// Execute command with cron schedule
    Runat { at: String, args: Vec<String> },
    /// Start service
    Start { service: String },
    /// Start service group
    Up { group: String },
}

/// Additional commands
#[derive(Clone, Debug)]
pub enum CliCommand {
    /// Stop service group
    Down { group: String },
    /// Stop job
    Stop { job_id: JobId },
    /// List processes
    Ps,
    /// List active jobs
    Jobs,
    /// Show process logs
    Logs { job_or_service: Option<String> },
    /// Stop all processes
    Exit,
}

/// IPC messages
#[derive(Debug)]
pub enum Message {
    Connect,
    ExecCommand(ExecCommand),
    CliCommand(CliCommand),
    PsInfo(Vec<ProcInfo>),
    JobInfo(Vec<Job>),
    LogLine(LogLine),
    /// The command succeeded.
    Done,
    JobsStarted(Vec<JobId>),
    /// The command failed, with the reason.
    Failed(String),
}

/// What the client does with a message from the daemon.
#[derive(Clone, Copy, Debug, PartialEq, Eq, Structural)]
pub enum ClientAction {
    /// A heartbeat: read on.
    Skip,
    /// Part of the answer (a table or a log line): take it and read on.
    Collect,
    /// The end of the answer; `success` is false for a reported failure.
    Finish { success: bool },
    /// The daemon broke the protocol.
    Unexpected,
}

impl Message {
    /// How the client treats `self` as a message from the daemon.
    pub fn client_action(&self) -> (r: ClientAction)
        ensures
            self is Connect ==> r == ClientAction::Skip,
            (self is PsInfo || self is JobInfo || self is LogLine) ==> r == ClientAction::Collect,
            (self is Done || self is JobsStarted) ==> r == (ClientAction::Finish { success: true }),
            self is Failed ==> r == (ClientAction::Finish { success: false }),
            (self is ExecCommand || self is CliCommand) ==> r == ClientAction::Unexpected,
    {
        match self {
            Message::Connect => ClientAction::Skip,
            Message::PsInfo(_) => ClientAction::Collect,
            Message::JobInfo(_) => ClientAction::Collect,
            Message::LogLine(_) => ClientAction::Collect,
            Message::Done => ClientAction::Finish { success: true },
            Message::JobsStarted(_) => ClientAction::Finish { success: true },
            Message::Failed(_) => ClientAction::Finish { success: false },
            _ => ClientAction::Unexpected,
        }
    }

    /// A message that ends the daemon's answer to a command.
    pub open spec fn is_terminal_spec(&self) -> bool {
        self is Done || self is JobsStarted || self is Failed
    }

    pub fn is_terminal(&self) -> (r: bool)
        ensures
            r == self.is_terminal_spec(),
    {
        match self {
            Message::Done => true,
            Message::JobsStarted(_) => true,
            Message::Failed(_) => true,
            _ => false,
        }
    }

    /// The answer to an exec command: the jobs it started, or its failure.
    pub fn exec_reply(res: Result<Vec<JobId>, String>) -> (r: Message)
        ensures
            r.is_terminal_spec(),
            res matches Ok(ids) ==> r matches Message::JobsStarted(v) && v == ids,
            res matches Err(e) ==> r matches Message::Failed(m) && m == e,
    {
        match res {
            Ok(ids) => Message::JobsStarted(ids),
            Err(e) => Message::Failed(e),
        }
    }

    /// The message that closes the answer to a command of the client.
    pub fn cli_reply(res: Result<(), String>) -> (r: Message)
        ensures
            r.is_terminal_spec(),
            res is Ok ==> r is Done,
            res matches Err(e) ==> r matches Message::Failed(m) && m == e,
    {
        match res {
            Ok(()) => Message::Done,
            Err(e) => Message::Failed(e),
        }
    }
}

impl From<ExecCommand> for Message {
    fn from(cmd: ExecCommand) -> (r: Self) {
        Message::ExecCommand(cmd)
    }
}

impl vstd::std_specs::convert::FromSpecImpl<ExecCommand> for Message {
    open spec fn obeys_from_spec() -> bool {
        true
    }

    open spec fn from_spec(cmd: ExecCommand) -> Message {
        Message::ExecCommand(cmd)
    }
}

impl From<CliCommand> for Message {
    fn from(cmd: CliCommand) -> (r: Self) {
        Message::CliCommand(cmd)
    }
}

impl vstd::std_specs::convert::FromSpecImpl<CliCommand> for Message {
    open spec fn obeys_from_spec() -> bool {
        true
    }

    open spec fn from_spec(cmd: CliCommand) -> Message {
        Message::CliCommand(cmd)
    }
}

} // verus!
