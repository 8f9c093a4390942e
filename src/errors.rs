use vstd::prelude::*;
use crate::model::JobId;

verus! {

/// Failures of the supervisor's operations.
#[derive(Debug)]
pub enum DispatcherError {
    /// The system refused to create the child; the system's message.
    ProcSpawnError(String),
    /// The daemon did not answer in time.
    ProcSpawnTimeoutError,
    /// A kill signal failed; the system's message.
    KillError(String),
    JobNotFoundError(JobId),
    ServiceNotFoundError(String),
    /// The child failed within the startup window, with this exit code.
    ProcExitError(i32),
    EmptyProcCommandError,
    /// The recipe source failed; its message.
    JustfileError(String),
    UnexpectedMessageError,
    /// The transport failed; its message.
    IpcClientError(String),
    CronError(cron::error::Error),
}

} // verus!
