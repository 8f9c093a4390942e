use vstd::prelude::*;
use crate::model::{JobId, Pid, Timestamp};

verus! {

/// Observed state of a child process.
#[derive(Clone, Debug)]
pub enum ProcStatus {
    Spawned,
    Running,
    ExitOk,
    ExitErr(i32),
    Unknown(String),
}

impl ProcStatus {
    pub open spec fn is_exited(&self) -> bool {
        self is ExitOk || self is ExitErr
    }

    pub fn exited(&self) -> (r: bool)
        ensures
            r == self.is_exited(),
    {
        match self {
            ProcStatus::ExitOk => true,
            ProcStatus::ExitErr(_) => true,
            _ => false,
        }
    }

    pub fn copy(&self) -> (r: ProcStatus)
        ensures
            r == *self,
    {
        match self {
            ProcStatus::Spawned => ProcStatus::Spawned,
            ProcStatus::Running => ProcStatus::Running,
            ProcStatus::ExitOk => ProcStatus::ExitOk,
            ProcStatus::ExitErr(c) => ProcStatus::ExitErr(*c),
            ProcStatus::Unknown(m) => ProcStatus::Unknown(m.clone()),
        }
    }
}

/// Outcome of a non-blocking reap of a child process.
#[derive(Clone, Debug)]
pub enum WaitStatus {
    /// The child has exited; `code` is absent when a signal ended it.
    Exited { success: bool, code: Option<i32> },
    /// The child is still alive.
    StillRunning,
    /// The reap itself failed, with the system's message.
    Failed(String),
}

/// The state that an observed reap outcome stands for.
pub open spec fn status_of(w: WaitStatus) -> ProcStatus {
    match w {
        WaitStatus::Exited { success, code } => if success {
            ProcStatus::ExitOk
        } else {
            ProcStatus::ExitErr(
                match code {
                    Some(c) => c,
                    None => 0,
                },
            )
        },
        WaitStatus::StillRunning => ProcStatus::Running,
        WaitStatus::Failed(msg) => ProcStatus::Unknown(msg),
    }
}

pub fn status_from_wait(w: WaitStatus) -> (r: ProcStatus)
    ensures
        r == status_of(w),
{
    match w {
        WaitStatus::Exited { success, code } => if success {
            ProcStatus::ExitOk
        } else {
            ProcStatus::ExitErr(
                match code {
                    Some(c) => c,
                    None => 0,
                },
            )
        },
        WaitStatus::StillRunning => ProcStatus::Running,
        WaitStatus::Failed(msg) => ProcStatus::Unknown(msg),
    }
}

/// Resource usage of a process, as sampled by the host.
#[derive(Clone, Copy, Debug, PartialEq, Eq, Structural)]
pub struct ProcUsage {
    /// CPU usage in hundredths of a percent.
    pub cpu: u32,
    pub memory: u64,
    pub virtual_memory: u64,
    pub total_written_bytes: u64,
    /// Bytes written during the sampled interval.
    pub written_bytes: u64,
    pub total_read_bytes: u64,
    /// Bytes read during the sampled interval.
    pub read_bytes: u64,
}

/// Process information
#[derive(Clone, Debug)]
pub struct ProcInfo {
    pub job_id: JobId,
    pub pid: Pid,
    pub cmd_args: Vec<String>,
    pub state: ProcStatus,
    pub start: Timestamp,
    pub end: Option<Timestamp>,
    /// Total CPU usage, in hundredths of a percent.
    pub cpu: u32,
    /// Memory usage (in bytes).
    pub memory: u64,
    /// Virtual memory usage (in bytes).
    pub virtual_memory: u64,
    /// Total number of written bytes.
    pub total_written_bytes: u64,
    /// Written bytes per second.
    pub written_bytes: u64,
    /// Total number of read bytes.
    pub total_read_bytes: u64,
    /// Read bytes per second.
    pub read_bytes: u64,
}

impl ProcInfo {
    /// The program, or the empty string where there are no arguments.
    pub fn program(&self) -> (r: &str)
        ensures
            self.cmd_args@.len() > 0 ==> r@ == self.cmd_args@[0]@,
            self.cmd_args@.len() == 0 ==> r@.len() == 0,
    {
        if self.cmd_args.len() > 0 {
            self.cmd_args[0].as_str()
        } else {
            let e = "";
            proof {
                reveal_strlit("");
            }
            e
        }
    }

    pub fn copy(&self) -> (r: ProcInfo)
        ensures
            r.job_id == self.job_id,
            r.pid == self.pid,
            r.cmd_args@ == self.cmd_args@,
            r.state == self.state,
            r.start == self.start,
            r.end == self.end,
            r.cpu == self.cpu,
            r.memory == self.memory,
            r.virtual_memory == self.virtual_memory,
            r.total_written_bytes == self.total_written_bytes,
            r.written_bytes == self.written_bytes,
            r.total_read_bytes == self.total_read_bytes,
            r.read_bytes == self.read_bytes,
    {
        ProcInfo {
            job_id: self.job_id,
            pid: self.pid,
            cmd_args: crate::model::copy_strings(&self.cmd_args),
            state: self.state.copy(),
            start: self.start,
            end: self.end,
            cpu: self.cpu,
            memory: self.memory,
            virtual_memory: self.virtual_memory,
            total_written_bytes: self.total_written_bytes,
            written_bytes: self.written_bytes,
            total_read_bytes: self.total_read_bytes,
            read_bytes: self.read_bytes,
        }
    }
}

/// Log line from captured stdout/stderr output
#[derive(Clone, Debug)]
pub struct LogLine {
    pub ts: Timestamp,
    pub job_id: JobId,
    pub pid: Pid,
    pub line: String,
    pub is_stderr: bool,
}

/// The text of the entry that marks the end of a child's output.
pub open spec fn end_marker() -> Seq<char> {
    "<process terminated>"@
}

impl LogLine {
    /// The entry that marks the end of a child's standard output.
    pub fn terminated(ts: Timestamp, job_id: JobId, pid: Pid) -> (r: LogLine)
        ensures
            r.ts == ts,
            r.job_id == job_id,
            r.pid == pid,
            r.line@ == end_marker(),
            !r.is_stderr,
    {
        LogLine { ts, job_id, pid, line: "<process terminated>".to_string(), is_stderr: false }
    }

    pub fn copy(&self) -> (r: LogLine)
        ensures
            r == *self,
    {
        LogLine {
            ts: self.ts,
            job_id: self.job_id,
            pid: self.pid,
            line: self.line.clone(),
            is_stderr: self.is_stderr,
        }
    }
}

} // verus!
