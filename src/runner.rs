use vstd::prelude::*;
use crate::errors::DispatcherError;
use crate::model::{
    copy_strings, JobId, JobSpawnInfo, Pid, Restart, RestartInfo, Timestamp, INITIAL_WAIT_MS,
    RESET_THRESHOLD_MS,
};
use crate::output::{pushed, OutputBuffer};
use crate::process::{status_from_wait, status_of, LogLine, ProcInfo, ProcStatus, WaitStatus};

verus! {

/// Number of output lines that each child keeps.
pub const OUTPUT_LINES: usize = 200;

/// Whether a child that ended in `state` is to be started again.
pub open spec fn wants_respawn(policy: Restart, state: ProcStatus, user_terminated: bool) -> bool {
    !user_terminated && match policy {
        Restart::Always => true,
        Restart::OnFailure => match state {
            ProcStatus::ExitErr(code) => code > 0,
            _ => false,
        },
        Restart::Never => false,
    }
}

/// The back-off before the next start: reset after a long run, else doubled
/// (saturating).
pub open spec fn next_wait_time(wait: u64, start: Timestamp, end: Timestamp) -> u64 {
    if end - start > RESET_THRESHOLD_MS {
        INITIAL_WAIT_MS
    } else if 2 * wait <= u64::MAX {
        (2 * wait) as u64
    } else {
        u64::MAX
    }
}

/// The program and its arguments of a command line; an empty one is refused.
pub fn split_command(args: &Vec<String>) -> (r: Result<(String, Vec<String>), DispatcherError>)
    ensures
        r is Err <==> args@.len() == 0,
        r is Err ==> r->Err_0 is EmptyProcCommandError,
        r matches Ok((exe, rest)) ==> exe == args@[0] && rest@ == args@.drop_first(),
{
    if args.len() == 0 {
        return Err(DispatcherError::EmptyProcCommandError);
    }
    let exe = args[0].clone();
    let mut rest: Vec<String> = Vec::new();
    let mut i: usize = 1;
    while i < args.len()
        invariant
            1 <= i <= args@.len(),
            rest@ == args@.subrange(1, i as int),
        decreases args@.len() - i,
    {
        rest.push(args[i].clone());
        i = i + 1;
        assert(rest@ =~= args@.subrange(1, i as int));
    }
    assert(rest@ =~= args@.drop_first());
    Ok((exe, rest))
}

/// A child under policy `Never` is never started again, whatever its end.
pub proof fn lemma_never_policy_no_respawn(r: Runner, now: Timestamp)
    requires
        r.restart_info.policy == Restart::Never,
    ensures
        r.respawn_spec(now) is None,
        !wants_respawn(r.restart_info.policy, r.info.state, r.user_terminated),
{
}

/// Under policy `OnFailure`, a child that exited with success is not started
/// again, and one that exited with a positive code is, unless a user stopped it.
pub proof fn lemma_on_failure_policy(r: Runner, now: Timestamp)
    requires
        r.restart_info.policy == Restart::OnFailure,
    ensures
        r.info.state is ExitOk ==> r.respawn_spec(now) is None,
        (r.info.state matches ProcStatus::ExitErr(c) && c > 0 && !r.user_terminated) ==> r.respawn_spec(now) is Some,
{
}

/// A child that a user stopped is not started again, whatever its policy.
pub proof fn lemma_user_stop_no_respawn(r: Runner, now: Timestamp)
    requires
        r.user_terminated,
    ensures
        r.respawn_spec(now) is None,
{
}

/// Child process controller: what is known of one child and its output.
pub struct Runner {
    pub info: ProcInfo,
    pub restart_info: RestartInfo,
    /// Flag set in stop/down command to prevent restart
    pub user_terminated: bool,
    pub output: OutputBuffer,
}

impl Runner {
    pub open spec fn wf(&self) -> bool {
        self.output.wf()
    }

    /// A child seen to exit has its end recorded.
    pub open spec fn end_recorded(&self) -> bool {
        self.info.state.is_exited() ==> self.info.end.is_some()
    }

    /// The restart, if any, that this runner asks for, given the time `now`.
    pub open spec fn respawn_spec(&self, now: Timestamp) -> Option<JobSpawnInfo> {
        if wants_respawn(self.restart_info.policy, self.info.state, self.user_terminated) {
            Some(
                JobSpawnInfo {
                    job_id: self.info.job_id,
                    args: self.info.cmd_args,
                    restart_info: RestartInfo {
                        policy: self.restart_info.policy,
                        wait_time: next_wait_time(
                            self.restart_info.wait_time,
                            self.info.start,
                            match self.info.end {
                                Some(e) => e,
                                None => now,
                            },
                        ),
                    },
                },
            )
        } else {
            None
        }
    }

    /// Records a child just started with process id `pid` at `start`.
    pub fn spawn(
        job_id: JobId,
        pid: Pid,
        args: &Vec<String>,
        restart_info: RestartInfo,
        start: Timestamp,
    ) -> (r: Result<Runner, DispatcherError>)
        ensures
            args@.len() == 0 <==> r is Err,
            r is Err ==> r->Err_0 is EmptyProcCommandError,
            r matches Ok(run) ==> {
                &&& run.wf()
                &&& run.info.job_id == job_id
                &&& run.info.pid == pid
                &&& run.info.cmd_args@ == args@
                &&& run.info.state == ProcStatus::Spawned
                &&& run.info.start == start
                &&& run.info.end.is_none()
                &&& run.restart_info == restart_info
                &&& !run.user_terminated
                &&& run.output@.len() == 0
                &&& run.output.capacity() == Some(OUTPUT_LINES)
                &&& run.end_recorded()
            },
    {
        if args.len() == 0 {
            return Err(DispatcherError::EmptyProcCommandError);
        }
        let info = ProcInfo {
            job_id,
            pid,
            cmd_args: copy_strings(args),
            state: ProcStatus::Spawned,
            start,
            end: None,
            cpu: 0,
            memory: 0,
            virtual_memory: 0,
            total_written_bytes: 0,
            written_bytes: 0,
            total_read_bytes: 0,
            read_bytes: 0,
        };
        Ok(
            Runner {
                info,
                restart_info,
                user_terminated: false,
                output: OutputBuffer::new(Some(OUTPUT_LINES)),
            },
        )
    }

    /// Takes in the outcome of a non-blocking reap, unless the end is recorded.
    pub fn update_proc_state(&mut self, w: WaitStatus)
        ensures
            old(self).info.end.is_some() ==> *final(self) == *old(self),
            old(self).info.end.is_none() ==> *final(self) == (Runner {
                info: ProcInfo { state: status_of(w), ..old(self).info },
                ..*old(self)
            }),
    {
        if self.info.end.is_none() {
            self.info.state = status_from_wait(w);
        }
    }

    pub fn is_running(&self) -> (r: bool)
        ensures
            r == !self.info.state.is_exited(),
    {
        !self.info.state.exited()
    }

    /// The restart that this runner asks for, if any.
    pub fn restart_infos(&self, now: Timestamp) -> (r: Option<JobSpawnInfo>)
        ensures
            r is Some == wants_respawn(
                self.restart_info.policy,
                self.info.state,
                self.user_terminated,
            ),
            r matches Some(s) ==> {
                let e = self.respawn_spec(now)->Some_0;
                &&& s.job_id == e.job_id
                &&& s.args@ == e.args@
                &&& s.restart_info == e.restart_info
            },
    {
        let respawn = !self.user_terminated && match self.restart_info.policy {
            Restart::Always => true,
            Restart::OnFailure => match self.info.state {
                ProcStatus::ExitErr(code) => code > 0,
                _ => false,
            },
            Restart::Never => false,
        };
        if respawn {
            let end = match self.info.end {
                Some(e) => e,
                None => now,
            };
            let duration: i128 = end as i128 - self.info.start as i128;
            let wait_time = if duration > RESET_THRESHOLD_MS as i128 {
                INITIAL_WAIT_MS
            } else {
                let w = self.restart_info.wait_time;
                if w <= u64::MAX / 2 {
                    2 * w
                } else {
                    u64::MAX
                }
            };
            Some(
                JobSpawnInfo {
                    job_id: self.info.job_id,
                    args: copy_strings(&self.info.cmd_args),
                    restart_info: RestartInfo { policy: self.restart_info.policy, wait_time },
                },
            )
        } else {
            None
        }
    }

    /// The watcher's step for a child whose output has ended: take in the
    /// final reap outcome, record the end at `now`, and ask for a restart.
    pub fn reap(&mut self, w: WaitStatus, now: Timestamp) -> (r: Option<JobSpawnInfo>)
        ensures
            final(self).info.end == Some(now),
            final(self).end_recorded(),
            final(self).info.state == (if old(self).info.end.is_none() {
                status_of(w)
            } else {
                old(self).info.state
            }),
            final(self).info.job_id == old(self).info.job_id,
            final(self).info.pid == old(self).info.pid,
            final(self).info.cmd_args == old(self).info.cmd_args,
            final(self).info.start == old(self).info.start,
            final(self).restart_info == old(self).restart_info,
            final(self).user_terminated == old(self).user_terminated,
            final(self).output == old(self).output,
            r is Some == wants_respawn(
                final(self).restart_info.policy,
                final(self).info.state,
                final(self).user_terminated,
            ),
            r matches Some(s) ==> {
                let e = final(self).respawn_spec(now)->Some_0;
                &&& s.job_id == e.job_id
                &&& s.args@ == e.args@
                &&& s.restart_info == e.restart_info
            },
    {
        self.update_proc_state(w);
        self.info.end = Some(now);
        self.restart_infos(now)
    }

    /// Adds a captured line to this child's output.
    pub fn record_line(&mut self, line: LogLine)
        requires
            old(self).wf(),
        ensures
            final(self).wf(),
            final(self).output@ == pushed(old(self).output@, old(self).output.capacity(), line),
            final(self).output.capacity() == old(self).output.capacity(),
            final(self).info == old(self).info,
            final(self).restart_info == old(self).restart_info,
            final(self).user_terminated == old(self).user_terminated,
    {
        self.output.push(line);
    }
}

} // verus!
