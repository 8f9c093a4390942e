use vstd::prelude::*;
use crate::errors::DispatcherError;
use crate::model::{
    copy_strings, Job, JobId, JobInfo, JobSpawnInfo, JobType, Restart, RestartInfo,
    INITIAL_WAIT_MS,
};
use crate::model::{recipe_runner, Pid};
use crate::batch::{sort_by_ts, sorted_by_ts};
use crate::model::Timestamp;
use crate::output::{lines_after, newest_ts, pushed};
use crate::process::{status_of, LogLine, ProcInfo, ProcStatus, ProcUsage, WaitStatus};
use crate::runner::{wants_respawn, Runner};
use crate::text::{decimal_u32, parse_decimal_u32};
use crate::schedule::{cron_accepts, parse_schedule};

verus! {

/// The supervisor's state: the job registry, the jobs with a cron schedule,
/// and every child started so far, oldest first.
pub struct Dispatcher {
    /// Registered jobs, in increasing order of id.
    pub jobs: Vec<Job>,
    /// The highest id handed out so far.
    pub last_job_id: JobId,
    /// Jobs that have a cron schedule.
    pub cronjobs: Vec<JobId>,
    pub procs: Vec<Runner>,
}

/// Whether `jobs` holds a job with id `id`.
pub open spec fn has_job(jobs: Seq<Job>, id: JobId) -> bool {
    exists|i: int| 0 <= i < jobs.len() && jobs[i].id == id
}

/// The position of the first service job named `name`, if any.
pub open spec fn is_first_service(jobs: Seq<Job>, name: Seq<char>, i: int) -> bool {
    &&& 0 <= i < jobs.len()
    &&& jobs[i].info.job_type.service_name() == Some(name)
    &&& forall|k: int| 0 <= k < i ==> jobs[k].info.job_type.service_name() != Some(name)
}

pub open spec fn has_service(jobs: Seq<Job>, name: Seq<char>) -> bool {
    exists|i: int| 0 <= i < jobs.len() && jobs[i].info.job_type.service_name() == Some(name)
}

/// Whether some child of job `id` is not known to have exited.
pub open spec fn job_running(procs: Seq<Runner>, id: JobId) -> bool {
    exists|i: int| 0 <= i < procs.len() && procs[i].info.job_id == id && !procs[i].info.state.is_exited()
}

/// What a restart of job `job` is started with.
pub open spec fn spawn_info_of(s: JobSpawnInfo, job: Job) -> bool {
    &&& s.job_id == job.id
    &&& s.args@ == job.info.args@
    &&& s.restart_info == job.info.restart
}

/// The pids of the children of job `id` that are not known to have exited, in order.
pub open spec fn running_pids(procs: Seq<Runner>, id: JobId) -> Seq<Pid>
    decreases procs.len(),
{
    if procs.len() == 0 {
        seq![]
    } else {
        let rest = running_pids(procs.drop_last(), id);
        let p = procs.last();
        if p.info.job_id == id && !p.info.state.is_exited() {
            rest.push(p.info.pid)
        } else {
            rest
        }
    }
}

/// `ids` without `id`.
pub open spec fn without_id(ids: Seq<JobId>, id: JobId) -> Seq<JobId>
    decreases ids.len(),
{
    if ids.len() == 0 {
        seq![]
    } else {
        let rest = without_id(ids.drop_last(), id);
        if ids.last() == id {
            rest
        } else {
            rest.push(ids.last())
        }
    }
}

/// A runner with its restart suppressed when it belongs to job `id`.
pub open spec fn marked_for_stop(r: Runner, id: JobId) -> Runner {
    Runner { user_terminated: r.user_terminated || r.info.job_id == id, ..r }
}

/// A service job named `name` as `start` registers it.
pub open spec fn is_new_service(info: JobInfo, name: Seq<char>) -> bool {
    &&& info.job_type.service_name() == Some(name)
    &&& info.args@.len() == 2
    &&& info.args@[0]@ == recipe_runner()
    &&& info.args@[1]@ == name
    &&& info.entrypoint.is_some() && info.entrypoint.unwrap()@ == recipe_runner()
    &&& info.restart == (RestartInfo { policy: Restart::OnFailure, wait_time: INITIAL_WAIT_MS })
}

/// The ids of the service jobs named `name`, in registry order.
pub open spec fn service_job_ids(jobs: Seq<Job>, name: Seq<char>) -> Seq<JobId>
    decreases jobs.len(),
{
    if jobs.len() == 0 {
        seq![]
    } else {
        let rest = service_job_ids(jobs.drop_last(), name);
        if jobs.last().info.job_type.service_name() == Some(name) {
            rest.push(jobs.last().id)
        } else {
            rest
        }
    }
}

/// The ids of the service jobs named in `names`, name by name.
pub open spec fn group_job_ids(jobs: Seq<Job>, names: Seq<String>) -> Seq<JobId>
    decreases names.len(),
{
    if names.len() == 0 {
        seq![]
    } else {
        group_job_ids(jobs, names.drop_last()) + service_job_ids(jobs, names.last()@)
    }
}

/// The cursor of the `i`-th child: the epoch where none was kept yet.
pub open spec fn cursor_at(c: Seq<Timestamp>, i: int) -> Timestamp {
    if 0 <= i < c.len() {
        c[i]
    } else {
        0
    }
}

/// The lines that pass a job filter, in order.
pub open spec fn keep_job(s: Seq<LogLine>, filter: Option<JobId>) -> Seq<LogLine>
    decreases s.len(),
{
    if s.len() == 0 {
        seq![]
    } else {
        let rest = keep_job(s.drop_last(), filter);
        match filter {
            Some(id) => if s.last().job_id == id {
                rest.push(s.last())
            } else {
                rest
            },
            None => rest.push(s.last()),
        }
    }
}

/// Every line that passes the filter is one of the lines filtered.
pub proof fn lemma_keep_job_members(s: Seq<LogLine>, filter: Option<JobId>, x: LogLine)
    requires
        keep_job(s, filter).contains(x),
    ensures
        s.contains(x),
    decreases s.len(),
{
    if s.len() > 0 {
        let rest = keep_job(s.drop_last(), filter);
        if rest.contains(x) {
            lemma_keep_job_members(s.drop_last(), filter, x);
            let k = choose|k: int| 0 <= k < s.drop_last().len() && s.drop_last()[k] == x;
            assert(s[k] == x);
        } else {
            let k = choose|k: int| 0 <= k < keep_job(s, filter).len() && keep_job(s, filter)[k] == x;
            assert(keep_job(s, filter)[k] == x);
            assert(x == s.last());
            assert(s[s.len() - 1] == x);
        }
    }
}

/// Per child, a line that one log batch hands out is earlier than any line
/// that the next batch, reading from the advanced cursor, hands out.
pub proof fn lemma_batches_in_order_per_child(
    first: Seq<LogLine>,
    second: Seq<LogLine>,
    cursor: Timestamp,
    filter: Option<JobId>,
    a: LogLine,
    b: LogLine,
)
    requires
        keep_job(lines_after(first, cursor), filter).contains(a),
        keep_job(lines_after(second, newest_ts(first, cursor)), filter).contains(b),
    ensures
        a.ts < b.ts,
{
    lemma_keep_job_members(lines_after(first, cursor), filter, a);
    lemma_keep_job_members(lines_after(second, newest_ts(first, cursor)), filter, b);
    crate::batch::lemma_successive_reads_in_order(first, second, cursor, a, b);
}

/// The new lines of each child, child by child, that pass the filter.
pub open spec fn gathered(procs: Seq<Runner>, c: Seq<Timestamp>, filter: Option<JobId>) -> Seq<LogLine>
    decreases procs.len(),
{
    if procs.len() == 0 {
        seq![]
    } else {
        let i = procs.len() - 1;
        gathered(procs.drop_last(), c, filter) + keep_job(
            lines_after(procs.last().output@, cursor_at(c, i)),
            filter,
        )
    }
}

/// `i` is the first child with process id `pid` whose end is not recorded.
pub open spec fn is_first_live(procs: Seq<Runner>, pid: Pid, i: int) -> bool {
    &&& 0 <= i < procs.len()
    &&& procs[i].info.pid == pid
    &&& procs[i].info.end is None
    &&& forall|k: int| 0 <= k < i ==> !(procs[k].info.pid == pid && procs[k].info.end is None)
}

/// Two process records agree field by field.
pub open spec fn same_proc_info(a: ProcInfo, b: ProcInfo) -> bool {
    &&& a.job_id == b.job_id
    &&& a.pid == b.pid
    &&& a.cmd_args@ == b.cmd_args@
    &&& a.state == b.state
    &&& a.start == b.start
    &&& a.end == b.end
    &&& a.cpu == b.cpu
    &&& a.memory == b.memory
    &&& a.virtual_memory == b.virtual_memory
    &&& a.total_written_bytes == b.total_written_bytes
    &&& a.written_bytes == b.written_bytes
    &&& a.total_read_bytes == b.total_read_bytes
    &&& a.read_bytes == b.read_bytes
}

/// Two job records agree field by field.
pub open spec fn same_job(a: Job, b: Job) -> bool {
    &&& a.id == b.id
    &&& a.info.job_type == b.info.job_type
    &&& a.info.args@ == b.info.args@
    &&& a.info.entrypoint == b.info.entrypoint
    &&& a.info.restart == b.info.restart
}

/// What `stop` hands back: whether to drop the job's cron schedule, and
/// which processes to signal.
#[derive(Clone, Debug)]
pub struct StopPlan {
    pub remove_cron: bool,
    pub kill: Vec<Pid>,
}

impl Dispatcher {
    pub open spec fn wf(&self) -> bool {
        &&& forall|i: int| 0 <= i < self.jobs@.len() ==> 1 <= #[trigger] self.jobs@[i].id <= self.last_job_id
        &&& forall|i: int, j: int| 0 <= i < j < self.jobs@.len() ==> self.jobs@[i].id < self.jobs@[j].id
        &&& forall|i: int| 0 <= i < self.procs@.len() ==> #[trigger] self.procs@[i].wf()
    }

    /// Whether another job id can be handed out.
    pub open spec fn has_free_id(&self) -> bool {
        self.last_job_id < u32::MAX
    }

    pub fn create() -> (r: Dispatcher)
        ensures
            r.wf(),
            r.jobs@.len() == 0,
            r.last_job_id == 0,
            r.cronjobs@.len() == 0,
            r.procs@.len() == 0,
    {
        Dispatcher { jobs: Vec::new(), last_job_id: 0, cronjobs: Vec::new(), procs: Vec::new() }
    }

    pub fn can_add_job(&self) -> (r: bool)
        ensures
            r == self.has_free_id(),
    {
        self.last_job_id < u32::MAX
    }

    /// Registers `job` under a fresh id, greater than every id handed out before.
    pub fn add_job(&mut self, job: JobInfo) -> (r: JobId)
        requires
            old(self).wf(),
            old(self).has_free_id(),
        ensures
            final(self).wf(),
            r == old(self).last_job_id + 1,
            final(self).last_job_id == r,
            forall|i: int| 0 <= i < old(self).jobs@.len() ==> #[trigger] old(self).jobs@[i].id < r,
            final(self).jobs@ == old(self).jobs@.push(Job { id: r, info: job }),
            final(self).cronjobs == old(self).cronjobs,
            final(self).procs == old(self).procs,
    {
        self.last_job_id = self.last_job_id + 1;
        let id = self.last_job_id;
        self.jobs.push(Job { id, info: job });
        id
    }

    /// The position of job `id` in the registry.
    fn job_position(&self, id: JobId) -> (r: Option<usize>)
        ensures
            r matches Some(i) ==> i < self.jobs@.len() && self.jobs@[i as int].id == id,
            r is None ==> !has_job(self.jobs@, id),
    {
        let mut i: usize = 0;
        while i < self.jobs.len()
            invariant
                i <= self.jobs@.len(),
                forall|k: int| 0 <= k < i ==> self.jobs@[k].id != id,
            decreases self.jobs@.len() - i,
        {
            if self.jobs[i].id == id {
                return Some(i);
            }
            i = i + 1;
        }
        None
    }

    pub fn spawn_info(&self, job_id: JobId) -> (r: Result<JobSpawnInfo, DispatcherError>)
        ensures
            r is Ok <==> has_job(self.jobs@, job_id),
            r matches Err(e) ==> e == DispatcherError::JobNotFoundError(job_id),
            r matches Ok(s) ==> exists|i: int|
                0 <= i < self.jobs@.len() && self.jobs@[i].id == job_id && spawn_info_of(
                    s,
                    #[trigger] self.jobs@[i],
                ),
    {
        match self.job_position(job_id) {
            Some(i) => {
                let job = &self.jobs[i];
                let s = JobSpawnInfo {
                    job_id,
                    args: copy_strings(&job.info.args),
                    restart_info: job.info.restart,
                };
                assert(spawn_info_of(s, self.jobs@[i as int]));
                Ok(s)
            },
            None => Err(DispatcherError::JobNotFoundError(job_id)),
        }
    }

    /// Find service job
    pub fn find_job(&self, service: &str) -> (r: Option<JobId>)
        ensures
            r is None <==> !has_service(self.jobs@, service@),
            r matches Some(id) ==> exists|i: int|
                is_first_service(self.jobs@, service@, i) && #[trigger] self.jobs@[i].id == id,
    {
        let name = service.to_string();
        let mut i: usize = 0;
        while i < self.jobs.len()
            invariant
                i <= self.jobs@.len(),
                name@ == service@,
                forall|k: int| 0 <= k < i ==> self.jobs@[k].info.job_type.service_name() != Some(service@),
            decreases self.jobs@.len() - i,
        {
            if let JobType::Service(s) = &self.jobs[i].info.job_type {
                if *s == name {
                    assert(is_first_service(self.jobs@, service@, i as int));
                    return Some(self.jobs[i].id);
                }
            }
            i = i + 1;
        }
        None
    }

    /// Registers a shell job for `args` and returns what to start for it.
    pub fn run(&mut self, args: Vec<String>) -> (r: JobSpawnInfo)
        requires
            old(self).wf(),
            old(self).has_free_id(),
        ensures
            final(self).wf(),
            final(self).last_job_id == old(self).last_job_id + 1,
            final(self).jobs@ == old(self).jobs@.push(
                Job { id: final(self).last_job_id, info: JobInfo::new_shell_job_spec(args) },
            ),
            final(self).cronjobs == old(self).cronjobs,
            final(self).procs == old(self).procs,
            r.job_id == final(self).last_job_id,
            r.args@ == args@,
            r.restart_info == (RestartInfo { policy: Restart::Never, wait_time: INITIAL_WAIT_MS }),
    {
        let spawn_args = copy_strings(&args);
        let info = JobInfo::new_shell_job(args);
        let job_id = self.add_job(info);
        JobSpawnInfo {
            job_id,
            args: spawn_args,
            restart_info: RestartInfo { policy: Restart::Never, wait_time: INITIAL_WAIT_MS },
        }
    }

    /// Registers a cron job for `args` on schedule `cron`; fails, and changes
    /// nothing, where the expression does not parse.
    pub fn run_at(&mut self, cron: &str, args: Vec<String>) -> (r: Result<(JobId, cron::Schedule), DispatcherError>)
        requires
            old(self).wf(),
            old(self).has_free_id(),
        ensures
            final(self).wf(),
            r is Ok <==> cron_accepts(cron@),
            r is Err ==> r->Err_0 is CronError && *final(self) == *old(self),
            r matches Ok((id, _)) ==> {
                &&& id == old(self).last_job_id + 1
                &&& final(self).last_job_id == id
                &&& final(self).jobs@.len() == old(self).jobs@.len() + 1
                &&& final(self).jobs@.drop_last() == old(self).jobs@
                &&& final(self).jobs@.last().id == id
                &&& final(self).jobs@.last().info.job_type matches JobType::Cron(e) && e@ == cron@
                &&& final(self).jobs@.last().info.args == args
                &&& final(self).jobs@.last().info.entrypoint is None
                &&& final(self).jobs@.last().info.restart == (RestartInfo { policy: Restart::Never, wait_time: INITIAL_WAIT_MS })
                &&& final(self).cronjobs@ == old(self).cronjobs@.push(id)
                &&& final(self).procs == old(self).procs
            },
    {
        match parse_schedule(cron) {
            Err(e) => Err(DispatcherError::CronError(e)),
            Ok(schedule) => {
                let info = JobInfo::new_cron_job(cron.to_string(), args);
                let job_id = self.add_job(info);
                self.cronjobs.push(job_id);
                assert(self.jobs@.drop_last() =~= old(self).jobs@);
                Ok((job_id, schedule))
            },
        }
    }

    /// Adds a started child to the list.
    pub fn add_runner(&mut self, runner: Runner)
        requires
            old(self).wf(),
            runner.wf(),
        ensures
            final(self).wf(),
            final(self).procs@ == old(self).procs@.push(runner),
            final(self).jobs == old(self).jobs,
            final(self).last_job_id == old(self).last_job_id,
            final(self).cronjobs == old(self).cronjobs,
    {
        self.procs.push(runner);
    }

    /// The verdict on a start, after the startup window: an error where the
    /// newest child has already failed.
    pub fn startup_check(&self) -> (r: Result<(), DispatcherError>)
        ensures
            r is Err <==> self.procs@.len() > 0 && self.procs@.last().info.state is ExitErr,
            r matches Err(e) ==> e == DispatcherError::ProcExitError(self.procs@.last().info.state->ExitErr_0),
    {
        if self.procs.len() > 0 {
            match self.procs[self.procs.len() - 1].info.state {
                ProcStatus::ExitErr(code) => Err(DispatcherError::ProcExitError(code)),
                _ => Ok(()),
            }
        } else {
            Ok(())
        }
    }

    /// Whether some child of job `job_id` is not known to have exited.
    pub fn is_job_running(&self, job_id: JobId) -> (r: bool)
        ensures
            r == job_running(self.procs@, job_id),
    {
        let mut i: usize = 0;
        while i < self.procs.len()
            invariant
                i <= self.procs@.len(),
                forall|k: int| 0 <= k < i ==> !(self.procs@[k].info.job_id == job_id && !self.procs@[k].info.state.is_exited()),
            decreases self.procs@.len() - i,
        {
            if self.procs[i].info.job_id == job_id && self.procs[i].is_running() {
                return true;
            }
            i = i + 1;
        }
        false
    }

    /// Start service: registers it where no job is named so, and returns what
    /// to start unless a child of its job is still running.
    pub fn start(&mut self, service: &str) -> (r: Option<JobSpawnInfo>)
        requires
            old(self).wf(),
            old(self).has_free_id(),
        ensures
            final(self).wf(),
            final(self).procs == old(self).procs,
            final(self).cronjobs == old(self).cronjobs,
            has_service(old(self).jobs@, service@) ==> final(self).jobs == old(self).jobs
                && final(self).last_job_id == old(self).last_job_id,
            !has_service(old(self).jobs@, service@) ==> {
                &&& final(self).last_job_id == old(self).last_job_id + 1
                &&& final(self).jobs@.drop_last() == old(self).jobs@
                &&& final(self).jobs@.last().id == final(self).last_job_id
                &&& is_new_service(final(self).jobs@.last().info, service@)
            },
            exists|i: int| {
                &&& #[trigger] is_first_service(final(self).jobs@, service@, i)
                &&& r is None <==> job_running(final(self).procs@, final(self).jobs@[i].id)
                &&& r matches Some(s) ==> spawn_info_of(s, final(self).jobs@[i])
            },
    {
        let job_id = match self.find_job(service) {
            Some(id) => id,
            None => {
                let id = self.add_job(JobInfo::new_service(service.to_string()));
                proof {
                    let n = self.jobs@.len() - 1;
                    assert(self.jobs@.drop_last() =~= old(self).jobs@);
                    assert(is_first_service(self.jobs@, service@, n));
                }
                id
            },
        };
        let ghost i = choose|i: int| is_first_service(self.jobs@, service@, i) && self.jobs@[i].id == job_id;
        if self.is_job_running(job_id) {
            None
        } else {
            let s = self.spawn_info(job_id);
            match s {
                Ok(s) => {
                    proof {
                        let k = choose|k: int| 0 <= k < self.jobs@.len() && self.jobs@[k].id == job_id && spawn_info_of(s, #[trigger] self.jobs@[k]);
                        if k != i {
                            if k < i {
                                assert(self.jobs@[k].id < self.jobs@[i].id);
                            } else {
                                assert(self.jobs@[i].id < self.jobs@[k].id);
                            }
                        }
                    }
                    Some(s)
                },
                // The job was found or registered above.
                Err(_) => None,
            }
        }
    }

    /// Stop job: suppress restarts of its children, drop it from the
    /// registry and from the cron table, and name the processes to signal.
    pub fn stop(&mut self, job_id: JobId) -> (r: Result<StopPlan, DispatcherError>)
        requires
            old(self).wf(),
        ensures
            final(self).wf(),
            r is Err <==> !has_job(old(self).jobs@, job_id),
            r matches Err(e) ==> e == DispatcherError::JobNotFoundError(job_id) && *final(self) == *old(self),
            r matches Ok(plan) ==> {
                &&& exists|i: int| 0 <= i < old(self).jobs@.len() && old(self).jobs@[i].id == job_id
                    && final(self).jobs@ == old(self).jobs@.remove(i)
                &&& final(self).last_job_id == old(self).last_job_id
                &&& plan.remove_cron == old(self).cronjobs@.contains(job_id)
                &&& final(self).cronjobs@ == without_id(old(self).cronjobs@, job_id)
                &&& final(self).procs@.len() == old(self).procs@.len()
                &&& forall|k: int| 0 <= k < old(self).procs@.len() ==> #[trigger] final(self).procs@[k]
                    == marked_for_stop(old(self).procs@[k], job_id)
                &&& plan.kill@ == running_pids(old(self).procs@, job_id)
            },
    {
        let pos = match self.job_position(job_id) {
            Some(p) => p,
            None => {
                return Err(DispatcherError::JobNotFoundError(job_id));
            },
        };
        let ghost old_jobs = self.jobs@;
        let _ = self.jobs.remove(pos);
        let ghost kept_jobs = self.jobs@;
        assert(kept_jobs == old_jobs.remove(pos as int));
        // Cron table
        let mut remove_cron = false;
        let mut cron: Vec<JobId> = Vec::new();
        let mut i: usize = 0;
        while i < self.cronjobs.len()
            invariant
                i <= self.cronjobs@.len(),
                self.cronjobs == old(self).cronjobs,
                self.jobs@ == kept_jobs,
                self.last_job_id == old(self).last_job_id,
                self.procs == old(self).procs,
                cron@ == without_id(self.cronjobs@.subrange(0, i as int), job_id),
                remove_cron == self.cronjobs@.subrange(0, i as int).contains(job_id),
            decreases self.cronjobs@.len() - i,
        {
            let id = self.cronjobs[i];
            proof {
                let p = self.cronjobs@.subrange(0, i as int + 1);
                assert(p.drop_last() =~= self.cronjobs@.subrange(0, i as int));
                assert(p.last() == id);
                assert(p[i as int] == id);
                if self.cronjobs@.subrange(0, i as int).contains(job_id) {
                    let w = choose|w: int| 0 <= w < i && self.cronjobs@.subrange(0, i as int)[w] == job_id;
                    assert(p[w] == job_id);
                }
                if p.contains(job_id) && id != job_id {
                    let w = choose|w: int| 0 <= w < i + 1 && p[w] == job_id;
                    assert(self.cronjobs@.subrange(0, i as int)[w] == job_id);
                }
            }
            if id == job_id {
                remove_cron = true;
            } else {
                cron.push(id);
            }
            i = i + 1;
        }
        assert(self.cronjobs@.subrange(0, i as int) =~= self.cronjobs@);
        self.cronjobs = cron;
        // Children of the job
        let mut kill: Vec<Pid> = Vec::new();
        let mut k: usize = 0;
        while k < self.procs.len()
            invariant
                k <= self.procs@.len(),
                self.procs@.len() == old(self).procs@.len(),
                self.jobs@ == kept_jobs,
                self.last_job_id == old(self).last_job_id,
                self.cronjobs@ == without_id(old(self).cronjobs@, job_id),
                forall|j: int| 0 <= j < k ==> #[trigger] self.procs@[j] == marked_for_stop(old(self).procs@[j], job_id),
                forall|j: int| k <= j < self.procs@.len() ==> #[trigger] self.procs@[j] == old(self).procs@[j],
                kill@ == running_pids(old(self).procs@.subrange(0, k as int), job_id),
                forall|j: int| 0 <= j < old(self).procs@.len() ==> #[trigger] old(self).procs@[j].wf(),
            decreases self.procs@.len() - k,
        {
            proof {
                let p = old(self).procs@.subrange(0, k as int + 1);
                assert(p.drop_last() =~= old(self).procs@.subrange(0, k as int));
                assert(p.last() == old(self).procs@[k as int]);
            }
            if self.procs[k].info.job_id == job_id {
                if self.procs[k].is_running() {
                    kill.push(self.procs[k].info.pid);
                }
                self.procs[k].user_terminated = true;
            }
            k = k + 1;
        }
        assert(old(self).procs@.subrange(0, k as int) =~= old(self).procs@);
        proof {
            assert forall|j: int| 0 <= j < self.procs@.len() implies #[trigger] self.procs@[j].wf() by {
                assert(self.procs@[j] == marked_for_stop(old(self).procs@[j], job_id));
                assert(old(self).procs@[j].wf());
            }
            assert forall|a: int| 0 <= a < self.jobs@.len() implies 1 <= #[trigger] self.jobs@[a].id <= self.last_job_id by {
                if a < pos {
                    assert(self.jobs@[a] == old_jobs[a]);
                } else {
                    assert(self.jobs@[a] == old_jobs[a + 1]);
                }
            }
            assert forall|a: int, b: int| 0 <= a < b < self.jobs@.len() implies self.jobs@[a].id < self.jobs@[b].id by {
                let a2 = if a < pos { a } else { a + 1 };
                let b2 = if b < pos { b } else { b + 1 };
                assert(self.jobs@[a] == old_jobs[a2]);
                assert(self.jobs@[b] == old_jobs[b2]);
            }
        }
        Ok(StopPlan { remove_cron, kill })
    }

    /// The ids of the service jobs that a group's services name, service by
    /// service; these are what stopping the group stops.
    pub fn down_job_ids(&self, services: &Vec<String>) -> (r: Vec<JobId>)
        ensures
            r@ == group_job_ids(self.jobs@, services@),
    {
        let mut r: Vec<JobId> = Vec::new();
        let mut k: usize = 0;
        while k < services.len()
            invariant
                k <= services@.len(),
                r@ == group_job_ids(self.jobs@, services@.subrange(0, k as int)),
            decreases services@.len() - k,
        {
            let name = &services[k];
            let ghost before = r@;
            let mut i: usize = 0;
            while i < self.jobs.len()
                invariant
                    i <= self.jobs@.len(),
                    r@ == before + service_job_ids(self.jobs@.subrange(0, i as int), name@),
                decreases self.jobs@.len() - i,
            {
                proof {
                    let p = self.jobs@.subrange(0, i as int + 1);
                    assert(p.drop_last() =~= self.jobs@.subrange(0, i as int));
                    assert(p.last() == self.jobs@[i as int]);
                }
                if let JobType::Service(s) = &self.jobs[i].info.job_type {
                    if *s == *name {
                        r.push(self.jobs[i].id);
                        assert(r@ =~= before + service_job_ids(self.jobs@.subrange(0, i as int + 1), name@));
                    }
                }
                i = i + 1;
            }
            proof {
                assert(self.jobs@.subrange(0, i as int) =~= self.jobs@);
                let q = services@.subrange(0, k as int + 1);
                assert(q.drop_last() =~= services@.subrange(0, k as int));
                assert(q.last() == services@[k as int]);
            }
            k = k + 1;
        }
        assert(services@.subrange(0, k as int) =~= services@);
        r
    }

    /// Process records of every child, newest first.
    pub fn ps(&self) -> (r: Vec<ProcInfo>)
        ensures
            r@.len() == self.procs@.len(),
            forall|i: int| 0 <= i < r@.len() ==> same_proc_info(
                #[trigger] r@[i],
                self.procs@[self.procs@.len() - 1 - i].info,
            ),
    {
        let mut r: Vec<ProcInfo> = Vec::new();
        let mut k: usize = self.procs.len();
        while k > 0
            invariant
                k <= self.procs@.len(),
                r@.len() == self.procs@.len() - k,
                forall|i: int| 0 <= i < r@.len() ==> same_proc_info(
                    #[trigger] r@[i],
                    self.procs@[self.procs@.len() - 1 - i].info,
                ),
            decreases k,
        {
            k = k - 1;
            r.push(self.procs[k].info.copy());
        }
        r
    }

    /// Every registered job, newest first.
    pub fn jobs(&self) -> (r: Vec<Job>)
        ensures
            r@.len() == self.jobs@.len(),
            forall|i: int| 0 <= i < r@.len() ==> same_job(
                #[trigger] r@[i],
                self.jobs@[self.jobs@.len() - 1 - i],
            ),
    {
        let mut r: Vec<Job> = Vec::new();
        let mut k: usize = self.jobs.len();
        while k > 0
            invariant
                k <= self.jobs@.len(),
                r@.len() == self.jobs@.len() - k,
                forall|i: int| 0 <= i < r@.len() ==> same_job(
                    #[trigger] r@[i],
                    self.jobs@[self.jobs@.len() - 1 - i],
                ),
            decreases k,
        {
            k = k - 1;
            let job = &self.jobs[k];
            r.push(Job { id: job.id, info: job.info.copy() });
        }
        r
    }

    /// The job whose logs are asked for: none, a job id that must exist, or
    /// the name of a service job.
    pub fn log_filter(&self, job_or_service: Option<String>) -> (r: Result<Option<JobId>, DispatcherError>)
        ensures
            job_or_service is None ==> r matches Ok(None),
            job_or_service matches Some(s) ==> match decimal_u32(s@) {
                Some(n) => if has_job(self.jobs@, n) {
                    r matches Ok(Some(id)) && id == n
                } else {
                    r matches Err(e) && e == DispatcherError::JobNotFoundError(n)
                },
                None => if has_service(self.jobs@, s@) {
                    r matches Ok(Some(id)) && exists|i: int| is_first_service(self.jobs@, s@, i) && #[trigger] self.jobs@[i].id == id
                } else {
                    r matches Err(e) && e is ServiceNotFoundError && e->ServiceNotFoundError_0@ == s@
                },
            },
    {
        match job_or_service {
            None => Ok(None),
            Some(s) => match parse_decimal_u32(s.as_str()) {
                Some(n) => match self.job_position(n) {
                    Some(_) => Ok(Some(n)),
                    None => Err(DispatcherError::JobNotFoundError(n)),
                },
                None => match self.find_job(s.as_str()) {
                    Some(id) => Ok(Some(id)),
                    None => Err(DispatcherError::ServiceNotFoundError(s)),
                },
            },
        }
    }

    /// One batch of log streaming: every child's lines later than its cursor
    /// that pass the filter, in order of their stamps; each cursor advances
    /// to the newest stamp of its child's output.
    pub fn collect_logs(&self, cursors: &mut Vec<Timestamp>, filter: Option<JobId>) -> (r: Vec<LogLine>)
        requires
            old(cursors)@.len() <= self.procs@.len(),
        ensures
            sorted_by_ts(r@),
            r@.to_multiset() == gathered(self.procs@, old(cursors)@, filter).to_multiset(),
            final(cursors)@.len() == self.procs@.len(),
            forall|i: int| 0 <= i < self.procs@.len() ==> #[trigger] final(cursors)@[i] == newest_ts(
                self.procs@[i].output@,
                cursor_at(old(cursors)@, i),
            ),
    {
        let ghost c0 = cursors@;
        let mut batch: Vec<LogLine> = Vec::new();
        let mut i: usize = 0;
        while i < self.procs.len()
            invariant
                i <= self.procs@.len(),
                c0.len() <= self.procs@.len(),
                cursors@.len() == (if (i as int) < c0.len() { c0.len() as int } else { i as int }),
                forall|j: int| 0 <= j < i ==> #[trigger] cursors@[j] == newest_ts(self.procs@[j].output@, cursor_at(c0, j)),
                forall|j: int| i <= j < c0.len() ==> #[trigger] cursors@[j] == c0[j],
                batch@ == gathered(self.procs@.subrange(0, i as int), c0, filter),
            decreases self.procs@.len() - i,
        {
            let mut t: Timestamp = if i < cursors.len() { cursors[i] } else { 0 };
            assert(t == cursor_at(c0, i as int));
            let lines = self.procs[i].output.lines_since(&mut t);
            if i < cursors.len() {
                cursors.set(i, t);
            } else {
                cursors.push(t);
            }
            let ghost before = batch@;
            let mut k: usize = 0;
            while k < lines.len()
                invariant
                    k <= lines@.len(),
                    batch@ == before + keep_job(lines@.subrange(0, k as int), filter),
                decreases lines@.len() - k,
            {
                proof {
                    let p = lines@.subrange(0, k as int + 1);
                    assert(p.drop_last() =~= lines@.subrange(0, k as int));
                    assert(p.last() == lines@[k as int]);
                }
                let keep = match filter {
                    Some(id) => lines[k].job_id == id,
                    None => true,
                };
                if keep {
                    batch.push(lines[k].copy());
                    assert(batch@ =~= before + keep_job(lines@.subrange(0, k as int + 1), filter));
                } else {
                    assert(batch@ =~= before + keep_job(lines@.subrange(0, k as int + 1), filter));
                }
                k = k + 1;
            }
            proof {
                assert(lines@.subrange(0, k as int) =~= lines@);
                let p = self.procs@.subrange(0, i as int + 1);
                assert(p.drop_last() =~= self.procs@.subrange(0, i as int));
                assert(p.last() == self.procs@[i as int]);
            }
            i = i + 1;
        }
        assert(self.procs@.subrange(0, i as int) =~= self.procs@);
        sort_by_ts(batch)
    }

    /// Takes in a reap outcome for the `index`-th child.
    pub fn refresh_state(&mut self, index: usize, w: WaitStatus)
        requires
            old(self).wf(),
            index < old(self).procs@.len(),
        ensures
            final(self).wf(),
            final(self).jobs == old(self).jobs,
            final(self).last_job_id == old(self).last_job_id,
            final(self).cronjobs == old(self).cronjobs,
            final(self).procs@.len() == old(self).procs@.len(),
            forall|k: int| 0 <= k < old(self).procs@.len() && k != index ==> #[trigger] final(self).procs@[k] == old(self).procs@[k],
            old(self).procs@[index as int].info.end is Some ==> final(self).procs@[index as int] == old(self).procs@[index as int],
            old(self).procs@[index as int].info.end is None ==> final(self).procs@[index as int] == (Runner {
                info: ProcInfo { state: status_of(w), ..old(self).procs@[index as int].info },
                ..old(self).procs@[index as int]
            }),
    {
        self.procs[index].update_proc_state(w);
        assert(self.procs@[index as int].wf());
    }

    /// Records a sample of the host's figures for the `index`-th child, over
    /// an interval of `interval_ms`; `None` where the host no longer lists it.
    pub fn record_usage(&mut self, index: usize, usage: Option<ProcUsage>, interval_ms: u64)
        requires
            old(self).wf(),
            index < old(self).procs@.len(),
            interval_ms > 0,
        ensures
            final(self).wf(),
            final(self).jobs == old(self).jobs,
            final(self).last_job_id == old(self).last_job_id,
            final(self).cronjobs == old(self).cronjobs,
            final(self).procs@.len() == old(self).procs@.len(),
            forall|k: int| 0 <= k < old(self).procs@.len() && k != index ==> #[trigger] final(self).procs@[k] == old(self).procs@[k],
            final(self).procs@[index as int] == (Runner {
                info: crate::telemetry::with_usage(old(self).procs@[index as int].info, usage, interval_ms),
                ..old(self).procs@[index as int]
            }),
    {
        assert(old(self).procs@[index as int].wf());
        crate::telemetry::apply_usage(&mut self.procs[index].info, usage, interval_ms);
        assert(self.procs@[index as int].output == old(self).procs@[index as int].output);
        assert(self.procs@[index as int].wf());
    }

    /// Adds a captured line to the output of the `index`-th child.
    pub fn record_output(&mut self, index: usize, line: LogLine)
        requires
            old(self).wf(),
            index < old(self).procs@.len(),
        ensures
            final(self).wf(),
            final(self).jobs == old(self).jobs,
            final(self).last_job_id == old(self).last_job_id,
            final(self).cronjobs == old(self).cronjobs,
            final(self).procs@.len() == old(self).procs@.len(),
            forall|k: int| 0 <= k < old(self).procs@.len() && k != index ==> #[trigger] final(self).procs@[k] == old(self).procs@[k],
            final(self).procs@[index as int].info == old(self).procs@[index as int].info,
            final(self).procs@[index as int].output@ == pushed(
                old(self).procs@[index as int].output@,
                old(self).procs@[index as int].output.capacity(),
                line,
            ),
    {
        self.procs[index].record_line(line);
    }

    /// The watcher's step for a child whose output ended: the first child with
    /// that pid whose end is not yet recorded takes in the reap outcome and
    /// its end time, and asks for a restart by its policy.
    pub fn child_terminated(&mut self, pid: Pid, w: WaitStatus, now: Timestamp) -> (r: Option<JobSpawnInfo>)
        requires
            old(self).wf(),
        ensures
            final(self).wf(),
            final(self).jobs == old(self).jobs,
            final(self).last_job_id == old(self).last_job_id,
            final(self).cronjobs == old(self).cronjobs,
            final(self).procs@.len() == old(self).procs@.len(),
            (forall|i: int| !is_first_live(old(self).procs@, pid, i)) ==> final(self).procs == old(self).procs && r is None,
            forall|i: int| #[trigger] is_first_live(old(self).procs@, pid, i) ==> {
                let before = old(self).procs@[i];
                let after = final(self).procs@[i];
                &&& forall|k: int| 0 <= k < old(self).procs@.len() && k != i ==> #[trigger] final(self).procs@[k] == old(self).procs@[k]
                &&& after.info.end == Some(now)
                &&& after.info.state == status_of(w)
                &&& after.end_recorded()
                &&& after.info.job_id == before.info.job_id
                &&& after.info.pid == before.info.pid
                &&& after.info.cmd_args == before.info.cmd_args
                &&& after.info.start == before.info.start
                &&& after.restart_info == before.restart_info
                &&& after.user_terminated == before.user_terminated
                &&& after.output == before.output
                &&& r is Some == wants_respawn(after.restart_info.policy, after.info.state, after.user_terminated)
                &&& r matches Some(s) ==> {
                    let e = after.respawn_spec(now)->Some_0;
                    &&& s.job_id == e.job_id
                    &&& s.args@ == e.args@
                    &&& s.restart_info == e.restart_info
                }
            },
    {
        let mut i: usize = 0;
        while i < self.procs.len()
            invariant
                i <= self.procs@.len(),
                *self == *old(self),
                old(self).wf(),
                forall|k: int| 0 <= k < i ==> !(self.procs@[k].info.pid == pid && self.procs@[k].info.end is None),
            decreases self.procs@.len() - i,
        {
            if self.procs[i].info.pid == pid && self.procs[i].info.end.is_none() {
                assert(is_first_live(old(self).procs@, pid, i as int));
                assert(old(self).procs@[i as int].wf());
                let r = self.procs[i].reap(w, now);
                proof {
                    assert(self.procs@[i as int].output == old(self).procs@[i as int].output);
                    assert(self.procs@[i as int].wf());
                    assert forall|j: int| #[trigger] is_first_live(old(self).procs@, pid, j) implies j == i by {
                        if j < i {
                        } else if j > i {
                            assert(old(self).procs@[i as int].info.pid == pid);
                        }
                    }
                }
                return r;
            }
            i = i + 1;
        }
        None
    }
}
} // verus!
