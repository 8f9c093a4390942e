use vstd::prelude::*;

verus! {

/// Identifier of a job; `0` is never handed out.
pub type JobId = u32;

/// Host process identifier.
pub type Pid = u32;

/// An instant, in milliseconds since the Unix epoch.
pub type Timestamp = i64;

/// Back-off that a fresh restart policy starts from, and that a long run resets to.
pub const INITIAL_WAIT_MS: u64 = 50;

/// A run longer than this (in milliseconds) resets the back-off.
pub const RESET_THRESHOLD_MS: i64 = 50;

/// What a job runs.
#[derive(Clone, Debug)]
pub enum JobType {
    Shell,
    Service(String),
    Cron(String),
}

/// Restart policy
#[derive(Clone, Copy, Debug, PartialEq, Eq, Structural)]
pub enum Restart {
    Always,
    OnFailure,
    Never,
}

#[derive(Clone, Copy, Debug, PartialEq, Eq, Structural)]
pub struct RestartInfo {
    pub policy: Restart,
    /// Waiting time before restart in ms
    pub wait_time: u64,
}

impl Default for RestartInfo {
    fn default() -> (r: Self)
        ensures
            r == (RestartInfo { policy: Restart::OnFailure, wait_time: INITIAL_WAIT_MS }),
    {
        RestartInfo { policy: Restart::OnFailure, wait_time: INITIAL_WAIT_MS }
    }
}

/// What should run for a job.
#[derive(Clone, Debug)]
pub struct JobInfo {
    pub job_type: JobType,
    pub args: Vec<String>,
    pub entrypoint: Option<String>,
    pub restart: RestartInfo,
}

/// The program that runs services and groups of services.
pub open spec fn recipe_runner() -> Seq<char> {
    seq!['j', 'u', 's', 't']
}

/// A copy of a list of strings.
pub fn copy_strings(v: &Vec<String>) -> (r: Vec<String>)
    ensures
        r@ == v@,
{
    let mut r: Vec<String> = Vec::new();
    let mut i: usize = 0;
    while i < v.len()
        invariant
            i <= v@.len(),
            r@ == v@.subrange(0, i as int),
        decreases v@.len() - i,
    {
        r.push(v[i].clone());
        i = i + 1;
        assert(r@ =~= v@.subrange(0, i as int));
    }
    assert(r@ =~= v@);
    r
}

fn runner_name() -> (r: String)
    ensures
        r@ == recipe_runner(),
{
    let lit = "just";
    proof {
        reveal_strlit("just");
    }
    let r = lit.to_string();
    proof {
        assert(r@ == lit@);
    }
    r
}

impl JobType {
    pub open spec fn service_name(&self) -> Option<Seq<char>> {
        match self {
            JobType::Service(name) => Some(name@),
            _ => None,
        }
    }

    pub fn copy(&self) -> (r: JobType)
        ensures
            r == *self,
    {
        match self {
            JobType::Shell => JobType::Shell,
            JobType::Service(s) => JobType::Service(s.clone()),
            JobType::Cron(s) => JobType::Cron(s.clone()),
        }
    }
}

impl JobInfo {
    pub open spec fn new_shell_job_spec(args: Vec<String>) -> JobInfo {
        JobInfo {
            job_type: JobType::Shell,
            args,
            entrypoint: None,
            restart: RestartInfo { policy: Restart::Never, wait_time: INITIAL_WAIT_MS },
        }
    }

    pub fn new_shell_job(args: Vec<String>) -> (r: Self)
        ensures
            r == JobInfo::new_shell_job_spec(args),
    {
        JobInfo {
            job_type: JobType::Shell,
            args,
            entrypoint: None,
            restart: RestartInfo { policy: Restart::Never, ..Default::default() },
        }
    }

    pub fn new_cron_job(cron: String, args: Vec<String>) -> (r: Self)
        ensures
            r.job_type == JobType::Cron(cron),
            r.args == args,
            r.entrypoint.is_none(),
            r.restart == (RestartInfo { policy: Restart::Never, wait_time: INITIAL_WAIT_MS }),
    {
        JobInfo {
            job_type: JobType::Cron(cron),
            args,
            entrypoint: None,
            restart: RestartInfo { policy: Restart::Never, ..Default::default() },
        }
    }

    pub fn new_service(service: String) -> (r: Self)
        ensures
            r.job_type == JobType::Service(service),
            r.args@.len() == 2,
            r.args@[0]@ == recipe_runner(),
            r.args@[1] == service,
            r.entrypoint.is_some() && r.entrypoint.unwrap()@ == recipe_runner(),
            r.restart == (RestartInfo { policy: Restart::OnFailure, wait_time: INITIAL_WAIT_MS }),
    {
        let name = service.clone();
        let mut args: Vec<String> = Vec::new();
        args.push(runner_name());
        args.push(service);
        JobInfo {
            job_type: JobType::Service(name),
            args,
            entrypoint: Some(runner_name()),
            restart: RestartInfo::default(),
        }
    }

    pub fn copy(&self) -> (r: JobInfo)
        ensures
            r.job_type == self.job_type,
            r.args@ == self.args@,
            r.entrypoint == self.entrypoint,
            r.restart == self.restart,
    {
        let entrypoint = match &self.entrypoint {
            Some(e) => Some(e.clone()),
            None => None,
        };
        JobInfo {
            job_type: self.job_type.copy(),
            args: copy_strings(&self.args),
            entrypoint,
            restart: self.restart,
        }
    }
}

/// A registered job and its id.
#[derive(Clone, Debug)]
pub struct Job {
    pub id: JobId,
    pub info: JobInfo,
}

/// Required information for spawning a new process.
#[derive(Clone, Debug)]
pub struct JobSpawnInfo {
    pub job_id: JobId,
    pub args: Vec<String>,
    pub restart_info: RestartInfo,
}

} // verus!
