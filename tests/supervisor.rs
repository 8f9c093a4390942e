use shell_compose::dispatcher::Dispatcher;
use shell_compose::{
    split_command, CliCommand, ClientAction, DispatcherError, ExecCommand, JobInfo, JobType,
    LogLine, Message, OutputBuffer, ProcStatus, Restart, RestartInfo, Runner, WaitStatus,
};

fn strings(v: &[&str]) -> Vec<String> {
    v.iter().map(|s| s.to_string()).collect()
}

fn line(ts: i64, job_id: u32, pid: u32, text: &str) -> LogLine {
    LogLine { ts, job_id, pid, line: text.to_string(), is_stderr: false }
}

fn runner(job_id: u32, pid: u32, args: &[&str], policy: Restart, start: i64) -> Runner {
    Runner::spawn(job_id, pid, &strings(args), RestartInfo { policy, wait_time: 50 }, start)
        .ok()
        .unwrap()
}

fn exited(code: i32) -> WaitStatus {
    WaitStatus::Exited { success: code == 0, code: Some(code) }
}

#[test]
fn buffer_evicts_oldest_when_full() {
    let mut b = OutputBuffer::new(Some(2));
    b.push(line(1, 1, 10, "a"));
    b.push(line(2, 1, 10, "b"));
    assert_eq!(b.len(), 2);
    b.push(line(3, 1, 10, "c"));
    assert_eq!(b.len(), 2);
    let mut cursor = 0;
    let lines = b.lines_since(&mut cursor);
    let texts: Vec<&str> = lines.iter().map(|l| l.line.as_str()).collect();
    assert_eq!(texts, vec!["b", "c"]);
    assert_eq!(cursor, 3);
}

#[test]
fn buffer_default_capacity_is_two_hundred() {
    let mut r = runner(1, 10, &["sh"], Restart::Never, 0);
    for i in 0..250 {
        r.record_line(line(i, 1, 10, "x"));
    }
    assert_eq!(r.output.len(), 200);
    let mut cursor = 0;
    let lines = r.output.lines_since(&mut cursor);
    assert_eq!(lines[0].ts, 50);
    assert_eq!(cursor, 249);
}

#[test]
fn lines_since_skips_seen_and_keeps_cursor_when_empty() {
    let mut b = OutputBuffer::new(None);
    let mut cursor = 5;
    assert!(b.lines_since(&mut cursor).is_empty());
    assert_eq!(cursor, 5);
    b.push(line(4, 1, 10, "old"));
    b.push(line(7, 1, 10, "new"));
    let lines = b.lines_since(&mut cursor);
    assert_eq!(lines.len(), 1);
    assert_eq!(lines[0].line, "new");
    assert_eq!(cursor, 7);
    assert!(b.lines_since(&mut cursor).is_empty());
}

#[test]
fn successive_reads_deliver_later_lines_only() {
    let mut b = OutputBuffer::new(Some(200));
    b.push(line(10, 1, 10, "one"));
    let mut cursor = 0;
    let first = b.lines_since(&mut cursor);
    b.push(line(20, 1, 10, "two"));
    let second = b.lines_since(&mut cursor);
    assert_eq!(first.len(), 1);
    assert_eq!(second.len(), 1);
    assert!(first[0].ts < second[0].ts);
}

#[test]
fn never_policy_gives_no_respawn() {
    let mut r = runner(1, 10, &["false"], Restart::Never, 0);
    assert!(r.reap(exited(1), 5).is_none());
}

#[test]
fn on_failure_policy_respawns_only_failures() {
    let mut ok = runner(1, 10, &["true"], Restart::OnFailure, 0);
    assert!(ok.reap(exited(0), 5).is_none());
    let mut bad = runner(1, 11, &["false"], Restart::OnFailure, 0);
    let s = bad.reap(exited(2), 5).unwrap();
    assert_eq!(s.job_id, 1);
    assert_eq!(s.args, strings(&["false"]));
    assert_eq!(s.restart_info.wait_time, 100);
}

#[test]
fn signal_exit_is_not_a_failure_to_restart() {
    let mut r = runner(1, 10, &["sleep", "9"], Restart::OnFailure, 0);
    assert!(r.reap(WaitStatus::Exited { success: false, code: None }, 5).is_none());
    assert!(matches!(r.info.state, ProcStatus::ExitErr(0)));
}

#[test]
fn always_policy_respawns_success_and_resets_after_long_run() {
    let mut r = runner(3, 10, &["true"], Restart::Always, 1000);
    r.restart_info.wait_time = 400;
    let s = r.reap(exited(0), 2000).unwrap();
    assert_eq!(s.restart_info.wait_time, 50);
    assert_eq!(s.restart_info.policy, Restart::Always);
}

#[test]
fn back_off_doubles_and_saturates() {
    let mut r = runner(3, 10, &["true"], Restart::Always, 1000);
    r.restart_info.wait_time = u64::MAX - 1;
    let s = r.reap(exited(0), 1010).unwrap();
    assert_eq!(s.restart_info.wait_time, u64::MAX);
}

#[test]
fn user_stop_suppresses_respawn() {
    let mut r = runner(1, 10, &["false"], Restart::Always, 0);
    r.user_terminated = true;
    assert!(r.reap(exited(2), 5).is_none());
}

#[test]
fn reaped_runner_records_end() {
    let mut r = runner(1, 10, &["true"], Restart::Never, 0);
    assert!(r.info.end.is_none());
    assert!(matches!(r.info.state, ProcStatus::Spawned));
    r.reap(exited(0), 42);
    assert_eq!(r.info.end, Some(42));
    assert!(matches!(r.info.state, ProcStatus::ExitOk));
    r.update_proc_state(WaitStatus::Failed("gone".to_string()));
    assert!(matches!(r.info.state, ProcStatus::ExitOk));
}

#[test]
fn empty_command_is_refused() {
    let r = Runner::spawn(1, 10, &Vec::new(), RestartInfo::default(), 0);
    assert!(matches!(r, Err(DispatcherError::EmptyProcCommandError)));
    assert!(matches!(split_command(&Vec::new()), Err(DispatcherError::EmptyProcCommandError)));
    let (exe, rest) = split_command(&strings(&["sh", "-c", "echo hi"])).ok().unwrap();
    assert_eq!(exe, "sh");
    assert_eq!(rest, strings(&["-c", "echo hi"]));
}

#[test]
fn job_ids_increase_and_are_not_reused() {
    let mut d = Dispatcher::create();
    let a = d.run(strings(&["true"]));
    let b = d.run(strings(&["true"]));
    assert_eq!(a.job_id, 1);
    assert_eq!(b.job_id, 2);
    d.stop(2).ok().unwrap();
    let c = d.run(strings(&["true"]));
    assert_eq!(c.job_id, 3);
}

#[test]
fn new_jobs_carry_their_policies() {
    let shell = JobInfo::new_shell_job(strings(&["ls"]));
    assert!(matches!(shell.job_type, JobType::Shell));
    assert_eq!(shell.restart, RestartInfo { policy: Restart::Never, wait_time: 50 });
    let svc = JobInfo::new_service("web".to_string());
    assert_eq!(svc.args, strings(&["just", "web"]));
    assert_eq!(svc.entrypoint, Some("just".to_string()));
    assert_eq!(svc.restart, RestartInfo::default());
    assert_eq!(RestartInfo::default(), RestartInfo { policy: Restart::OnFailure, wait_time: 50 });
}

#[test]
fn stop_unknown_job_fails() {
    let mut d = Dispatcher::create();
    assert!(matches!(d.stop(7), Err(DispatcherError::JobNotFoundError(7))));
    assert!(matches!(d.spawn_info(7), Err(DispatcherError::JobNotFoundError(7))));
}

#[test]
fn stop_marks_children_and_names_running_ones() {
    let mut d = Dispatcher::create();
    let s = d.run(strings(&["sleep", "9"]));
    d.add_runner(runner(s.job_id, 100, &["sleep", "9"], Restart::Always, 0));
    d.add_runner(runner(s.job_id, 101, &["sleep", "9"], Restart::Always, 0));
    d.refresh_state(0, exited(0));
    let plan = d.stop(s.job_id).ok().unwrap();
    assert_eq!(plan.kill, vec![101]);
    assert!(!plan.remove_cron);
    assert!(d.procs.iter().all(|r| r.user_terminated));
    assert!(d.jobs().is_empty());
}

#[test]
fn start_reuses_service_job_and_skips_running_one() {
    let mut d = Dispatcher::create();
    let first = d.start("web").unwrap();
    assert_eq!(first.job_id, 1);
    assert_eq!(first.args, strings(&["just", "web"]));
    d.add_runner(runner(1, 200, &["just", "web"], Restart::OnFailure, 0));
    assert!(d.start("web").is_none());
    d.refresh_state(0, exited(0));
    let again = d.start("web").unwrap();
    assert_eq!(again.job_id, 1);
    assert_eq!(d.jobs().len(), 1);
    assert_eq!(d.find_job("web"), Some(1));
    assert_eq!(d.find_job("db"), None);
}

#[test]
fn down_collects_service_jobs_of_group() {
    let mut d = Dispatcher::create();
    d.start("web");
    d.run(strings(&["ls"]));
    d.start("db");
    assert_eq!(d.down_job_ids(&strings(&["db", "web", "cache"])), vec![3, 1]);
}

#[test]
fn jobs_and_ps_are_newest_first() {
    let mut d = Dispatcher::create();
    d.run(strings(&["a"]));
    d.run(strings(&["b"]));
    let jobs = d.jobs();
    assert_eq!(jobs[0].id, 2);
    assert_eq!(jobs[1].id, 1);
    d.add_runner(runner(1, 10, &["a"], Restart::Never, 0));
    d.add_runner(runner(2, 20, &["b"], Restart::Never, 0));
    let ps = d.ps();
    assert_eq!(ps[0].pid, 20);
    assert_eq!(ps[1].pid, 10);
    assert_eq!(ps[0].program(), "b");
}

#[test]
fn log_filter_resolves_ids_and_services() {
    let mut d = Dispatcher::create();
    d.run(strings(&["ls"]));
    d.start("web");
    assert!(matches!(d.log_filter(None), Ok(None)));
    assert!(matches!(d.log_filter(Some("1".to_string())), Ok(Some(1))));
    assert!(matches!(d.log_filter(Some("+2".to_string())), Ok(Some(2))));
    assert!(matches!(d.log_filter(Some("9".to_string())), Err(DispatcherError::JobNotFoundError(9))));
    assert!(matches!(d.log_filter(Some("web".to_string())), Ok(Some(2))));
    match d.log_filter(Some("db".to_string())) {
        Err(DispatcherError::ServiceNotFoundError(name)) => assert_eq!(name, "db"),
        other => panic!("unexpected {other:?}"),
    }
    assert!(matches!(
        d.log_filter(Some("99999999999".to_string())),
        Err(DispatcherError::ServiceNotFoundError(_))
    ));
}

#[test]
fn log_batch_is_sorted_and_filtered() {
    let mut d = Dispatcher::create();
    d.add_runner(runner(1, 10, &["a"], Restart::Never, 0));
    d.add_runner(runner(2, 20, &["b"], Restart::Never, 0));
    d.record_output(0, line(5, 1, 10, "a5"));
    d.record_output(0, line(9, 1, 10, "a9"));
    d.record_output(1, line(7, 2, 20, "b7"));
    let mut cursors = Vec::new();
    let batch = d.collect_logs(&mut cursors, None);
    let ts: Vec<i64> = batch.iter().map(|l| l.ts).collect();
    assert_eq!(ts, vec![5, 7, 9]);
    assert_eq!(cursors, vec![9, 7]);
    assert!(d.collect_logs(&mut cursors, None).is_empty());
    d.record_output(1, line(11, 2, 20, "b11"));
    d.record_output(0, line(10, 1, 10, "a10"));
    let mut fresh = Vec::new();
    let only_two = d.collect_logs(&mut fresh, Some(2));
    let texts: Vec<&str> = only_two.iter().map(|l| l.line.as_str()).collect();
    assert_eq!(texts, vec!["b7", "b11"]);
}

#[test]
fn watcher_step_records_end_and_asks_for_restart() {
    let mut d = Dispatcher::create();
    let job = d.start("flaky").unwrap();
    d.add_runner(runner(job.job_id, 30, &["just", "flaky"], Restart::OnFailure, 0));
    assert!(d.child_terminated(999, exited(2), 10).is_none());
    let again = d.child_terminated(30, exited(2), 10).unwrap();
    assert_eq!(again.job_id, job.job_id);
    assert_eq!(d.procs[0].info.end, Some(10));
    assert!(d.child_terminated(30, exited(2), 11).is_none());
}

#[test]
fn startup_failure_is_reported() {
    let mut d = Dispatcher::create();
    assert!(d.startup_check().is_ok());
    d.add_runner(runner(1, 10, &["/nonexistent/bin"], Restart::Never, 0));
    d.refresh_state(0, exited(127));
    assert!(matches!(d.startup_check(), Err(DispatcherError::ProcExitError(127))));
}

#[test]
fn exec_replies_are_terminal() {
    let ok = Message::exec_reply(Ok(vec![1]));
    assert!(ok.is_terminal());
    assert!(matches!(ok, Message::JobsStarted(ref v) if v == &vec![1]));
    let err = Message::exec_reply(Err("boom".to_string()));
    assert!(err.is_terminal());
    assert!(matches!(err, Message::Failed(ref m) if m == "boom"));
    assert!(Message::cli_reply(Ok(())).is_terminal());
    assert!(!Message::Connect.is_terminal());
    assert!(!Message::from(CliCommand::Ps).is_terminal());
    assert!(matches!(
        Message::from(ExecCommand::Start { service: "web".to_string() }),
        Message::ExecCommand(ExecCommand::Start { .. })
    ));
}

#[test]
fn client_actions_follow_messages() {
    assert_eq!(Message::Connect.client_action(), ClientAction::Skip);
    assert_eq!(Message::Done.client_action(), ClientAction::Finish { success: true });
    assert_eq!(
        Message::Failed("x".to_string()).client_action(),
        ClientAction::Finish { success: false }
    );
    assert_eq!(Message::PsInfo(Vec::new()).client_action(), ClientAction::Collect);
    assert_eq!(Message::CliCommand(CliCommand::Exit).client_action(), ClientAction::Unexpected);
}
