use shell_compose::dispatcher::Dispatcher;
use shell_compose::{LogLine, Message, ProcStatus, Runner, WaitStatus};

fn strings(v: &[&str]) -> Vec<String> {
    v.iter().map(|s| s.to_string()).collect()
}

fn started(d: &mut Dispatcher, job_id: u32, pid: u32, args: &[String], ts: i64) -> usize {
    let restart = d.spawn_info(job_id).ok().unwrap().restart_info;
    let r = Runner::spawn(job_id, pid, &args.to_vec(), restart, ts).ok().unwrap();
    d.add_runner(r);
    d.procs.len() - 1
}

#[test]
fn spawn_and_observe() {
    let mut d = Dispatcher::create();
    let args = strings(&["sh", "-c", "echo hi; sleep 0.5"]);
    let s = d.run(args.clone());
    let i = started(&mut d, s.job_id, 500, &s.args, 0);
    assert!(d.startup_check().is_ok());
    let reply = Message::exec_reply(Ok(vec![s.job_id]));
    assert!(matches!(reply, Message::JobsStarted(ref v) if v == &vec![1]));
    d.refresh_state(i, WaitStatus::StillRunning);
    let ps = d.ps();
    assert_eq!(ps.len(), 1);
    assert_eq!(ps[0].cmd_args, args);
    assert!(matches!(ps[0].state, ProcStatus::Running));
    d.child_terminated(500, WaitStatus::Exited { success: true, code: Some(0) }, 1000);
    let ps = d.ps();
    assert!(matches!(ps[0].state, ProcStatus::ExitOk));
    assert!(ps[0].end.is_some());
}

#[test]
fn startup_failure() {
    let mut d = Dispatcher::create();
    let s = d.run(strings(&["/nonexistent/bin"]));
    let i = started(&mut d, s.job_id, 501, &s.args, 0);
    d.refresh_state(i, WaitStatus::Exited { success: false, code: Some(127) });
    assert!(d.startup_check().is_err());
    assert!(matches!(d.ps()[0].state, ProcStatus::ExitErr(_)));
}

#[test]
fn restart_on_failure() {
    let mut d = Dispatcher::create();
    let s = d.start("flaky").unwrap();
    started(&mut d, s.job_id, 600, &s.args, 0);
    let failed = WaitStatus::Exited { success: false, code: Some(2) };
    let again = d.child_terminated(600, failed.clone(), 5).unwrap();
    started(&mut d, again.job_id, 601, &again.args, 60);
    assert_eq!(d.jobs().len(), 1);
    assert_eq!(d.ps().iter().filter(|p| p.job_id == 1).count(), 2);
    let plan = d.stop(1).ok().unwrap();
    assert_eq!(plan.kill, vec![601]);
    assert!(d.child_terminated(601, failed, 70).is_none());
    assert!(d.ps().iter().all(|p| p.state.exited()));
}

#[test]
fn cron_firing() {
    let mut d = Dispatcher::create();
    let args = strings(&["sh", "-c", "echo tick"]);
    let (id, _) = d.run_at("* * * * * *", args.clone()).ok().unwrap();
    let a = started(&mut d, id, 700, &args, 1000);
    let b = started(&mut d, id, 701, &args, 2000);
    d.record_output(a, LogLine { ts: 1001, job_id: id, pid: 700, line: "tick".to_string(), is_stderr: false });
    d.record_output(b, LogLine { ts: 2001, job_id: id, pid: 701, line: "tick".to_string(), is_stderr: false });
    assert!(d.ps().iter().filter(|p| p.job_id == id).count() >= 2);
    let filter = d.log_filter(Some("1".to_string())).ok().unwrap();
    let mut cursors = Vec::new();
    let lines = d.collect_logs(&mut cursors, filter);
    assert_eq!(lines.len(), 2);
    assert!(lines.iter().all(|l| l.line == "tick"));
    assert!(lines[0].ts < lines[1].ts);
}

#[test]
fn log_fan_out() {
    let mut d = Dispatcher::create();
    let s = d.run(strings(&["busy"]));
    let i = started(&mut d, s.job_id, 800, &s.args, 0);
    let mut one = Vec::new();
    let mut two = Vec::new();
    let mut seen_one = Vec::new();
    let mut seen_two = Vec::new();
    for round in 0..3i64 {
        for k in 0..4i64 {
            let ts = round * 10 + k + 1;
            d.record_output(i, LogLine { ts, job_id: s.job_id, pid: 800, line: format!("l{ts}"), is_stderr: false });
        }
        seen_one.extend(d.collect_logs(&mut one, None).into_iter().map(|l| l.ts));
        if round != 1 {
            seen_two.extend(d.collect_logs(&mut two, None).into_iter().map(|l| l.ts));
        }
    }
    assert_eq!(seen_one, seen_two);
    assert!(seen_one.windows(2).all(|w| w[0] <= w[1]));
}
