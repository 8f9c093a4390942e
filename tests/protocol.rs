use shell_compose::dispatcher::Dispatcher;
use shell_compose::framing::{decode_frame, decode_len, encode_frame, encode_len, FrameError};
use shell_compose::text::parse_decimal_u32;
use shell_compose::{
    main_pid, per_second, DispatcherError, Formatter, HostProcess, Justfile, JustfileRecipe,
    JobType, LogColor, ProcUsage, Restart, RestartInfo, Runner, WaitStatus,
};

fn strings(v: &[&str]) -> Vec<String> {
    v.iter().map(|s| s.to_string()).collect()
}

#[test]
fn length_prefix_is_little_endian() {
    assert_eq!(encode_len(0x0403_0201), [1, 2, 3, 4]);
    assert_eq!(decode_len([1, 2, 3, 4]), 0x0403_0201);
    assert_eq!(decode_len(encode_len(u32::MAX)), u32::MAX);
}

#[test]
fn frame_round_trip() {
    for body in [Vec::new(), vec![7u8], (0..=255u8).collect::<Vec<u8>>()] {
        let mut framed = encode_frame(&body).unwrap();
        assert_eq!(framed.len(), body.len() + 4);
        framed.extend_from_slice(&[9, 9]);
        let (decoded, used) = decode_frame(&framed).unwrap();
        assert_eq!(decoded, body);
        assert_eq!(used, body.len() + 4);
    }
}

#[test]
fn truncated_frames_are_refused() {
    assert_eq!(decode_frame(&vec![1, 0, 0]), Err(FrameError::Truncated));
    assert_eq!(decode_frame(&vec![3, 0, 0, 0, 1, 2]), Err(FrameError::Truncated));
    assert_eq!(decode_frame(&vec![0, 0, 0, 0]), Ok((Vec::new(), 4)));
}

#[test]
fn decimal_job_ids() {
    assert_eq!(parse_decimal_u32("0"), Some(0));
    assert_eq!(parse_decimal_u32("42"), Some(42));
    assert_eq!(parse_decimal_u32("+7"), Some(7));
    assert_eq!(parse_decimal_u32("4294967295"), Some(u32::MAX));
    assert_eq!(parse_decimal_u32("4294967296"), None);
    assert_eq!(parse_decimal_u32(""), None);
    assert_eq!(parse_decimal_u32("+"), None);
    assert_eq!(parse_decimal_u32("-1"), None);
    assert_eq!(parse_decimal_u32("1a"), None);
    assert_eq!(parse_decimal_u32(" 1"), None);
}

#[test]
fn cron_jobs_need_a_valid_expression() {
    let mut d = Dispatcher::create();
    let bad = d.run_at("not a schedule", strings(&["true"]));
    assert!(matches!(bad, Err(DispatcherError::CronError(_))));
    assert!(d.jobs().is_empty());
    let (id, _schedule) = d.run_at("* * * * * *", strings(&["sh", "-c", "echo tick"])).ok().unwrap();
    assert_eq!(id, 1);
    assert_eq!(d.cronjobs, vec![1]);
    let jobs = d.jobs();
    assert!(matches!(&jobs[0].info.job_type, JobType::Cron(e) if e == "* * * * * *"));
    assert_eq!(jobs[0].info.restart, RestartInfo { policy: Restart::Never, wait_time: 50 });
    let plan = d.stop(1).ok().unwrap();
    assert!(plan.remove_cron);
    assert!(d.cronjobs.is_empty());
}

fn recipe(name: &str, groups: &[&str]) -> JustfileRecipe {
    JustfileRecipe {
        name: name.to_string(),
        attributes: groups
            .iter()
            .map(|g| vec![("group".to_string(), g.to_string())])
            .collect(),
    }
}

#[test]
fn group_recipes_by_attribute() {
    let mut other = recipe("lint", &[]);
    other.attributes.push(vec![("private".to_string(), "true".to_string())]);
    let just = Justfile {
        recipes: vec![
            recipe("web", &["autostart"]),
            other,
            recipe("db", &["backend", "autostart"]),
            recipe("cache", &["backend"]),
        ],
    };
    assert_eq!(just.group_recipes("autostart"), strings(&["web", "db"]));
    assert_eq!(just.group_recipes("backend"), strings(&["db", "cache"]));
    assert!(just.group_recipes("none").is_empty());
}

#[test]
fn rates_per_second() {
    assert_eq!(per_second(500, 250), 2000);
    assert_eq!(per_second(0, 200), 0);
    assert_eq!(per_second(u64::MAX, 1), u64::MAX);
}

fn host(pid: u32, parent: Option<u32>, name: &str) -> HostProcess {
    HostProcess { pid, parent, name: name.to_string() }
}

#[test]
fn recipe_runner_is_measured_through_its_child() {
    let table = vec![host(5, Some(1), "x"), host(6, Some(4), "ctrl-c"), host(7, Some(4), "node")];
    assert_eq!(main_pid(4, "just", &table), 7);
    assert_eq!(main_pid(4, "sh", &table), 4);
    assert_eq!(main_pid(9, "just", &table), 9);
}

#[test]
fn usage_fills_process_figures() {
    let mut d = Dispatcher::create();
    d.add_runner(
        Runner::spawn(1, 10, &strings(&["sh"]), RestartInfo::default(), 0).ok().unwrap(),
    );
    let usage = ProcUsage {
        cpu: 1250,
        memory: 1,
        virtual_memory: 2,
        total_written_bytes: 3,
        written_bytes: 100,
        total_read_bytes: 5,
        read_bytes: 50,
    };
    d.record_usage(0, Some(usage), 200);
    let info = &d.procs[0].info;
    assert_eq!((info.cpu, info.written_bytes, info.read_bytes), (1250, 500, 250));
    assert_eq!(info.total_written_bytes, 3);
    d.record_usage(0, None, 200);
    let info = &d.procs[0].info;
    assert_eq!((info.cpu, info.memory, info.written_bytes), (0, 0, 0));
    assert_eq!(info.total_read_bytes, 5);
    d.refresh_state(0, WaitStatus::StillRunning);
    assert!(d.procs[0].is_running());
}

#[test]
fn colours_cycle_through_palettes() {
    let f = Formatter::new(true, true);
    assert_eq!(f.log_color_proc(23, false), LogColor::Palette(3));
    assert_eq!(f.log_color_proc(20, true), LogColor::ErrPalette(0));
    assert_eq!(f.log_color_app(), LogColor::Accent);
    let plain = Formatter::new(false, false);
    assert_eq!(plain.log_color_proc(1, true), LogColor::Plain);
    assert_eq!(plain.log_color_app(), LogColor::Plain);
}
