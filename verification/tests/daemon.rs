use thunder::daemon::{
    check_root, cleanup_engine, get_pid, has_log, is_engine, log, pid_alive, start, status,
    status_table, stop, Action, Process, Signalled, Status, StopStep, DEFAULT_STDERR_PATH, DEFAULT_STDOUT_PATH, PID_PATH,
};
use thunder::output::Output;
use thunder::serve::needs_body;

fn s(text: &str) -> String {
    text.to_string()
}

fn process(pid: u32, name: &str, cmd: &[&str]) -> Process {
    Process { pid, name: s(name), cmd: cmd.iter().map(|c| s(c)).collect() }
}

#[test]
fn only_root_may_go_on() {
    assert_eq!(check_root(true), vec![]);
    assert_eq!(
        check_root(false),
        vec![
            Action::Print(s("You must run this executable with root permissions")),
            Action::Exit(-1),
        ]
    );
}

#[test]
fn the_pid_is_read_out_of_its_file() {
    let pid = |text: &str| get_pid(Some(text.as_bytes().to_vec()));
    assert_eq!(pid("123"), Some(123));
    assert_eq!(pid(" 123\n"), Some(123));
    assert_eq!(pid("-1"), Some(-1));
    assert_eq!(pid("2147483648"), None);
    assert_eq!(pid(""), None);
    assert_eq!(pid("12x"), None);
    assert_eq!(get_pid(None), None);
    assert_eq!(get_pid(Some(vec![0x31, 0xff])), None);
    for n in [0, 1, i32::MAX, i32::MIN] {
        assert_eq!(pid(&n.to_string()), Some(n));
        assert_eq!(pid(&format!("{n}\n")), Some(n));
    }
}

#[test]
fn a_process_that_may_not_be_signalled_is_alive() {
    assert!(pid_alive(Signalled::Sent));
    assert!(pid_alive(Signalled::Refused));
    assert!(!pid_alive(Signalled::Failed));
}

#[test]
fn a_daemon_is_started_once() {
    assert_eq!(
        start(Some((7, true))),
        vec![Action::Print(s("Thunder is already running with pid: 7"))]
    );
    assert_eq!(
        start(Some((7, false))),
        vec![
            Action::Print(s("Removing stale pid file (pid 7 not running)")),
            Action::RemoveFile(s(PID_PATH)),
            Action::CleanUp,
            Action::Launch,
        ]
    );
    assert_eq!(start(None), vec![Action::CleanUp, Action::Launch]);
}

#[test]
fn engines_are_told_by_name_and_command() {
    assert!(is_engine(&process(1, "xunlei-pan-cli.3", &[])));
    assert!(is_engine(&process(1, "sh", &["sh", "/opt/xunlei-pan-cli-launcher.amd64"])));
    assert!(is_engine(&process(1, "x", &["/opt/xunlei-pan-cli.3.1"])));
    assert!(is_engine(&process(1, "x", &["a", "b/xunlei-pan-cli.", "c"])));
    assert!(!is_engine(&process(1, "thunder", &["thunder", "run"])));
    assert!(!is_engine(&process(1, "x", &["xunlei-pan-cli.3"])));
    assert!(!is_engine(&process(1, "x", &["/xunlei-pan-cli", ".3"])));
}

#[test]
fn engines_are_killed_and_their_files_removed() {
    let processes = vec![
        process(10, "xunlei-pan-cli", &[]),
        process(11, "bash", &[]),
        process(4294967295, "xunlei-pan-cli-web", &[]),
    ];
    assert_eq!(
        cleanup_engine(&processes, "/pid"),
        vec![
            Action::Kill(10),
            Action::Kill(-1),
            Action::RemoveFile(s("/pid")),
            Action::RemoveFile(s("/var/packages/pan-xunlei-com/target/var/pan-xunlei-com.pid.child")),
            Action::RemoveFile(s("/var/packages/pan-xunlei-com/target/var/pan-xunlei-com.sock")),
            Action::RemoveFile(s("/var/packages/pan-xunlei-com/target/var/pan-xunlei-com-launcher.sock")),
        ]
    );
    assert_eq!(cleanup_engine(&vec![], "/pid").len(), 4);
}

/// Stops a daemon that dies at the signal with this number, and counts the signals.
fn stopped(pid: Option<i32>, dies_at: u32) -> (u32, u32, Vec<Action>) {
    let mut step = stop(pid);
    let mut signals = 0;
    let mut pauses = 0;
    loop {
        match step {
            StopStep::Signal(x) => {
                assert_eq!(Some(x.pid), pid);
                signals += 1;
                step = x.signalled(signals < dies_at);
            },
            StopStep::Sleep(x) => {
                pauses += 1;
                step = x.slept();
            },
            StopStep::Finish(plan) => return (signals, pauses, plan),
        }
    }
}

#[test]
fn stopping_always_cleans_up() {
    let plan = || vec![Action::RemoveFile(s(PID_PATH)), Action::CleanUp];
    assert_eq!(stopped(Some(5), 1), (1, 0, plan()));
    assert_eq!(stopped(Some(5), 3), (3, 2, plan()));
    assert_eq!(stopped(Some(5), 360), (360, 359, plan()));
    assert_eq!(stopped(Some(5), 1000), (360, 360, plan()));
    assert_eq!(stopped(None, 1), (0, 0, vec![Action::CleanUp]));
}

#[test]
fn the_status_is_that_of_the_daemon() {
    assert_eq!(status(None, &vec![1, 2]), Status::NotRunning);
    assert_eq!(status(Some(2), &vec![1, 2, 2]), Status::Running(1));
    assert_eq!(status(Some(3), &vec![1, 2]), Status::Missing);
    assert_eq!(status(Some(-1), &vec![1, 4294967295]), Status::Running(1));
    assert_eq!(
        status_table(42, "1.5", "123.4"),
        vec![s("PID    CPU(%)  MEM(MB)"), s("42   1.5     123.4 ")]
    );
}

#[test]
fn logs_are_shown_with_a_placeholder() {
    let mut logs = log();
    assert_eq!(logs.len(), 2);
    assert_eq!(logs[0].path, DEFAULT_STDOUT_PATH);
    assert_eq!(logs[1].path, DEFAULT_STDERR_PATH);
    let out = &mut logs[0];
    assert_eq!(
        out.line(Err(s("bad"))),
        vec![Output::ErrLine(s("Error reading line: bad"))]
    );
    assert_eq!(out.line(Ok(s("a"))), vec![Output::Line(s("STDOUT>")), Output::Line(s("a"))]);
    assert_eq!(out.line(Ok(s(""))), vec![Output::Line(s(""))]);
    assert_eq!(
        logs[1].line(Ok(s("e"))),
        vec![Output::Line(s("STDERR>")), Output::Line(s("e"))]
    );
}

#[test]
fn empty_logs_are_skipped() {
    assert!(has_log(true, 1));
    assert!(!has_log(true, 0));
    assert!(!has_log(false, 1));
}

#[test]
fn a_body_is_read_where_it_has_a_type() {
    assert!(needs_body(&vec![s("host"), s("content-type")]));
    assert!(!needs_body(&vec![s("host"), s("content-length")]));
    assert!(!needs_body(&vec![]));
}
