//! The daemon: when it is started, how it is stopped, and what is left behind.

use vstd::prelude::*;

use crate::number::{align_left, parse_i32, signed_text, unsigned_text};
use crate::output::{Output, OutputView};
use crate::text::{contains_text, join_with, trim};

verus! {

pub const PID_PATH: &'static str = "/var/run/thunder.pid";

pub const DEFAULT_STDOUT_PATH: &'static str = "/var/run/thunder.out";

pub const DEFAULT_STDERR_PATH: &'static str = "/var/run/thunder.err";

pub const DEFAULT_WORK_DIR: &'static str = "/";

/// Something to be done to the system.
#[derive(Debug, PartialEq)]
pub enum Action {
    /// Print a line.
    Print(String),
    /// Leave the program with this status.
    Exit(i32),
    /// Remove a file, if it is there.
    RemoveFile(String),
    /// Kill a process.
    Kill(i32),
    /// List the processes, and do what [`cleanup_engine`] says.
    CleanUp,
    /// Create the pid file and the log files, and become a daemon.
    Launch,
}

pub enum ActionView {
    Print(Seq<char>),
    Exit(int),
    RemoveFile(Seq<char>),
    Kill(int),
    CleanUp,
    Launch,
}

impl View for Action {
    type V = ActionView;

    open spec fn view(&self) -> ActionView {
        match *self {
            Action::Print(line) => ActionView::Print(line@),
            Action::Exit(status) => ActionView::Exit(status as int),
            Action::RemoveFile(path) => ActionView::RemoveFile(path@),
            Action::Kill(pid) => ActionView::Kill(pid as int),
            Action::CleanUp => ActionView::CleanUp,
            Action::Launch => ActionView::Launch,
        }
    }
}

pub open spec fn actions_view(actions: Seq<Action>) -> Seq<ActionView> {
    actions.map_values(|a: Action| a@)
}

/// What is done about a user who is not root.
pub open spec fn root_plan(is_root: bool) -> Seq<ActionView> {
    if is_root {
        Seq::empty()
    } else {
        seq![
            ActionView::Print("You must run this executable with root permissions"@),
            ActionView::Exit(-1),
        ]
    }
}

/// Check if the user is root.
pub fn check_root(is_root: bool) -> (plan: Vec<Action>)
    ensures
        actions_view(plan@) == root_plan(is_root),
{
    let mut plan: Vec<Action> = Vec::new();
    if !is_root {
        plan.push(
            Action::Print("You must run this executable with root permissions".to_string()),
        );
        plan.push(Action::Exit(-1));
    }
    assert(actions_view(plan@) =~= root_plan(is_root));
    plan
}

// ---- the pid --------------------------------------------------------------

/// Calls `String::from_utf8`: the text that the bytes encode, if they are UTF-8.
#[verifier::external_body]
fn text_in(data: Vec<u8>) -> (text: Option<String>)
    ensures
        match text {
            Some(s) => vstd::utf8::valid_utf8(data@) && s@ == vstd::utf8::decode_utf8(data@),
            None => !vstd::utf8::valid_utf8(data@),
        },
{
    String::from_utf8(data).ok()
}

/// The pid in a pid file's contents: a number, with blanks around it or none.
pub open spec fn pid_in(data: Option<Seq<u8>>) -> Option<int> {
    match data {
        Some(bytes) => if vstd::utf8::valid_utf8(bytes) {
            crate::number::number_within(
                crate::text::trimmed(vstd::utf8::decode_utf8(bytes)),
                i32::MIN as int,
                i32::MAX as int,
            )
        } else {
            None
        },
        None => None,
    }
}

pub open spec fn bytes_view(data: Option<Vec<u8>>) -> Option<Seq<u8>> {
    match data {
        Some(bytes) => Some(bytes@),
        None => None,
    }
}

/// Get the pid of the daemon, out of what the pid file holds if it could be read.
pub fn get_pid(data: Option<Vec<u8>>) -> (pid: Option<i32>)
    ensures
        pid == (match pid_in(bytes_view(data)) {
            Some(n) => Some(n as i32),
            None => None,
        }),
{
    match data {
        Some(bytes) => match text_in(bytes) {
            Some(text) => parse_i32(trim(text.as_str())),
            None => None,
        },
        None => None,
    }
}

/// What came of a signal.
#[derive(Debug, Clone, Copy, PartialEq)]
pub enum Signalled {
    /// It was sent.
    Sent,
    /// There is such a process, which may not be signalled.
    Refused,
    /// There is no such process, or the signal could not be sent for another reason.
    Failed,
}

/// Whether a pid is a live process, given what came of signal 0, which performs error
/// checking without actually sending a signal.
pub fn pid_alive(outcome: Signalled) -> (alive: bool)
    ensures
        alive == (outcome is Sent || outcome is Refused),
{
    match outcome {
        Signalled::Sent => true,
        Signalled::Refused => true,
        Signalled::Failed => false,
    }
}

// ---- start ----------------------------------------------------------------

/// How the daemon is started, given the pid in the pid file and whether that
/// process is alive.
pub open spec fn start_plan(pid: Option<(i32, bool)>) -> Seq<ActionView> {
    match pid {
        Some((pid, true)) => seq![
            ActionView::Print(
                "Thunder is already running with pid: "@ + crate::number::decimal(pid as int),
            ),
        ],
        Some((pid, false)) => seq![
            ActionView::Print(
                "Removing stale pid file (pid "@ + crate::number::decimal(pid as int)
                    + " not running)"@,
            ),
            ActionView::RemoveFile(PID_PATH@),
            ActionView::CleanUp,
            ActionView::Launch,
        ],
        None => seq![ActionView::CleanUp, ActionView::Launch],
    }
}

/// Start the daemon, given the pid in the pid file and whether that process is
/// alive.
pub fn start(pid: Option<(i32, bool)>) -> (plan: Vec<Action>)
    ensures
        actions_view(plan@) == start_plan(pid),
{
    let mut plan: Vec<Action> = Vec::new();
    // If a pid file exists, only bail when that process is actually alive. A stale
    // pid file (previous crash / kill) would otherwise wedge start.
    if let Some((pid, alive)) = pid {
        if alive {
            let mut line = "Thunder is already running with pid: ".to_string();
            line.append(signed_text(pid as i64).as_str());
            plan.push(Action::Print(line));
            assert(actions_view(plan@) =~= start_plan(Some((pid, true))));
            return plan;
        }
        let mut line = "Removing stale pid file (pid ".to_string();
        line.append(signed_text(pid as i64).as_str());
        line.append(" not running)");
        plan.push(Action::Print(line));
        plan.push(Action::RemoveFile(PID_PATH.to_string()));
    }
    // Guarantee a single instance: kill any orphaned launcher/engine left over from a
    // previous run (prevents 迅雷 UserKickout / blank panel).
    plan.push(Action::CleanUp);
    plan.push(Action::Launch);
    assert(actions_view(plan@) =~= start_plan(pid));
    plan
}

// ---- clean-up -------------------------------------------------------------

/// A process that runs on the system.
#[derive(Debug, PartialEq)]
pub struct Process {
    pub pid: u32,
    pub name: String,
    pub cmd: Vec<String>,
}

#[verifier::ext_equal]
pub struct ProcessView {
    pub pid: u32,
    pub name: Seq<char>,
    pub cmd: Seq<Seq<char>>,
}

impl View for Process {
    type V = ProcessView;

    open spec fn view(&self) -> ProcessView {
        ProcessView { pid: self.pid, name: self.name@, cmd: crate::text::texts(self.cmd@) }
    }
}

pub open spec fn processes_view(processes: Seq<Process>) -> Seq<ProcessView> {
    processes.map_values(|p: Process| p@)
}

/// Whether a process is the launcher or the versioned core engine.
pub open spec fn engine_process(p: ProcessView) -> bool {
    let cmd = crate::text::join(p.cmd, " "@);
    ||| crate::text::holds_text(p.name, "xunlei-pan-cli"@)
    ||| crate::text::holds_text(cmd, "xunlei-pan-cli-launcher"@)
    ||| crate::text::holds_text(cmd, "/xunlei-pan-cli."@)
}

/// Whether a process is the launcher or the versioned core engine, by its exe name.
pub fn is_engine(p: &Process) -> (yes: bool)
    ensures
        yes == engine_process(p@),
{
    let cmd = join_with(&p.cmd, " ");
    contains_text(p.name.as_str(), "xunlei-pan-cli") || contains_text(
        cmd.as_str(),
        "xunlei-pan-cli-launcher",
    ) || contains_text(cmd.as_str(), "/xunlei-pan-cli.")
}

/// A pid in 32 bits without a sign, as the pid that a signal is sent to.
pub open spec fn signed_pid(pid: int) -> int {
    if pid > i32::MAX {
        pid - 0x1_0000_0000
    } else {
        pid
    }
}

/// Every engine process is killed.
pub open spec fn kills(processes: Seq<ProcessView>) -> Seq<ActionView>
    decreases processes.len(),
{
    if processes.len() == 0 {
        Seq::empty()
    } else if engine_process(processes.last()) {
        kills(processes.drop_last()).push(ActionView::Kill(signed_pid(processes.last().pid as int)))
    } else {
        kills(processes.drop_last())
    }
}

/// Engine/launcher state files that must be removed on stop so a fresh start doesn't
/// inherit a dead instance's sockets or pid files. The first is the engine's own pid
/// file.
pub open spec fn state_files(pid_file: Seq<char>) -> Seq<Seq<char>> {
    seq![
        pid_file,
        "/var/packages/pan-xunlei-com/target/var/pan-xunlei-com.pid.child"@,
        "/var/packages/pan-xunlei-com/target/var/pan-xunlei-com.sock"@,
        "/var/packages/pan-xunlei-com/target/var/pan-xunlei-com-launcher.sock"@,
    ]
}

/// What is done about the engine: its processes are killed, and after that its state
/// files removed.
pub open spec fn cleanup_plan(processes: Seq<ProcessView>, pid_file: Seq<char>) -> Seq<ActionView> {
    kills(processes) + state_files(pid_file).map_values(
        |path: Seq<char>| ActionView::RemoveFile(path),
    )
}

/// Kill any leftover launcher / core-engine processes and remove stale engine state
/// files. This guarantees a clean single instance: 迅雷 allows only one online device
/// per account, so a lingering launcher from a previous run causes the new one to be
/// kicked (UserKickout) and the panel to go blank.
pub fn cleanup_engine(processes: &Vec<Process>, pid_file: &str) -> (plan: Vec<Action>)
    ensures
        actions_view(plan@) == cleanup_plan(processes_view(processes@), pid_file@),
{
    let ghost all = processes_view(processes@);
    let mut plan: Vec<Action> = Vec::new();
    let n = processes.len();
    let mut i: usize = 0;
    assert(actions_view(plan@) =~= kills(all.take(0)));
    while i < n
        invariant
            n == processes@.len(),
            all == processes_view(processes@),
            i <= n,
            actions_view(plan@) == kills(all.take(i as int)),
        decreases n - i,
    {
        let p = &processes[i];
        let ghost before = plan@;
        assert(all.take(i + 1).drop_last() =~= all.take(i as int));
        assert(all.take(i + 1).last() == p@);
        if is_engine(p) {
            let pid = p.pid;
            assert(pid <= 0x7fff_ffff ==> pid as i32 == pid) by (bit_vector);
            assert(pid > 0x7fff_ffff ==> pid as i32 == pid - 0x1_0000_0000) by (bit_vector);
            plan.push(Action::Kill(pid as i32));
            assert(actions_view(plan@) =~= actions_view(before).push(
                ActionView::Kill(signed_pid(p.pid as int)),
            ));
        }
        i = i + 1;
    }
    assert(all.take(n as int) =~= all);
    let ghost before = plan@;
    plan.push(Action::RemoveFile(pid_file.to_string()));
    plan.push(
        Action::RemoveFile(
            "/var/packages/pan-xunlei-com/target/var/pan-xunlei-com.pid.child".to_string(),
        ),
    );
    plan.push(
        Action::RemoveFile(
            "/var/packages/pan-xunlei-com/target/var/pan-xunlei-com.sock".to_string(),
        ),
    );
    plan.push(
        Action::RemoveFile(
            "/var/packages/pan-xunlei-com/target/var/pan-xunlei-com-launcher.sock".to_string(),
        ),
    );
    assert(actions_view(plan@) =~= cleanup_plan(all, pid_file@));
    plan
}

// ---- stop -----------------------------------------------------------------

/// How many times the daemon is signalled at most, with a second after each.
pub const SIGNALS: u32 = 360;

/// A daemon that is being stopped.
#[derive(Debug, Clone, Copy, PartialEq)]
pub struct Stopping {
    pub pid: i32,
    /// How many signals may still be sent.
    pub left: u32,
}

/// What stopping comes to next.
#[derive(Debug, PartialEq)]
pub enum StopStep {
    /// Interrupt the process; then [`Stopping::signalled`].
    Signal(Stopping),
    /// Wait a second; then [`Stopping::slept`].
    Sleep(Stopping),
    /// Do this, and be done.
    Finish(Vec<Action>),
}

#[verifier::ext_equal]
pub enum StopStepView {
    Signal(Stopping),
    Sleep(Stopping),
    Finish(Seq<ActionView>),
}

impl View for StopStep {
    type V = StopStepView;

    open spec fn view(&self) -> StopStepView {
        match *self {
            StopStep::Signal(s) => StopStepView::Signal(s),
            StopStep::Sleep(s) => StopStepView::Sleep(s),
            StopStep::Finish(plan) => StopStepView::Finish(actions_view(plan@)),
        }
    }
}

/// What is left to do once the daemon is gone, or has not heeded its signals.
pub open spec fn stop_plan() -> Seq<ActionView> {
    seq![ActionView::RemoveFile(PID_PATH@), ActionView::CleanUp]
}

/// Stopping begins with a signal, where there is a pid.
pub open spec fn stop_start(pid: Option<i32>) -> StopStepView {
    match pid {
        Some(pid) => StopStepView::Signal(Stopping { pid, left: SIGNALS }),
        None => StopStepView::Finish(seq![ActionView::CleanUp]),
    }
}

/// After a signal that found the process there is a pause, and after one that did
/// not the process is gone.
pub open spec fn after_signal(s: Stopping, delivered: bool) -> StopStepView {
    if delivered {
        StopStepView::Sleep(
            Stopping {
                left: if s.left > 0 {
                    (s.left - 1) as u32
                } else {
                    0
                },
                ..s
            },
        )
    } else {
        StopStepView::Finish(stop_plan())
    }
}

/// After a pause comes the next signal, if one is left.
pub open spec fn after_sleep(s: Stopping) -> StopStepView {
    if s.left > 0 {
        StopStepView::Signal(s)
    } else {
        StopStepView::Finish(stop_plan())
    }
}

/// Stop the daemon, given the pid in the pid file.
pub fn stop(pid: Option<i32>) -> (step: StopStep)
    ensures
        step@ == stop_start(pid),
{
    match pid {
        Some(pid) => StopStep::Signal(Stopping { pid, left: SIGNALS }),
        None => {
            // Always clean up: the launcher is spawned independently and is NOT killed
            // by signalling the daemon, so it (and the core engine) can linger as
            // orphans. Remove them plus stale sockets/pid files.
            let mut plan: Vec<Action> = Vec::new();
            plan.push(Action::CleanUp);
            assert(actions_view(plan@) =~= seq![ActionView::CleanUp]);
            StopStep::Finish(plan)
        },
    }
}

fn stopped() -> (step: StopStep)
    ensures
        step@ == StopStepView::Finish(stop_plan()),
{
    let mut plan: Vec<Action> = Vec::new();
    plan.push(Action::RemoveFile(PID_PATH.to_string()));
    plan.push(Action::CleanUp);
    assert(actions_view(plan@) =~= stop_plan());
    StopStep::Finish(plan)
}

impl Stopping {
    /// Goes on once the signal was sent, or could not be.
    pub fn signalled(self, delivered: bool) -> (step: StopStep)
        ensures
            step@ == after_signal(self, delivered),
    {
        if delivered {
            let left = if self.left > 0 {
                self.left - 1
            } else {
                0
            };
            StopStep::Sleep(Stopping { pid: self.pid, left })
        } else {
            stopped()
        }
    }

    /// Goes on after the pause.
    pub fn slept(self) -> (step: StopStep)
        ensures
            step@ == after_sleep(self),
    {
        if self.left > 0 {
            StopStep::Signal(self)
        } else {
            stopped()
        }
    }
}

/// How far a step is from the end.
pub open spec fn steps_left(step: StopStepView) -> nat {
    match step {
        StopStepView::Signal(s) => 2 * s.left as nat + 2,
        StopStepView::Sleep(s) => 2 * s.left as nat + 1 + if s.left > 0 {
            2nat
        } else {
            0nat
        },
        StopStepView::Finish(_) => 0,
    }
}

/// How stopping goes on from a step, where `delivered` says of each signal, by how
/// many could still be sent, whether it finds the process: the number of signals that
/// are sent, and what is done at the end.
pub open spec fn stop_outcome(step: StopStepView, delivered: spec_fn(u32) -> bool) -> (
    nat,
    Seq<ActionView>,
)
    decreases steps_left(step),
{
    match step {
        StopStepView::Signal(s) => {
            let rest = stop_outcome(after_signal(s, delivered(s.left)), delivered);
            (rest.0 + 1, rest.1)
        },
        StopStepView::Sleep(s) => stop_outcome(after_sleep(s), delivered),
        StopStepView::Finish(plan) => (0, plan),
    }
}

proof fn lemma_stop_from(s: Stopping, delivered: spec_fn(u32) -> bool)
    requires
        s.left > 0,
    ensures
        1 <= stop_outcome(StopStepView::Signal(s), delivered).0 <= s.left,
        stop_outcome(StopStepView::Signal(s), delivered).1 == stop_plan(),
        stop_outcome(StopStepView::Signal(s), delivered).0 < s.left ==> exists|k: u32|
            0 < k <= s.left && !#[trigger] delivered(k),
    decreases s.left,
{
    let end = StopStepView::Finish(stop_plan());
    assert(stop_outcome(end, delivered) == (0nat, stop_plan()));
    if delivered(s.left) {
        let next = Stopping { left: (s.left - 1) as u32, ..s };
        assert(after_signal(s, true) == StopStepView::Sleep(next));
        if next.left > 0 {
            lemma_stop_from(next, delivered);
        }
        assert(stop_outcome(StopStepView::Sleep(next), delivered) == stop_outcome(
            after_sleep(next),
            delivered,
        ));
    } else {
        assert(after_signal(s, false) == end);
    }
}

/// Stopping comes to an end whatever the process does. It sends no more than
/// [`SIGNALS`] signals, and fewer only where one did not find the process; the clean-up
/// comes last, after the pid file, if there was one, is removed.
pub proof fn law_stop_always_cleans_up(pid: Option<i32>, delivered: spec_fn(u32) -> bool)
    ensures
        stop_outcome(stop_start(pid), delivered).0 <= SIGNALS,
        stop_outcome(stop_start(pid), delivered).1.last() == ActionView::CleanUp,
        match pid {
            Some(_) => stop_outcome(stop_start(pid), delivered).1 == stop_plan(),
            None => stop_outcome(stop_start(pid), delivered).0 == 0,
        },
        pid is Some && (forall|k: u32| #[trigger] delivered(k)) ==> stop_outcome(
            stop_start(pid),
            delivered,
        ).0 == SIGNALS,
{
    if let Some(pid) = pid {
        lemma_stop_from(Stopping { pid, left: SIGNALS }, delivered);
    }
}

// ---- status ---------------------------------------------------------------

/// What is known of the daemon's process.
#[derive(Debug, PartialEq)]
pub enum Status {
    /// There is no pid.
    NotRunning,
    /// There is a pid, but no such process.
    Missing,
    /// The process with this place in the list.
    Running(usize),
}

/// What is said where the daemon does not run.
pub const NOT_RUNNING: &'static str = "thunder is not running";

/// The pid of a pid file as the system's list of processes has it, in 32 bits without
/// a sign.
pub open spec fn listed_pid(pid: int) -> int {
    if pid < 0 {
        pid + 0x1_0000_0000
    } else {
        pid
    }
}

/// Show the status of the daemon, given the pid in the pid file and the pids of all
/// processes.
pub fn status(pid: Option<i32>, pids: &Vec<u32>) -> (status: Status)
    ensures
        match (pid, status) {
            (None, Status::NotRunning) => true,
            (Some(pid), Status::Missing) => forall|k: int|
                0 <= k < pids@.len() ==> #[trigger] pids@[k] != listed_pid(pid as int),
            (Some(pid), Status::Running(i)) => i < pids@.len() && pids@[i as int] == listed_pid(
                pid as int,
            ) && forall|k: int| 0 <= k < i ==> #[trigger] pids@[k] != listed_pid(pid as int),
            _ => false,
        },
{
    let own = match pid {
        Some(own) => own,
        None => return Status::NotRunning,
    };
    let raw = own as u32;
    assert(own < 0 ==> own as u32 == own + 0x1_0000_0000) by (bit_vector);
    let n = pids.len();
    let mut i: usize = 0;
    while i < n
        invariant
            n == pids@.len(),
            pid == Some(own),
            raw == listed_pid(own as int),
            i <= n,
            forall|k: int| 0 <= k < i ==> #[trigger] pids@[k] != raw,
        decreases n - i,
    {
        if pids[i] == raw {
            return Status::Running(i);
        }
        i = i + 1;
    }
    Status::Missing
}

/// The heading of the table that shows the daemon's process.
pub open spec fn status_heading() -> Seq<char> {
    crate::number::left_aligned("PID"@, 6) + " "@ + crate::number::left_aligned("CPU(%)"@, 6)
        + "  "@ + crate::number::left_aligned("MEM(MB)"@, 6)
}

/// The line that shows the daemon's process.
pub open spec fn status_row(pid: u32, cpu: Seq<char>, mem: Seq<char>) -> Seq<char> {
    crate::number::decimal(pid as int) + "   "@ + crate::number::left_aligned(cpu, 6) + "  "@
        + crate::number::left_aligned(mem, 6)
}

/// The table that shows the daemon's process, given the share of the CPU and the
/// megabytes that it takes up.
pub fn status_table(pid: u32, cpu: &str, mem: &str) -> (lines: Vec<String>)
    ensures
        crate::text::texts(lines@) == seq![status_heading(), status_row(pid, cpu@, mem@)],
{
    let mut heading = align_left("PID", 6);
    heading.append(" ");
    heading.append(align_left("CPU(%)", 6).as_str());
    heading.append("  ");
    heading.append(align_left("MEM(MB)", 6).as_str());
    let mut row = unsigned_text(pid as u64);
    row.append("   ");
    row.append(align_left(cpu, 6).as_str());
    row.append("  ");
    row.append(align_left(mem, 6).as_str());
    let mut lines: Vec<String> = Vec::new();
    lines.push(heading);
    lines.push(row);
    assert(crate::text::texts(lines@) =~= seq![status_heading(), status_row(pid, cpu@, mem@)]);
    lines
}

// ---- log ------------------------------------------------------------------

/// A log file that is being shown.
#[derive(Debug, PartialEq)]
pub struct LogFile {
    pub path: String,
    /// What is printed before the first line.
    pub placeholder: String,
    /// Whether a line was printed.
    pub started: bool,
}

#[verifier::ext_equal]
pub struct LogView {
    pub path: Seq<char>,
    pub placeholder: Seq<char>,
    pub started: bool,
}

impl View for LogFile {
    type V = LogView;

    open spec fn view(&self) -> LogView {
        LogView { path: self.path@, placeholder: self.placeholder@, started: self.started }
    }
}

pub open spec fn logs_view(logs: Seq<LogFile>) -> Seq<LogView> {
    logs.map_values(|l: LogFile| l@)
}

/// A line that was read, or why none was.
pub open spec fn line_view(line: Result<String, String>) -> Result<Seq<char>, Seq<char>> {
    match line {
        Ok(content) => Ok(content@),
        Err(cause) => Err(cause@),
    }
}

/// Show the log of the daemon: the files, in order.
pub fn log() -> (logs: Vec<LogFile>)
    ensures
        logs_view(logs@) == seq![
            (LogView { path: DEFAULT_STDOUT_PATH@, placeholder: "STDOUT>"@, started: false }),
            (LogView { path: DEFAULT_STDERR_PATH@, placeholder: "STDERR>"@, started: false }),
        ],
{
    let mut logs: Vec<LogFile> = Vec::new();
    logs.push(
        LogFile {
            path: DEFAULT_STDOUT_PATH.to_string(),
            placeholder: "STDOUT>".to_string(),
            started: false,
        },
    );
    logs.push(
        LogFile {
            path: DEFAULT_STDERR_PATH.to_string(),
            placeholder: "STDERR>".to_string(),
            started: false,
        },
    );
    assert(logs_view(logs@) =~= seq![
        (LogView { path: DEFAULT_STDOUT_PATH@, placeholder: "STDOUT>"@, started: false }),
        (LogView { path: DEFAULT_STDERR_PATH@, placeholder: "STDERR>"@, started: false }),
    ]);
    logs
}

/// Whether a log file is read: it is there, and not empty.
pub fn has_log(exists: bool, len: u64) -> (yes: bool)
    ensures
        yes == (exists && len > 0),
{
    exists && len != 0
}

/// What is printed for a line of a log file: the placeholder, if it is the first, and
/// the line; or that it could not be read.
pub open spec fn log_line(log: LogView, line: Result<Seq<char>, Seq<char>>) -> Seq<OutputView> {
    match line {
        Ok(content) => if log.started {
            seq![OutputView::Line(content)]
        } else {
            seq![OutputView::Line(log.placeholder), OutputView::Line(content)]
        },
        Err(cause) => seq![OutputView::ErrLine("Error reading line: "@ + cause)],
    }
}

/// A log file after a line.
pub open spec fn log_after(log: LogView, line: Result<Seq<char>, Seq<char>>) -> LogView {
    LogView { started: log.started || line is Ok, ..log }
}

impl LogFile {
    /// What is printed for the next line of the file.
    pub fn line(&mut self, line: Result<String, String>) -> (output: Vec<Output>)
        ensures
            crate::output::outputs_view(output@) == log_line(old(self)@, line_view(line)),
            final(self)@ == log_after(old(self)@, line_view(line)),
    {
        let ghost goal = log_line(self@, line_view(line));
        let mut output: Vec<Output> = Vec::new();
        match line {
            Ok(content) => {
                if !self.started {
                    self.started = true;
                    output.push(Output::Line(self.placeholder.clone()));
                }
                output.push(Output::Line(content));
            },
            Err(cause) => {
                let mut text = "Error reading line: ".to_string();
                text.append(cause.as_str());
                output.push(Output::ErrLine(text));
            },
        }
        assert(crate::output::outputs_view(output@) =~= goal);
        output
    }
}

/// What is printed for the lines of a log file, one after the other.
pub open spec fn log_output(log: LogView, lines: Seq<Result<Seq<char>, Seq<char>>>) -> Seq<
    OutputView,
>
    decreases lines.len(),
{
    if lines.len() == 0 {
        Seq::empty()
    } else {
        log_line(log, lines[0]) + log_output(log_after(log, lines[0]), lines.skip(1))
    }
}

/// The lines that could be read.
pub open spec fn good_lines(lines: Seq<Result<Seq<char>, Seq<char>>>) -> Seq<Seq<char>>
    decreases lines.len(),
{
    if lines.len() == 0 {
        Seq::empty()
    } else {
        match lines[0] {
            Ok(content) => seq![content] + good_lines(lines.skip(1)),
            Err(_) => good_lines(lines.skip(1)),
        }
    }
}

/// What goes to standard output.
pub open spec fn on_stdout(output: Seq<OutputView>) -> Seq<Seq<char>>
    decreases output.len(),
{
    if output.len() == 0 {
        Seq::empty()
    } else {
        match output[0] {
            OutputView::Line(l) => seq![l] + on_stdout(output.skip(1)),
            _ => on_stdout(output.skip(1)),
        }
    }
}

proof fn lemma_on_stdout_adds(a: Seq<OutputView>, b: Seq<OutputView>)
    ensures
        on_stdout(a + b) == on_stdout(a) + on_stdout(b),
    decreases a.len(),
{
    if a.len() == 0 {
        assert(a + b =~= b);
        assert(on_stdout(a) + on_stdout(b) =~= on_stdout(b));
    } else {
        lemma_on_stdout_adds(a.skip(1), b);
        assert((a + b).skip(1) =~= a.skip(1) + b);
        match a[0] {
            OutputView::Line(l) => {
                assert(seq![l] + (on_stdout(a.skip(1)) + on_stdout(b)) =~= (seq![l] + on_stdout(
                    a.skip(1),
                )) + on_stdout(b));
            },
            _ => {},
        }
    }
}

/// A log is shown whole and in order: every line that could be read is printed once,
/// and the placeholder once before them all, or not at all where there is no line.
pub proof fn law_log_is_shown_whole(log: LogView, lines: Seq<Result<Seq<char>, Seq<char>>>)
    ensures
        on_stdout(log_output(log, lines)) == if log.started || good_lines(lines).len() == 0 {
            good_lines(lines)
        } else {
            seq![log.placeholder] + good_lines(lines)
        },
    decreases lines.len(),
{
    if lines.len() > 0 {
        let first = log_line(log, lines[0]);
        let next = log_after(log, lines[0]);
        let rest = lines.skip(1);
        law_log_is_shown_whole(next, rest);
        lemma_on_stdout_adds(first, log_output(next, rest));
        reveal_with_fuel(on_stdout, 3);
        match lines[0] {
            Ok(content) => {
                if log.started {
                    assert(first.skip(1) =~= Seq::<OutputView>::empty());
                    assert(on_stdout(first) =~= seq![content]);
                } else {
                    assert(first.skip(1) =~= seq![OutputView::Line(content)]);
                    assert(first.skip(1).skip(1) =~= Seq::<OutputView>::empty());
                    assert(on_stdout(first) =~= seq![log.placeholder, content]);
                    assert(seq![log.placeholder, content] + good_lines(rest) =~= seq![
                        log.placeholder,
                    ] + (seq![content] + good_lines(rest)));
                }
            },
            Err(cause) => {
                assert(first.skip(1) =~= Seq::<OutputView>::empty());
                assert(on_stdout(first) =~= Seq::<Seq<char>>::empty());
                assert(on_stdout(first) + on_stdout(log_output(next, rest)) =~= on_stdout(
                    log_output(next, rest),
                ));
            },
        }
    }
}

// ---- laws -----------------------------------------------------------------

/// The pid of a daemon, written in decimal with a line end after it or without,
/// reads back.
pub proof fn law_pid_reads_back(pid: i32, line_end: bool)
    ensures
        pid_in(
            Some(
                vstd::utf8::encode_utf8(
                    crate::number::decimal(pid as int) + if line_end {
                        seq!['\n']
                    } else {
                        Seq::empty()
                    },
                ),
            ),
        ) == Some(pid as int),
{
    let number = crate::number::decimal(pid as int);
    let end = if line_end {
        seq!['\n']
    } else {
        Seq::empty()
    };
    let text = number + end;
    vstd::utf8::encode_utf8_valid_utf8(text);
    vstd::utf8::encode_utf8_decode_utf8(text);
    crate::number::law_decimal_reads_back(pid as int);
    crate::number::lemma_decimal_is_trimmed(pid as int);
    crate::text::law_trim_is_idempotent(number);
    if line_end {
        assert(text.last() == '\n');
        assert(text[0] == number[0]);
        assert(text.drop_last() =~= number);
        assert(crate::text::strip_start(text, crate::text::Strip::Whitespace) == text);
        assert(crate::text::strip_end(text, crate::text::Strip::Whitespace)
            == crate::text::strip_end(number, crate::text::Strip::Whitespace));
    } else {
        assert(text =~= number);
    }
}

/// There is one instance only: a daemon is launched exactly where none is alive, and
/// right after the clean-up.
pub proof fn law_one_instance(pid: Option<(i32, bool)>)
    ensures
        start_plan(pid).contains(ActionView::Launch) <==> !(pid matches Some((p, alive)) && alive),
        start_plan(pid).contains(ActionView::Launch) ==> start_plan(pid).len() >= 2
            && start_plan(pid).last() == ActionView::Launch && start_plan(pid)[start_plan(pid).len()
            - 2] == ActionView::CleanUp,
{
    let plan = start_plan(pid);
    match pid {
        Some((p, true)) => {},
        _ => {
            assert(plan[plan.len() - 1] == ActionView::Launch);
        },
    }
}

/// The clean-up kills the engine's processes, all of them and no others.
pub proof fn law_only_engines_are_killed(processes: Seq<ProcessView>, pid: int)
    ensures
        kills(processes).contains(ActionView::Kill(pid)) <==> exists|i: int|
            0 <= i < processes.len() && engine_process(#[trigger] processes[i]) && signed_pid(
                processes[i].pid as int,
            ) == pid,
        forall|k: int| 0 <= k < kills(processes).len() ==> (#[trigger] kills(processes)[k]) is Kill,
    decreases processes.len(),
{
    if processes.len() > 0 {
        let init = processes.drop_last();
        let last = processes.last();
        let before = kills(init);
        law_only_engines_are_killed(init, pid);
        let now = kills(processes);
        if before.contains(ActionView::Kill(pid)) {
            let k = choose|k: int| 0 <= k < before.len() && before[k] == ActionView::Kill(pid);
            assert(now[k] == ActionView::Kill(pid));
            let i = choose|i: int|
                0 <= i < init.len() && engine_process(#[trigger] init[i]) && signed_pid(
                    init[i].pid as int,
                ) == pid;
            assert(processes[i] == init[i]);
        }
        if engine_process(last) && signed_pid(last.pid as int) == pid {
            assert(now[now.len() - 1] == ActionView::Kill(pid));
            assert(processes[processes.len() - 1] == last);
        }
        if now.contains(ActionView::Kill(pid)) {
            let k = choose|k: int| 0 <= k < now.len() && now[k] == ActionView::Kill(pid);
            if k < before.len() {
                assert(before[k] == ActionView::Kill(pid));
            } else {
                assert(processes[processes.len() - 1] == last);
            }
        }
        if exists|i: int|
            0 <= i < processes.len() && engine_process(#[trigger] processes[i]) && signed_pid(
                processes[i].pid as int,
            ) == pid {
            let i = choose|i: int|
                0 <= i < processes.len() && engine_process(#[trigger] processes[i]) && signed_pid(
                    processes[i].pid as int,
                ) == pid;
            if i < init.len() {
                assert(init[i] == processes[i]);
            }
        }
        assert forall|k: int| 0 <= k < now.len() implies (#[trigger] now[k]) is Kill by {
            if k < before.len() {
                assert(now[k] == before[k]);
            }
        }
    }
}

/// Only root goes on; anyone else is told, and the program is left with an error.
pub proof fn law_only_root_goes_on(is_root: bool)
    ensures
        root_plan(is_root).len() == 0 <==> is_root,
        !is_root ==> root_plan(is_root).last() == ActionView::Exit(-1) && root_plan(is_root)[0]
            == ActionView::Print("You must run this executable with root permissions"@),
{
}

/// A daemon that is alive is told by its pid, and nothing else is done. A pid file of one
/// that is not is told and removed before anything is launched.
pub proof fn law_stale_pid_files_are_removed(pid: i32)
    ensures
        start_plan(Some((pid, true))) == seq![
            ActionView::Print(
                "Thunder is already running with pid: "@ + crate::number::decimal(pid as int),
            ),
        ],
        start_plan(Some((pid, false))).len() == 4,
        start_plan(Some((pid, false)))[0] == ActionView::Print(
            "Removing stale pid file (pid "@ + crate::number::decimal(pid as int)
                + " not running)"@,
        ),
        start_plan(Some((pid, false)))[1] == ActionView::RemoveFile("/var/run/thunder.pid"@),
        !start_plan(None).contains(ActionView::RemoveFile("/var/run/thunder.pid"@)),
{
}

/// The clean-up removes the engine's pid file, the one of its child and both sockets,
/// after all of the engine's processes are killed.
pub proof fn law_cleanup_removes_the_state_files(
    processes: Seq<ProcessView>,
    pid_file: Seq<char>,
)
    ensures
        cleanup_plan(processes, pid_file) == kills(processes) + seq![
            ActionView::RemoveFile(pid_file),
            ActionView::RemoveFile(
                "/var/packages/pan-xunlei-com/target/var/pan-xunlei-com.pid.child"@,
            ),
            ActionView::RemoveFile("/var/packages/pan-xunlei-com/target/var/pan-xunlei-com.sock"@),
            ActionView::RemoveFile(
                "/var/packages/pan-xunlei-com/target/var/pan-xunlei-com-launcher.sock"@,
            ),
        ],
{
    assert(state_files(pid_file).map_values(|path: Seq<char>| ActionView::RemoveFile(path)) =~= seq![
        ActionView::RemoveFile(pid_file),
        ActionView::RemoveFile(
            "/var/packages/pan-xunlei-com/target/var/pan-xunlei-com.pid.child"@,
        ),
        ActionView::RemoveFile("/var/packages/pan-xunlei-com/target/var/pan-xunlei-com.sock"@),
        ActionView::RemoveFile(
            "/var/packages/pan-xunlei-com/target/var/pan-xunlei-com-launcher.sock"@,
        ),
    ]);
}

/// A process belongs to the engine exactly where its name, or its command line, names
/// the engine or the launcher.
pub proof fn law_engines_are_told_by_name(
    p: ProcessView,
    before: Seq<char>,
    after: Seq<char>,
)
    ensures
        p.name == before + "xunlei-pan-cli"@ + after ==> engine_process(p),
        crate::text::join(p.cmd, " "@) == before + "xunlei-pan-cli-launcher"@ + after
            ==> engine_process(p),
        crate::text::join(p.cmd, " "@) == before + "/xunlei-pan-cli."@ + after ==> engine_process(
            p,
        ),
        engine_process(p) ==> crate::text::holds_text(p.name, "xunlei-pan-cli"@)
            || crate::text::holds_text(crate::text::join(p.cmd, " "@), "xunlei-pan-cli-launcher"@)
            || crate::text::holds_text(crate::text::join(p.cmd, " "@), "/xunlei-pan-cli."@),
{
    lemma_holds_middle(before, "xunlei-pan-cli"@, after);
    lemma_holds_middle(before, "xunlei-pan-cli-launcher"@, after);
    lemma_holds_middle(before, "/xunlei-pan-cli."@, after);
}

proof fn lemma_holds_middle(before: Seq<char>, part: Seq<char>, after: Seq<char>)
    ensures
        crate::text::holds_text(before + part + after, part),
{
    let whole = before + part + after;
    assert(whole.subrange(before.len() as int, (before.len() + part.len()) as int) =~= part);
    assert(crate::text::stands_at(whole, part, before.len() as int));
}

/// What could not be read of a log is told, each time, on standard error.
pub proof fn law_log_errors_are_told(log: LogView, cause: Seq<char>)
    ensures
        log_line(log, Err(cause)) == seq![OutputView::ErrLine("Error reading line: "@ + cause)],
        log_after(log, Err(cause)) == log,
{
}

/// The daemon's process is shown with its own pid, and its share of the CPU and its
/// megabytes in columns of their own.
pub proof fn law_status_shows_the_process(pid: u32, cpu: Seq<char>, mem: Seq<char>)
    ensures
        status_row(pid, cpu, mem) == crate::number::decimal(pid as int) + "   "@
            + crate::number::left_aligned(cpu, 6) + "  "@ + crate::number::left_aligned(mem, 6),
{
}

/// It is the daemon of the pid file that is signalled, each time, with one signal fewer
/// left after each that found it.
pub proof fn law_the_daemon_itself_is_signalled(pid: i32, s: Stopping)
    ensures
        stop_start(Some(pid)) matches StopStepView::Signal(first) && first.pid == pid
            && first.left == 360,
        after_signal(s, true) matches StopStepView::Sleep(next) && next.pid == s.pid && (s.left > 0
            ==> next.left == s.left - 1),
        s.left > 0 ==> after_sleep(s) == StopStepView::Signal(s),
        s.left == 0 ==> after_sleep(s) is Finish,
        after_signal(s, false) is Finish,
{
}

} // verus!
