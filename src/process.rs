//! Process specifications and the per-process state the UI observes.

use vstd::prelude::*;

use crate::output::LogBuffer;

verus! {

/// How a process signals that it is ready for its dependents.
#[derive(Debug, Clone)]
pub enum ReadinessCheck {
    /// A TCP connection to this loopback port succeeds.
    Tcp(u16),
    /// This many milliseconds have passed since the start.
    Delay(u64),
    /// An output line matches this regular expression.
    Log(String),
}

/// Specification of one process to run.
#[derive(Debug, Clone)]
pub struct ProcessSpec {
    /// Display name, unique among the specs.
    pub name: String,
    /// The executable.
    pub cmd: String,
    /// Arguments for the executable.
    pub args: Vec<String>,
    /// Working directory.
    pub cwd: Option<String>,
    /// Color of the process name in logs.
    pub color: Option<String>,
    /// Environment overrides, in order; a later entry for a key wins.
    pub env: Vec<(String, String)>,
    /// Whether to restart the process when it fails.
    pub restart_on_fail: bool,
    /// Whether the log view follows new output at first.
    pub follow: bool,
    /// Command to run before the main process.
    pub pre_cmd: Option<String>,
    /// Paths to watch for changes.
    pub watch_paths: Vec<String>,
    /// Patterns to ignore when watching.
    pub watch_ignore: Vec<String>,
    /// Whether gitignore rules are left out of the watch filter.
    pub watch_ignore_gitignore: bool,
    /// Quiet period, in milliseconds, before a watch restart.
    pub watch_debounce_ms: u64,
    /// Names of the processes this one depends on.
    pub depends_on: Vec<String>,
    /// Readiness check; `None` means ready as soon as started.
    pub ready_check: Option<ReadinessCheck>,
    /// Tags for grouping.
    pub tags: Vec<String>,
}

/// The lifecycle status of a process as the UI shows it.
#[derive(Debug, Clone, PartialEq, Eq)]
pub enum ProcessStatus {
    Idle,
    Starting,
    Running,
    Exited { code: Option<i32> },
    Failed { error: String },
}

/// Runtime state of one process as the UI observes it.
#[derive(Debug, Clone)]
pub struct ProcessState {
    pub spec: ProcessSpec,
    pub status: ProcessStatus,
    pub pid: Option<u32>,
    /// When the current run started, in milliseconds on the caller's clock.
    pub started_at: Option<u64>,
    pub exit_code: Option<i32>,
    pub logs: LogBuffer,
    pub scroll: usize,
    pub follow: bool,
    pub input_active: bool,
    pub ready: bool,
}

impl ProcessState {
    /// A fresh, idle state for `spec`, keeping at most `max_lines` log lines.
    pub fn new(spec: ProcessSpec, max_lines: usize) -> (r: Self)
        ensures
            r.spec == spec,
            r.status == ProcessStatus::Idle,
            r.pid.is_none(),
            r.started_at.is_none(),
            r.exit_code.is_none(),
            r.logs.wf(),
            r.logs@.len() == 0,
            r.logs.capacity() == max_lines,
            r.scroll == 0,
            r.follow == spec.follow,
            !r.input_active,
            !r.ready,
    {
        let follow = spec.follow;
        ProcessState {
            spec,
            status: ProcessStatus::Idle,
            pid: None,
            started_at: None,
            exit_code: None,
            logs: LogBuffer::new(max_lines),
            scroll: 0,
            follow,
            input_active: false,
            ready: false,
        }
    }
}

} // verus!
