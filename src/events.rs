//! Events that drive the runner's event loop, and the signals used for shutdown.

use vstd::prelude::*;

verus! {

/// Signals used for graceful process shutdown.
#[derive(Debug, Clone, Copy, PartialEq, Eq, Structural)]
pub enum ProcessSignal {
    SigInt,
    SigTerm,
}

/// The display label of a signal.
pub open spec fn signal_label(s: ProcessSignal) -> Seq<char> {
    match s {
        ProcessSignal::SigInt => seq!['S', 'I', 'G', 'I', 'N', 'T'],
        ProcessSignal::SigTerm => seq!['S', 'I', 'G', 'T', 'E', 'R', 'M'],
    }
}

impl ProcessSignal {
    pub fn label(self) -> (r: &'static str)
        ensures
            r@ == signal_label(self),
    {
        match self {
            ProcessSignal::SigInt => {
                proof {
                    reveal_strlit("SIGINT");
                }
                "SIGINT"
            },
            ProcessSignal::SigTerm => {
                proof {
                    reveal_strlit("SIGTERM");
                }
                "SIGTERM"
            },
        }
    }
}

/// The output stream a line came from.
#[derive(Debug, Clone, Copy, PartialEq, Eq, Structural)]
pub enum StreamKind {
    Stdout,
    Stderr,
}

/// An event of the runner's single, totally ordered event stream.
///
/// Terminal input events (keys, mouse) belong to the terminal front end and are
/// carried next to these by the program.
#[derive(Debug, Clone)]
pub enum Event {
    /// A process is about to start.
    ProcessStarting { id: usize },
    /// A process has started successfully.
    ProcessStarted { id: usize, pid: u32 },
    /// A process has passed its readiness check.
    ProcessReady { id: usize },
    /// A process is waiting on its dependencies to become ready.
    ProcessWaiting { id: usize, deps: Vec<String> },
    /// A line of output was received from a process.
    ProcessOutput { id: usize, line: String, stream: StreamKind },
    /// A process exited, with its code when the OS reports one.
    ProcessExited { id: usize, code: Option<i32> },
    /// A process failed to start or could not be waited on.
    ProcessFailed { id: usize, error: String },
    /// A signal was sent to a process.
    ProcessSignal { id: usize, signal: ProcessSignal },
    /// A request to restart a process.
    Restart { id: usize },
    /// The runner itself received a shutdown signal.
    Shutdown { signal: ProcessSignal },
    /// Raw bytes received on the runner's standard input.
    Stdin(Vec<u8>),
    /// The terminal was resized.
    Resize { width: u16, height: u16 },
}

} // verus!
