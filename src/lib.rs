//! Piperack: a concurrent multi-process runner.
//!
//! The library holds the decision logic of the runner as verified state machines:
//! the supervisor (dependency-gated start, escalated shutdown, exit reaping), the
//! event-loop policies (restart backoff, success policy, kill-others), the watch
//! debouncer, log buffering, the UI state and command-line parsing. Everything that
//! touches the operating system (spawning, signals, pipes, the terminal, the file
//! system) lives in the program around the library, which performs the actions the
//! library decides and reports the outcomes back.

mod text;

pub mod ansi;
pub mod app;
pub mod config;
pub mod display;
pub mod events;
pub mod format;
pub mod input;
pub mod output;
pub mod policy;
pub mod process;
pub mod runner;
pub mod settings;
pub mod shutdown;
pub mod version;
pub mod watch;
