//! The per-child escalation state machine: SIGINT, then SIGTERM, then a forced kill.
//!
//! Times are milliseconds on a monotonic clock chosen by the caller.

use vstd::prelude::*;

use crate::events::ProcessSignal;

verus! {

/// How long to wait after each signal before escalating; zero skips a stage.
#[derive(Debug, Clone, Copy, PartialEq, Eq, Structural)]
pub struct ShutdownConfig {
    pub sigint_ms: u64,
    pub sigterm_ms: u64,
}

/// The stage an escalated shutdown is in.
#[derive(Debug, Clone, Copy, PartialEq, Eq, Structural)]
pub enum ShutdownStage {
    SigInt,
    SigTerm,
    Kill,
}

/// An escalated shutdown in progress: its stage and when that stage runs out.
#[derive(Debug, Clone, Copy, PartialEq, Eq, Structural)]
pub struct ShutdownState {
    pub stage: ShutdownStage,
    pub deadline: u64,
}

/// What a tick of the clock does to a shutdown in progress.
#[derive(Debug, Clone, Copy, PartialEq, Eq, Structural)]
pub enum ShutdownStep {
    /// The deadline has not come yet.
    Wait,
    /// Send SIGTERM and wait in the SIGTERM stage until the new deadline.
    Escalate(ShutdownState),
    /// Force-terminate the child.
    Kill,
}

impl ShutdownConfig {
    pub fn new(sigint_ms: u64, sigterm_ms: u64) -> (r: Self)
        ensures
            r.sigint_ms == sigint_ms,
            r.sigterm_ms == sigterm_ms,
    {
        ShutdownConfig { sigint_ms, sigterm_ms }
    }

    /// Milliseconds to wait after SIGINT.
    pub fn sigint_timeout(&self) -> (r: u64)
        ensures
            r == self.sigint_ms,
    {
        self.sigint_ms
    }

    /// Milliseconds to wait after SIGTERM.
    pub fn sigterm_timeout(&self) -> (r: u64)
        ensures
            r == self.sigterm_ms,
    {
        self.sigterm_ms
    }

    pub fn sigint_enabled(&self) -> (r: bool)
        ensures
            r == (self.sigint_ms > 0),
    {
        self.sigint_ms > 0
    }

    pub fn sigterm_enabled(&self) -> (r: bool)
        ensures
            r == (self.sigterm_ms > 0),
    {
        self.sigterm_ms > 0
    }

    /// Clocks up to this value leave room for every deadline the escalation sets.
    pub open spec fn fits(&self, now: u64) -> bool {
        now as int + self.sigint_ms as int + self.sigterm_ms as int <= u64::MAX as int
    }
}

/// The stage a shutdown begins in, the signal sent on entering it, and its deadline.
///
/// The requested signal's stage is used when enabled, the other signal's stage
/// otherwise, and a forced kill at once when both are disabled.
pub open spec fn initial_stage(cfg: ShutdownConfig, initial: ProcessSignal, now: int) -> (
    ShutdownStage,
    Option<ProcessSignal>,
    int,
) {
    let int_stage = (ShutdownStage::SigInt, Some(ProcessSignal::SigInt), now + cfg.sigint_ms);
    let term_stage = (ShutdownStage::SigTerm, Some(ProcessSignal::SigTerm), now + cfg.sigterm_ms);
    match initial {
        ProcessSignal::SigInt => if cfg.sigint_ms > 0 {
            int_stage
        } else if cfg.sigterm_ms > 0 {
            term_stage
        } else {
            (ShutdownStage::Kill, None, now)
        },
        ProcessSignal::SigTerm => if cfg.sigterm_ms > 0 {
            term_stage
        } else if cfg.sigint_ms > 0 {
            int_stage
        } else {
            (ShutdownStage::Kill, None, now)
        },
    }
}

/// Chooses the first stage of a shutdown requested at `now` with `initial`.
pub fn initial_shutdown_stage(cfg: ShutdownConfig, initial: ProcessSignal, now: u64) -> (r: (
    ShutdownStage,
    Option<ProcessSignal>,
    u64,
))
    requires
        cfg.fits(now),
    ensures
        (r.0, r.1, r.2 as int) == initial_stage(cfg, initial, now as int),
{
    match initial {
        ProcessSignal::SigInt => {
            if cfg.sigint_enabled() {
                return (ShutdownStage::SigInt, Some(ProcessSignal::SigInt), now + cfg.sigint_ms);
            }
            if cfg.sigterm_enabled() {
                return (ShutdownStage::SigTerm, Some(ProcessSignal::SigTerm), now + cfg.sigterm_ms);
            }
        },
        ProcessSignal::SigTerm => {
            if cfg.sigterm_enabled() {
                return (ShutdownStage::SigTerm, Some(ProcessSignal::SigTerm), now + cfg.sigterm_ms);
            }
            if cfg.sigint_enabled() {
                return (ShutdownStage::SigInt, Some(ProcessSignal::SigInt), now + cfg.sigint_ms);
            }
        },
    }
    (ShutdownStage::Kill, None, now)
}

/// What a tick at `now` does to a shutdown in `state`.
pub open spec fn next_step(cfg: ShutdownConfig, state: ShutdownState, now: int) -> ShutdownStep {
    if now < state.deadline {
        ShutdownStep::Wait
    } else {
        match state.stage {
            ShutdownStage::SigInt => if cfg.sigterm_ms > 0 {
                ShutdownStep::Escalate(
                    ShutdownState { stage: ShutdownStage::SigTerm, deadline: (now + cfg.sigterm_ms) as u64 },
                )
            } else {
                ShutdownStep::Kill
            },
            _ => ShutdownStep::Kill,
        }
    }
}

/// Advances a shutdown on a tick of the clock at `now`.
pub fn advance_shutdown(cfg: ShutdownConfig, state: ShutdownState, now: u64) -> (r: ShutdownStep)
    requires
        now as int + cfg.sigterm_ms as int <= u64::MAX as int,
    ensures
        r == next_step(cfg, state, now as int),
{
    if now < state.deadline {
        return ShutdownStep::Wait;
    }
    match state.stage {
        ShutdownStage::SigInt => {
            if cfg.sigterm_enabled() {
                ShutdownStep::Escalate(
                    ShutdownState { stage: ShutdownStage::SigTerm, deadline: now + cfg.sigterm_ms },
                )
            } else {
                ShutdownStep::Kill
            }
        },
        _ => ShutdownStep::Kill,
    }
}

/// With SIGINT disabled and SIGTERM enabled, a shutdown requested with SIGINT
/// sends SIGTERM first.
pub proof fn lemma_sigint_skipped(cfg: ShutdownConfig, now: int)
    requires
        cfg.sigint_ms == 0,
        cfg.sigterm_ms > 0,
    ensures
        initial_stage(cfg, ProcessSignal::SigInt, now) == (
            ShutdownStage::SigTerm,
            Some(ProcessSignal::SigTerm),
            now + cfg.sigterm_ms,
        ),
{
}

/// With both stages disabled, a shutdown goes straight to the kill and sends no signal.
pub proof fn lemma_both_disabled(cfg: ShutdownConfig, initial: ProcessSignal, now: int)
    requires
        cfg.sigint_ms == 0,
        cfg.sigterm_ms == 0,
    ensures
        initial_stage(cfg, initial, now) == (ShutdownStage::Kill, None::<ProcessSignal>, now),
{
}

/// Termination bound: a shutdown begun at `start` is due for the kill on the first
/// tick that comes after its first deadline, or on the first tick after the
/// SIGTERM deadline; every deadline it sets lies within `sigint_ms + sigterm_ms`
/// of the tick that set it or of `start`.
pub proof fn lemma_shutdown_bound(
    cfg: ShutdownConfig,
    initial: ProcessSignal,
    start: int,
    t1: int,
    t2: int,
)
    requires
        0 <= start <= t1 <= t2,
        t1 >= initial_stage(cfg, initial, start).2,
        t1 + cfg.sigterm_ms <= u64::MAX,
        start + cfg.sigint_ms + cfg.sigterm_ms <= u64::MAX,
        t2 >= t1 + cfg.sigterm_ms,
    ensures
        initial_stage(cfg, initial, start).2 <= start + cfg.sigint_ms + cfg.sigterm_ms,
        ({
            let (stage, _, deadline) = initial_stage(cfg, initial, start);
            let s0 = ShutdownState { stage, deadline: deadline as u64 };
            match next_step(cfg, s0, t1) {
                ShutdownStep::Kill => true,
                ShutdownStep::Escalate(s1) => s1.deadline == t1 + cfg.sigterm_ms && next_step(
                    cfg,
                    s1,
                    t2,
                ) == ShutdownStep::Kill,
                ShutdownStep::Wait => false,
            }
        }),
{
}

} // verus!
