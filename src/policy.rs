//! Policies the event loop applies when processes exit: restart with backoff,
//! the success policy, and kill-others.

use vstd::prelude::*;

use crate::text::{append_str, push_decimal, decimal};

verus! {

/// When the run as a whole counts as successful.
#[derive(Debug, Clone, Copy, PartialEq, Eq, Structural)]
pub enum SuccessPolicy {
    /// The first process to exit with 0 ends the run successfully.
    First,
    /// The run ends when all have exited; it fails iff the last exit is non-zero.
    Last,
    /// The run ends when all have exited; it fails iff any exit is non-zero.
    All,
}

/// Whether an exit counts as a failure: a missing code (killed by a signal)
/// counts as one.
pub open spec fn failing(code: Option<i32>) -> bool {
    match code {
        Some(c) => c != 0,
        None => true,
    }
}

fn is_failing(code: Option<i32>) -> (r: bool)
    ensures
        r == failing(code),
{
    match code {
        Some(c) => c != 0,
        None => true,
    }
}

pub open spec fn pow2(e: nat) -> nat
    decreases e,
{
    if e == 0 {
        1
    } else {
        2 * pow2((e - 1) as nat)
    }
}

/// The delay before restart attempt `attempt`, in milliseconds: the configured
/// delay when set, else `2^min(attempt-1, 5)` seconds capped at 30 seconds.
pub open spec fn backoff_ms(attempt: nat, restart_delay_ms: Option<u64>) -> nat {
    match restart_delay_ms {
        Some(d) => d as nat,
        None => {
            let e: nat = if attempt == 0 {
                0
            } else if attempt - 1 > 5 {
                5
            } else {
                (attempt - 1) as nat
            };
            let secs = if pow2(e) > 30 {
                30
            } else {
                pow2(e)
            };
            secs * 1000
        },
    }
}

/// The delay before restart attempt `attempt`, in milliseconds.
pub fn backoff_delay(attempt: u32, restart_delay_ms: Option<u64>) -> (r: u64)
    ensures
        r == backoff_ms(attempt as nat, restart_delay_ms),
{
    if let Some(delay_ms) = restart_delay_ms {
        return delay_ms;
    }
    let capped: u32 = if attempt == 0 {
        0
    } else if attempt - 1 > 5 {
        5
    } else {
        attempt - 1
    };
    let mut delay: u64 = 1;
    let mut k: u32 = 0;
    while k < capped
        invariant
            k <= capped <= 5,
            delay == pow2(k as nat),
            delay <= 32,
        decreases capped - k,
    {
        proof {
            reveal_with_fuel(pow2, 6);
        }
        delay = delay * 2;
        k += 1;
        assert(pow2(k as nat) == 2 * pow2((k - 1) as nat));
    }
    let secs = if delay > 30 {
        30
    } else {
        delay
    };
    secs * 1000
}

/// The backoff schedule without a configured delay: 1, 2, 4, 8, 16 seconds, then
/// the 30 second cap from the sixth attempt on.
pub proof fn lemma_backoff_schedule()
    ensures
        backoff_ms(1, None) == 1000,
        backoff_ms(2, None) == 2000,
        backoff_ms(3, None) == 4000,
        backoff_ms(4, None) == 8000,
        backoff_ms(5, None) == 16000,
        backoff_ms(6, None) == 30000,
        backoff_ms(7, None) == 30000,
        backoff_ms(8, None) == 30000,
        forall|a: nat| a >= 6 ==> #[trigger] backoff_ms(a, None) == 30000,
{
    reveal_with_fuel(pow2, 6);
}

/// What the event loop announces when it schedules a restart.
#[derive(Debug, Clone, Copy, PartialEq, Eq, Structural)]
pub struct RestartInfo {
    pub attempt: u32,
    pub max: Option<u32>,
    pub delay_ms: u64,
}

/// Consecutive failed attempts per process, for restart-on-failure.
#[derive(Debug, Clone)]
pub struct RestartTracker {
    attempts: Vec<u32>,
}

impl View for RestartTracker {
    type V = Seq<u32>;

    closed spec fn view(&self) -> Seq<u32> {
        self.attempts@
    }
}

impl RestartTracker {
    /// A tracker for `n` processes, with no failed attempts.
    pub fn new(n: usize) -> (r: Self)
        ensures
            r@ == Seq::new(n as nat, |i: int| 0u32),
    {
        let mut attempts: Vec<u32> = Vec::new();
        let mut i: usize = 0;
        while i < n
            invariant
                i <= n,
                attempts@ == Seq::new(i as nat, |k: int| 0u32),
            decreases n - i,
        {
            attempts.push(0);
            i += 1;
            assert(attempts@ =~= Seq::new(i as nat, |k: int| 0u32));
        }
        RestartTracker { attempts }
    }

    /// Forgets the failed attempts of process `id` (an explicit restart, or a
    /// successful exit).
    pub fn reset(&mut self, id: usize)
        ensures
            final(self)@ == (if id < old(self)@.len() {
                old(self)@.update(id as int, 0)
            } else {
                old(self)@
            }),
    {
        if id < self.attempts.len() {
            self.attempts.set(id, 0);
        }
    }

    /// Applies the restart-on-failure policy to an exit of process `id`: a
    /// failing exit of a process with `restart_on_fail` counts an attempt and,
    /// while the count is within `restart_tries` (unbounded when unset), asks for
    /// a restart after the backoff delay; a successful exit resets the count.
    pub fn handle_restart(
        &mut self,
        id: usize,
        code: Option<i32>,
        restart_on_fail: bool,
        restart_tries: Option<u32>,
        restart_delay_ms: Option<u64>,
    ) -> (r: Option<RestartInfo>)
        ensures
            id >= old(self)@.len() ==> final(self)@ == old(self)@ && r.is_none(),
            id < old(self)@.len() ==> {
                let before = old(self)@[id as int];
                let attempt = if before == u32::MAX {
                    before
                } else {
                    (before + 1) as u32
                };
                if restart_on_fail && failing(code) {
                    &&& final(self)@ == old(self)@.update(id as int, attempt)
                    &&& r == (if restart_tries is None || attempt <= restart_tries->0 {
                        Some(
                            RestartInfo {
                                attempt,
                                max: restart_tries,
                                delay_ms: backoff_ms(attempt as nat, restart_delay_ms) as u64,
                            },
                        )
                    } else {
                        None
                    })
                } else {
                    &&& r.is_none()
                    &&& final(self)@ == (if failing(code) {
                        old(self)@
                    } else {
                        old(self)@.update(id as int, 0)
                    })
                }
            },
    {
        if id >= self.attempts.len() {
            return None;
        }
        let fails = is_failing(code);
        if restart_on_fail && fails {
            let before = self.attempts[id];
            let attempt = if before == u32::MAX {
                before
            } else {
                before + 1
            };
            self.attempts.set(id, attempt);
            let within = match restart_tries {
                Some(max) => attempt <= max,
                None => true,
            };
            if within {
                let delay_ms = backoff_delay(attempt, restart_delay_ms);
                return Some(RestartInfo { attempt, max: restart_tries, delay_ms });
            }
        } else if !fails {
            self.attempts.set(id, 0);
        }
        None
    }
}

/// The message announcing a scheduled restart.
pub open spec fn restart_message(info: RestartInfo) -> Seq<char> {
    "retrying in "@ + decimal(info.delay_ms as nat) + "ms (attempt "@ + decimal(info.attempt as nat)
        + match info.max {
        Some(m) => "/"@ + decimal(m as nat),
        None => Seq::empty(),
    } + ")"@
}

pub fn format_restart_message(info: &RestartInfo) -> (r: String)
    ensures
        r@ == restart_message(*info),
{
    proof {
        reveal_strlit("retrying in ");
        reveal_strlit("ms (attempt ");
        reveal_strlit("/");
        reveal_strlit(")");
    }
    let mut s = String::new();
    append_str(&mut s, "retrying in ");
    push_decimal(&mut s, info.delay_ms);
    append_str(&mut s, "ms (attempt ");
    push_decimal(&mut s, info.attempt as u64);
    let ghost mid = s@;
    match info.max {
        Some(m) => {
            append_str(&mut s, "/");
            push_decimal(&mut s, m as u64);
        },
        None => {},
    }
    append_str(&mut s, ")");
    proof {
        let tail = match info.max {
            Some(m) => "/"@ + decimal(m as nat),
            None => Seq::empty(),
        };
        assert(s@ =~= mid + tail + ")"@);
        assert(restart_message(*info) =~= mid + tail + ")"@);
    }
    s
}

/// A message from the runner itself, shown among a process's output.
pub open spec fn tool_message(text: Seq<char>, use_symbols: bool) -> Seq<char> {
    if use_symbols {
        "\u{25c6} piperack: "@ + text
    } else {
        "[piperack] "@ + text
    }
}

pub fn format_tool_message(text: &str, use_symbols: bool) -> (r: String)
    ensures
        r@ == tool_message(text@, use_symbols),
{
    let mut s = String::new();
    if use_symbols {
        proof {
            reveal_strlit("\u{25c6} piperack: ");
        }
        append_str(&mut s, "\u{25c6} piperack: ");
    } else {
        proof {
            reveal_strlit("[piperack] ");
        }
        append_str(&mut s, "[piperack] ");
    }
    append_str(&mut s, text);
    s
}

/// How a finished run went.
#[derive(Debug, Clone, Copy, PartialEq, Eq, Structural)]
pub enum RunOutcome {
    Success,
    /// Under `Last`: the last process to exit failed.
    LastFailed,
    /// Under `All`: one or more processes failed.
    SomeFailed,
}

/// What the event loop does after an exit.
#[derive(Debug, Clone, Copy, PartialEq, Eq, Structural)]
pub enum ExitDecision {
    /// Keep running.
    Continue,
    /// Stop every process and quit.
    ShutdownAll,
    /// Quit with this outcome.
    Quit(RunOutcome),
}

/// The exits seen so far, for the success policy.
#[derive(Debug, Clone)]
pub struct ExitTracker {
    exit_codes: Vec<Option<i32>>,
    exited: Vec<bool>,
    last_exit: Option<(usize, Option<i32>)>,
}

impl ExitTracker {
    pub closed spec fn codes(&self) -> Seq<Option<i32>> {
        self.exit_codes@
    }

    pub closed spec fn exited_flags(&self) -> Seq<bool> {
        self.exited@
    }

    pub closed spec fn last(&self) -> Option<(usize, Option<i32>)> {
        self.last_exit
    }

    pub closed spec fn wf(&self) -> bool {
        self.exit_codes@.len() == self.exited@.len()
    }

    pub open spec fn all_exited_spec(&self) -> bool {
        forall|i: int| 0 <= i < self.exited_flags().len() ==> #[trigger] self.exited_flags()[i]
    }

    pub open spec fn any_failed_spec(&self) -> bool {
        exists|i: int| 0 <= i < self.codes().len() && failing(#[trigger] self.codes()[i])
    }

    /// A tracker for `n` processes, none exited.
    pub fn new(n: usize) -> (r: Self)
        ensures
            r.wf(),
            r.codes() == Seq::new(n as nat, |i: int| None::<i32>),
            r.exited_flags() == Seq::new(n as nat, |i: int| false),
            r.last().is_none(),
    {
        let mut exit_codes: Vec<Option<i32>> = Vec::new();
        let mut exited: Vec<bool> = Vec::new();
        let mut i: usize = 0;
        while i < n
            invariant
                i <= n,
                exit_codes@ == Seq::new(i as nat, |k: int| None::<i32>),
                exited@ == Seq::new(i as nat, |k: int| false),
            decreases n - i,
        {
            exit_codes.push(None);
            exited.push(false);
            i += 1;
            assert(exit_codes@ =~= Seq::new(i as nat, |k: int| None::<i32>));
            assert(exited@ =~= Seq::new(i as nat, |k: int| false));
        }
        ExitTracker { exit_codes, exited, last_exit: None }
    }

    /// Records that process `id` exited with `code`.
    pub fn handle_exit(&mut self, id: usize, code: Option<i32>)
        requires
            old(self).wf(),
        ensures
            final(self).wf(),
            id >= old(self).codes().len() ==> final(self).codes() == old(self).codes()
                && final(self).exited_flags() == old(self).exited_flags() && final(self).last() == old(self).last(),
            id < old(self).codes().len() ==> {
                &&& final(self).codes() == old(self).codes().update(id as int, code)
                &&& final(self).exited_flags() == old(self).exited_flags().update(id as int, true)
                &&& final(self).last() == Some((id, code))
            },
    {
        if id >= self.exit_codes.len() {
            return;
        }
        self.exit_codes.set(id, code);
        self.exited.set(id, true);
        self.last_exit = Some((id, code));
    }

    pub fn all_exited(&self) -> (r: bool)
        ensures
            r == self.all_exited_spec(),
    {
        let mut i: usize = 0;
        while i < self.exited.len()
            invariant
                i <= self.exited@.len(),
                forall|k: int| 0 <= k < i ==> self.exited@[k],
            decreases self.exited@.len() - i,
        {
            if !self.exited[i] {
                assert(!self.exited_flags()[i as int]);
                return false;
            }
            i += 1;
        }
        true
    }

    pub fn any_failed(&self) -> (r: bool)
        ensures
            r == self.any_failed_spec(),
    {
        let mut i: usize = 0;
        while i < self.exit_codes.len()
            invariant
                i <= self.exit_codes@.len(),
                forall|k: int| 0 <= k < i ==> !failing(#[trigger] self.exit_codes@[k]),
            decreases self.exit_codes@.len() - i,
        {
            if is_failing(self.exit_codes[i]) {
                assert(failing(self.codes()[i as int]));
                return true;
            }
            i += 1;
        }
        false
    }

    /// The exit seen last.
    pub fn last_exit(&self) -> (r: Option<(usize, Option<i32>)>)
        ensures
            r == self.last(),
    {
        self.last_exit
    }
}

/// What the success and kill-others policies decide after an exit with `code`,
/// given the exits recorded so far (this one included).
pub open spec fn exit_decision(
    t: ExitTracker,
    code: Option<i32>,
    success: SuccessPolicy,
    kill_others: bool,
    kill_others_on_fail: bool,
) -> ExitDecision {
    if kill_others || (kill_others_on_fail && failing(code)) {
        ExitDecision::ShutdownAll
    } else {
        match success {
            SuccessPolicy::First => if !failing(code) {
                ExitDecision::ShutdownAll
            } else {
                ExitDecision::Continue
            },
            SuccessPolicy::Last => if t.all_exited_spec() {
                if t.last() matches Some((_, c)) && failing(c) {
                    ExitDecision::Quit(RunOutcome::LastFailed)
                } else {
                    ExitDecision::Quit(RunOutcome::Success)
                }
            } else {
                ExitDecision::Continue
            },
            SuccessPolicy::All => if t.all_exited_spec() {
                if t.any_failed_spec() {
                    ExitDecision::Quit(RunOutcome::SomeFailed)
                } else {
                    ExitDecision::Quit(RunOutcome::Success)
                }
            } else {
                ExitDecision::Continue
            },
        }
    }
}

/// Records the exit of process `id` and applies the kill-others and success
/// policies to it.
pub fn handle_exit_policy(
    tracker: &mut ExitTracker,
    id: usize,
    code: Option<i32>,
    success: SuccessPolicy,
    kill_others: bool,
    kill_others_on_fail: bool,
) -> (r: ExitDecision)
    requires
        old(tracker).wf(),
    ensures
        final(tracker).wf(),
        id < old(tracker).codes().len() ==> {
            &&& final(tracker).codes() == old(tracker).codes().update(id as int, code)
            &&& final(tracker).exited_flags() == old(tracker).exited_flags().update(id as int, true)
            &&& final(tracker).last() == Some((id, code))
        },
        id >= old(tracker).codes().len() ==> final(tracker).codes() == old(tracker).codes()
            && final(tracker).exited_flags() == old(tracker).exited_flags()
            && final(tracker).last() == old(tracker).last(),
        r == exit_decision(*final(tracker), code, success, kill_others, kill_others_on_fail),
{
    tracker.handle_exit(id, code);
    if kill_others || (kill_others_on_fail && is_failing(code)) {
        return ExitDecision::ShutdownAll;
    }
    match success {
        SuccessPolicy::First => {
            if !is_failing(code) {
                ExitDecision::ShutdownAll
            } else {
                ExitDecision::Continue
            }
        },
        SuccessPolicy::Last => {
            if tracker.all_exited() {
                match tracker.last_exit() {
                    Some((_, last)) => {
                        if is_failing(last) {
                            ExitDecision::Quit(RunOutcome::LastFailed)
                        } else {
                            ExitDecision::Quit(RunOutcome::Success)
                        }
                    },
                    None => ExitDecision::Quit(RunOutcome::Success),
                }
            } else {
                ExitDecision::Continue
            }
        },
        SuccessPolicy::All => {
            if tracker.all_exited() {
                if tracker.any_failed() {
                    ExitDecision::Quit(RunOutcome::SomeFailed)
                } else {
                    ExitDecision::Quit(RunOutcome::Success)
                }
            } else {
                ExitDecision::Continue
            }
        },
    }
}

} // verus!
