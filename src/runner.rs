//! The supervisor: owns the runtime record of every process and decides what
//! happens to it.
//!
//! The supervisor itself does no I/O. Each operation updates the records and
//! returns the actions to perform, in order: events to send on the event channel,
//! processes to spawn, signals to deliver, children to kill or stop. The program
//! around it performs them and reports back what the operating system did
//! (`spawned`, `spawn_failed`, `poll_exits`, `reaped`).

use vstd::prelude::*;

use crate::config::{ensure_unique_names, unique_names, DuplicateName};
use crate::events::{Event, ProcessSignal};
use crate::process::ProcessSpec;
use crate::shutdown::{
    advance_shutdown, initial_shutdown_stage, initial_stage, next_step, ShutdownConfig,
    ShutdownState, ShutdownStep,
};
use crate::text::{append_str, copy_string, same_text};

verus! {

/// Runtime record of one process, paired with its spec.
#[derive(Debug)]
pub struct ManagedProcess {
    pub spec: ProcessSpec,
    /// Whether a live child handle is held.
    pub running: bool,
    /// The child's pid, when the OS reported one.
    pub pid: Option<u32>,
    /// Whether the child's stdin pipe is held open.
    pub stdin_open: bool,
    /// Whether the scheduler has started this attempt.
    pub started: bool,
    /// Whether the readiness check passed in this attempt.
    pub ready: bool,
    /// The missing dependencies last reported.
    pub waiting_on: Vec<String>,
    /// The escalated shutdown in progress, if any.
    pub shutdown: Option<ShutdownState>,
}

/// Something the program around the supervisor must do.
#[derive(Debug)]
pub enum Action {
    /// Send this event on the event channel.
    Emit(Event),
    /// Run the spec's pre-command, if any, then spawn the main command, and report
    /// with `spawned` or `spawn_failed`.
    Spawn { id: usize },
    /// Deliver the signal to the child's process group and to its pid.
    Signal { id: usize, pid: u32, signal: ProcessSignal },
    /// Force-terminate the child, wait up to 500 ms for it, and report with `reaped`.
    Kill { id: usize },
    /// Stop the child: for each stage in order, announce the signal with a
    /// `ProcessSignal` event, deliver it and wait up to the given milliseconds;
    /// report the exit with `reaped` as soon as it comes, else force-terminate,
    /// wait and report.
    Stop { id: usize, pid: Option<u32>, stages: Vec<(ProcessSignal, u64)> },
}

/// What a non-blocking wait on a child found.
#[derive(Debug, Clone)]
pub enum ChildPoll {
    Running,
    Exited(Option<i32>),
    Error(String),
}

/// What an action amounts to, with its text as character sequences.
pub enum Note {
    Starting(usize),
    Started(usize, u32),
    Ready(usize),
    Waiting(usize, Seq<Seq<char>>),
    Exited(usize, Option<i32>),
    Failed(usize, Seq<char>),
    Signaled(usize, ProcessSignal),
    Spawn(usize),
    SendSignal(usize, u32, ProcessSignal),
    Kill(usize),
    Stop(usize, Option<u32>, Seq<(ProcessSignal, u64)>),
    Other,
}

pub open spec fn strs(v: Seq<String>) -> Seq<Seq<char>> {
    v.map_values(|s: String| s@)
}

pub open spec fn note(a: Action) -> Note {
    match a {
        Action::Emit(e) => match e {
            Event::ProcessStarting { id } => Note::Starting(id),
            Event::ProcessStarted { id, pid } => Note::Started(id, pid),
            Event::ProcessReady { id } => Note::Ready(id),
            Event::ProcessWaiting { id, deps } => Note::Waiting(id, strs(deps@)),
            Event::ProcessExited { id, code } => Note::Exited(id, code),
            Event::ProcessFailed { id, error } => Note::Failed(id, error@),
            Event::ProcessSignal { id, signal } => Note::Signaled(id, signal),
            _ => Note::Other,
        },
        Action::Spawn { id } => Note::Spawn(id),
        Action::Signal { id, pid, signal } => Note::SendSignal(id, pid, signal),
        Action::Kill { id } => Note::Kill(id),
        Action::Stop { id, pid, stages } => Note::Stop(id, pid, stages@),
    }
}

pub open spec fn notes(acts: Seq<Action>) -> Seq<Note> {
    acts.map_values(|a: Action| note(a))
}

/// Whether the process called `name` is ready.
pub open spec fn name_ready(ps: Seq<ManagedProcess>, name: Seq<char>) -> bool {
    exists|j: int| 0 <= j < ps.len() && ps[j].spec.name@ == name && #[trigger] ps[j].ready
}

/// The names among `deps` whose process is not ready, in order.
pub open spec fn missing(ps: Seq<ManagedProcess>, deps: Seq<Seq<char>>) -> Seq<Seq<char>>
    decreases deps.len(),
{
    if deps.len() == 0 {
        seq![]
    } else {
        let rest = missing(ps, deps.drop_last());
        if name_ready(ps, deps.last()) {
            rest
        } else {
            rest.push(deps.last())
        }
    }
}

/// The dependencies of process `i` that are not ready.
pub open spec fn missing_deps(ps: Seq<ManagedProcess>, i: int) -> Seq<Seq<char>> {
    missing(ps, strs(ps[i].spec.depends_on@))
}

/// What one scheduler visit of process `i` does.
pub open spec fn schedule_step(ps: Seq<ManagedProcess>, i: int) -> Seq<Note> {
    if ps[i].started {
        seq![]
    } else if missing_deps(ps, i).len() == 0 {
        seq![Note::Starting(i as usize), Note::Spawn(i as usize)]
    } else if strs(ps[i].waiting_on@) != missing_deps(ps, i) {
        seq![Note::Waiting(i as usize, missing_deps(ps, i))]
    } else {
        seq![]
    }
}

/// What a scheduler pass over the first `k` processes does.
pub open spec fn schedule_notes(ps: Seq<ManagedProcess>, k: int) -> Seq<Note>
    decreases k,
{
    if k <= 0 {
        seq![]
    } else {
        schedule_notes(ps, k - 1) + schedule_step(ps, k - 1)
    }
}

/// `b` is what a scheduler pass makes of `a`: every process whose dependencies
/// are all ready is started, the others record what they miss, and no process is
/// left that could start.
pub open spec fn scheduled(a: Seq<ManagedProcess>, b: Seq<ManagedProcess>) -> bool {
    &&& b.len() == a.len()
    &&& forall|i: int|
        0 <= i < a.len() ==> {
            let x = #[trigger] a[i];
            let y = b[i];
            &&& same_runtime(x, y)
            &&& y.started == (x.started || missing_deps(a, i).len() == 0)
            &&& x.started ==> y.waiting_on@ == x.waiting_on@
            &&& !x.started ==> strs(y.waiting_on@) == missing_deps(a, i)
        }
    &&& forall|i: int|
        0 <= i < b.len() && !#[trigger] b[i].started ==> missing_deps(b, i).len() > 0
}

/// The supervisor: owns the records and the shutdown timeouts.
#[derive(Debug)]
pub struct ProcessManager {
    processes: Vec<ManagedProcess>,
    shutdown: ShutdownConfig,
}

/// The same process in two record sets, but for the fields the scheduler sets.
pub open spec fn same_runtime(a: ManagedProcess, b: ManagedProcess) -> bool {
    a.spec == b.spec && a.running == b.running && a.pid == b.pid && a.stdin_open == b.stdin_open
        && a.ready == b.ready && a.shutdown == b.shutdown
}

impl ProcessManager {
    pub closed spec fn procs(&self) -> Seq<ManagedProcess> {
        self.processes@
    }

    pub closed spec fn config(&self) -> ShutdownConfig {
        self.shutdown
    }

    /// The record invariants: a stdin pipe or a shutdown only with a live child,
    /// readiness only in a started attempt.
    pub open spec fn wf(&self) -> bool {
        forall|i: int|
            0 <= i < self.procs().len() ==> {
                let p = #[trigger] self.procs()[i];
                &&& p.stdin_open ==> p.running
                &&& p.shutdown.is_some() ==> p.running
                &&& p.ready ==> p.started
            }
    }

    /// Creates the supervisor, with every process idle; fails on a duplicate name.
    pub fn new(specs: Vec<ProcessSpec>, shutdown: ShutdownConfig) -> (r: Result<Self, DuplicateName>)
        ensures
            r is Ok <==> unique_names(specs@),
            r matches Ok(m) ==> {
                &&& m.wf()
                &&& m.config() == shutdown
                &&& m.procs().len() == specs@.len()
                &&& forall|i: int|
                    0 <= i < specs@.len() ==> {
                        let p = #[trigger] m.procs()[i];
                        &&& p.spec == specs@[i]
                        &&& !p.running && p.pid.is_none() && !p.stdin_open
                        &&& !p.started && !p.ready
                        &&& p.waiting_on@.len() == 0
                        &&& p.shutdown.is_none()
                    }
            },
            r matches Err(e) ==> exists|i: int, j: int|
                0 <= i < j < specs@.len() && specs@[i].name@ == e.name@ && specs@[j].name@
                    == e.name@,
    {
        if let Err(e) = ensure_unique_names(&specs) {
            return Err(e);
        }
        let mut processes: Vec<ManagedProcess> = Vec::new();
        let mut rest = specs;
        let ghost all = rest@;
        let mut k: usize = 0;
        let n = rest.len();
        while k < n
            invariant
                n == all.len(),
                k <= n,
                rest@ == all.subrange(k as int, n as int),
                processes@.len() == k,
                forall|a: int|
                    0 <= a < k ==> {
                        let p = #[trigger] processes@[a];
                        &&& p.spec == all[a]
                        &&& !p.running && p.pid.is_none() && !p.stdin_open
                        &&& !p.started && !p.ready
                        &&& p.waiting_on@.len() == 0
                        &&& p.shutdown.is_none()
                    },
            decreases n - k,
        {
            let spec = rest.remove(0);
            processes.push(
                ManagedProcess {
                    spec,
                    running: false,
                    pid: None,
                    stdin_open: false,
                    started: false,
                    ready: false,
                    waiting_on: Vec::new(),
                    shutdown: None,
                },
            );
            k += 1;
        }
        Ok(ProcessManager { processes, shutdown })
    }

    /// The number of processes.
    pub fn len(&self) -> (r: usize)
        ensures
            r == self.procs().len(),
    {
        self.processes.len()
    }

    /// The record of process `id`.
    pub fn process(&self, id: usize) -> (r: Option<&ManagedProcess>)
        ensures
            id < self.procs().len() ==> r == Some(&self.procs()[id as int]),
            id >= self.procs().len() ==> r.is_none(),
    {
        if id < self.processes.len() {
            Some(&self.processes[id])
        } else {
            None
        }
    }

    /// Whether the process called `name` is ready.
    fn dep_ready(&self, name: &String) -> (r: bool)
        ensures
            r == name_ready(self.procs(), name@),
    {
        let mut j: usize = 0;
        while j < self.processes.len()
            invariant
                j <= self.procs().len(),
                forall|a: int|
                    0 <= a < j ==> !(self.procs()[a].spec.name@ == name@ && #[trigger] self.procs()[a].ready),
            decreases self.procs().len() - j,
        {
            if self.processes[j].ready && same_text(self.processes[j].spec.name.as_str(), name.as_str()) {
                return true;
            }
            j += 1;
        }
        false
    }

    /// The dependencies of process `idx` that are not ready, in order.
    fn missing_of(&self, idx: usize) -> (r: Vec<String>)
        requires
            idx < self.procs().len(),
        ensures
            strs(r@) == missing_deps(self.procs(), idx as int),
    {
        let deps = &self.processes[idx].spec.depends_on;
        let ghost d = strs(deps@);
        let mut r: Vec<String> = Vec::new();
        let mut k: usize = 0;
        while k < deps.len()
            invariant
                d == strs(deps@),
                k <= deps@.len(),
                strs(r@) == missing(self.procs(), d.subrange(0, k as int)),
            decreases deps@.len() - k,
        {
            let ready = self.dep_ready(&deps[k]);
            proof {
                let s = d.subrange(0, k as int + 1);
                assert(s.drop_last() =~= d.subrange(0, k as int));
                assert(s.last() == deps@[k as int]@);
            }
            if !ready {
                let c = copy_string(&deps[k]);
                let ghost r0 = r@;
                r.push(c);
                proof {
                    assert(strs(r@) =~= strs(r0).push(c@));
                }
            }
            k += 1;
        }
        proof {
            assert(d.subrange(0, deps@.len() as int) =~= d);
        }
        r
    }

    /// Whether two lists of names are the same.
    fn same_names(a: &Vec<String>, b: &Vec<String>) -> (r: bool)
        ensures
            r == (strs(a@) == strs(b@)),
    {
        if a.len() != b.len() {
            proof {
                assert(strs(a@).len() != strs(b@).len());
            }
            return false;
        }
        let mut k: usize = 0;
        while k < a.len()
            invariant
                a@.len() == b@.len(),
                k <= a@.len(),
                forall|x: int| 0 <= x < k ==> a@[x]@ == b@[x]@,
            decreases a@.len() - k,
        {
            if !same_text(a[k].as_str(), b[k].as_str()) {
                proof {
                    assert(strs(a@)[k as int] != strs(b@)[k as int]);
                }
                return false;
            }
            k += 1;
        }
        assert(strs(a@) =~= strs(b@));
        true
    }

    /// One scheduler pass: starts every process whose dependencies are all ready
    /// and reports a changed set of missing dependencies for the others.
    ///
    /// Starting a process does not make anything ready, so after the pass no
    /// process is left that could start.
    pub fn update_scheduler(&mut self) -> (actions: Vec<Action>)
        requires
            old(self).wf(),
        ensures
            final(self).wf(),
            final(self).config() == old(self).config(),
            scheduled(old(self).procs(), final(self).procs()),
            notes(actions@) == schedule_notes(old(self).procs(), old(self).procs().len() as int),
    {
        let ghost ps = self.procs();
        let mut actions: Vec<Action> = Vec::new();
        let n = self.processes.len();
        let mut idx: usize = 0;
        while idx < n
            invariant
                n == ps.len(),
                idx <= n,
                self.shutdown == old(self).shutdown,
                self.procs().len() == n,
                forall|i: int|
                    0 <= i < n ==> {
                        let a = #[trigger] ps[i];
                        let b = self.procs()[i];
                        &&& same_runtime(a, b)
                        &&& i >= idx ==> b.started == a.started && b.waiting_on@ == a.waiting_on@
                        &&& i < idx ==> b.started == (a.started || missing_deps(ps, i).len() == 0)
                        &&& i < idx && a.started ==> b.waiting_on@ == a.waiting_on@
                        &&& i < idx && !a.started ==> strs(b.waiting_on@) == missing_deps(ps, i)
                    },
                forall|i: int|
                    0 <= i < n ==> {
                        let p = #[trigger] ps[i];
                        &&& p.stdin_open ==> p.running
                        &&& p.shutdown.is_some() ==> p.running
                        &&& p.ready ==> p.started
                    },
                notes(actions@) == schedule_notes(ps, idx as int),
            decreases n - idx,
        {
            proof {
                self.lemma_missing_stable(ps, idx as int);
            }
            if self.processes[idx].started {
                proof {
                    assert(schedule_step(ps, idx as int) =~= seq![]);
                    assert(notes(actions@) =~= schedule_notes(ps, idx as int + 1));
                }
                idx += 1;
                continue;
            }
            let missing = self.missing_of(idx);
            if missing.len() == 0 {
                self.processes[idx].waiting_on = Vec::new();
                self.processes[idx].started = true;
                let ghost before = actions@;
                actions.push(Action::Emit(Event::ProcessStarting { id: idx }));
                actions.push(Action::Spawn { id: idx });
                proof {
                    assert(actions@ == before.push(Action::Emit(Event::ProcessStarting { id: idx })).push(Action::Spawn { id: idx }));
                    assert(notes(actions@) =~= notes(before) + schedule_step(ps, idx as int));
                }
            } else if !Self::same_names(&self.processes[idx].waiting_on, &missing) {
                let deps = Self::copy_names(&missing);
                self.processes[idx].waiting_on = missing;
                let ghost before = actions@;
                actions.push(Action::Emit(Event::ProcessWaiting { id: idx, deps }));
                proof {
                    assert(notes(actions@) =~= notes(before) + schedule_step(ps, idx as int));
                }
            } else {
                proof {
                    assert(schedule_step(ps, idx as int) =~= seq![]);
                    assert(notes(actions@) =~= schedule_notes(ps, idx as int + 1));
                }
            }
            idx += 1;
        }
        proof {
            assert forall|i: int|
                0 <= i < n && !#[trigger] self.procs()[i].started implies missing_deps(self.procs(), i).len() > 0 by {
                self.lemma_missing_same(ps, i);
            }
            assert forall|i: int| 0 <= i < n implies {
                let p = #[trigger] self.procs()[i];
                &&& p.stdin_open ==> p.running
                &&& p.shutdown.is_some() ==> p.running
                &&& p.ready ==> p.started
            } by {
                assert(same_runtime(ps[i], self.procs()[i]));
            }
        }
        actions
    }

    /// The missing dependencies of a process depend on names and readiness alone.
    proof fn lemma_missing_stable(&self, ps: Seq<ManagedProcess>, i: int)
        requires
            0 <= i < ps.len(),
            self.procs().len() == ps.len(),
            forall|k: int| 0 <= k < ps.len() ==> same_runtime(#[trigger] ps[k], self.procs()[k]),
        ensures
            missing_deps(self.procs(), i) == missing_deps(ps, i),
    {
        self.lemma_missing_same(ps, i);
    }

    proof fn lemma_missing_same(&self, ps: Seq<ManagedProcess>, i: int)
        requires
            0 <= i < ps.len(),
            self.procs().len() == ps.len(),
            forall|k: int| 0 <= k < ps.len() ==> same_runtime(#[trigger] ps[k], self.procs()[k]),
        ensures
            missing_deps(self.procs(), i) == missing_deps(ps, i),
    {
        assert(self.procs()[i].spec == ps[i].spec);
        lemma_missing_eq(ps, self.procs(), strs(ps[i].spec.depends_on@));
    }

    /// A copy of a list of names.
    fn copy_names(v: &Vec<String>) -> (r: Vec<String>)
        ensures
            strs(r@) == strs(v@),
    {
        let mut r: Vec<String> = Vec::new();
        let mut k: usize = 0;
        while k < v.len()
            invariant
                k <= v@.len(),
                r@.len() == k,
                forall|x: int| 0 <= x < k ==> r@[x]@ == v@[x]@,
            decreases v@.len() - k,
        {
            r.push(copy_string(&v[k]));
            k += 1;
        }
        assert(strs(r@) =~= strs(v@));
        r
    }
}

/// Readiness of names agrees in two record sets with the same names and flags.
proof fn lemma_missing_eq(a: Seq<ManagedProcess>, b: Seq<ManagedProcess>, deps: Seq<Seq<char>>)
    requires
        a.len() == b.len(),
        forall|k: int| 0 <= k < a.len() ==> same_runtime(#[trigger] a[k], b[k]),
    ensures
        missing(a, deps) == missing(b, deps),
    decreases deps.len(),
{
    if deps.len() > 0 {
        lemma_missing_eq(a, b, deps.drop_last());
        let name = deps.last();
        if name_ready(a, name) {
            let j = choose|j: int| 0 <= j < a.len() && a[j].spec.name@ == name && #[trigger] a[j].ready;
            assert(same_runtime(a[j], b[j]));
        }
        if name_ready(b, name) {
            let j = choose|j: int| 0 <= j < b.len() && b[j].spec.name@ == name && #[trigger] b[j].ready;
            assert(same_runtime(a[j], b[j]));
        }
    }
}

/// `p` with a live child just spawned; a process without a readiness check is
/// ready at once.
pub open spec fn after_spawn(p: ManagedProcess, pid: Option<u32>, stdin_open: bool) -> ManagedProcess {
    ManagedProcess {
        running: true,
        pid,
        stdin_open,
        started: true,
        ready: p.ready || p.spec.ready_check.is_none(),
        ..p
    }
}

/// `p` once its child handle is released.
pub open spec fn released(p: ManagedProcess) -> ManagedProcess {
    ManagedProcess { running: false, pid: None, stdin_open: false, ready: false, shutdown: None, ..p }
}

/// The same record, but for the waiting list, which is compared by its names.
pub open spec fn same_record(a: ManagedProcess, b: ManagedProcess) -> bool {
    same_runtime(a, b) && a.started == b.started && a.waiting_on@ == b.waiting_on@
}

pub open spec fn same_records(a: Seq<ManagedProcess>, b: Seq<ManagedProcess>) -> bool {
    a.len() == b.len() && forall|i: int| 0 <= i < a.len() ==> same_record(#[trigger] a[i], b[i])
}

/// The pid carried by a `Started` event: the OS pid, or 0 when none was reported.
pub open spec fn pid_or_zero(pid: Option<u32>) -> u32 {
    match pid {
        Some(p) => p,
        None => 0,
    }
}

/// The first shutdown state of a process asked to stop with `initial` at `now`.
pub open spec fn first_state(cfg: ShutdownConfig, initial: ProcessSignal, now: int) -> ShutdownState {
    ShutdownState { stage: initial_stage(cfg, initial, now).0, deadline: initial_stage(cfg, initial, now).2 as u64 }
}

/// What beginning a shutdown of `p` does to it.
pub open spec fn shutdown_begun(cfg: ShutdownConfig, p: ManagedProcess, initial: ProcessSignal, now: int) -> ManagedProcess {
    if p.running && p.shutdown.is_none() {
        ManagedProcess { shutdown: Some(first_state(cfg, initial, now)), ..p }
    } else {
        p
    }
}

/// The actions of beginning a shutdown of process `i`.
pub open spec fn shutdown_notes(cfg: ShutdownConfig, p: ManagedProcess, i: int, initial: ProcessSignal, now: int) -> Seq<Note> {
    if p.running && p.shutdown.is_none() {
        match (p.pid, initial_stage(cfg, initial, now).1) {
            (Some(pid), Some(sig)) => seq![Note::Signaled(i as usize, sig), Note::SendSignal(i as usize, pid, sig)],
            _ => seq![],
        }
    } else {
        seq![]
    }
}

pub open spec fn shutdown_all_notes(cfg: ShutdownConfig, ps: Seq<ManagedProcess>, initial: ProcessSignal, now: int, k: int) -> Seq<Note>
    decreases k,
{
    if k <= 0 {
        seq![]
    } else {
        shutdown_all_notes(cfg, ps, initial, now, k - 1) + shutdown_notes(cfg, ps[k - 1], k - 1, initial, now)
    }
}

/// What a non-blocking wait that found `poll` does to `p`.
pub open spec fn after_poll(p: ManagedProcess, poll: ChildPoll) -> ManagedProcess {
    if p.running && !(poll is Running) {
        released(p)
    } else {
        p
    }
}

/// The event a wait that found `poll` on process `i` reports.
pub open spec fn exit_note(i: int, poll: ChildPoll) -> Seq<Note> {
    match poll {
        ChildPoll::Running => seq![],
        ChildPoll::Exited(code) => seq![Note::Exited(i as usize, code)],
        ChildPoll::Error(e) => seq![Note::Failed(i as usize, e@)],
    }
}

pub open spec fn poll_notes(ps: Seq<ManagedProcess>, polls: Seq<ChildPoll>, k: int) -> Seq<Note>
    decreases k,
{
    if k <= 0 {
        seq![]
    } else {
        poll_notes(ps, polls, k - 1) + (if ps[k - 1].running {
            exit_note(k - 1, polls[k - 1])
        } else {
            seq![]
        })
    }
}

/// What a tick of the clock at `now` does to `p`.
pub open spec fn after_tick(cfg: ShutdownConfig, p: ManagedProcess, now: int) -> ManagedProcess {
    if !p.running {
        ManagedProcess { shutdown: None, ..p }
    } else {
        match p.shutdown {
            None => p,
            Some(s) => match next_step(cfg, s, now) {
                ShutdownStep::Wait => p,
                ShutdownStep::Escalate(s1) => ManagedProcess { shutdown: Some(s1), ..p },
                ShutdownStep::Kill => released(p),
            },
        }
    }
}

/// The actions of a tick of the clock at `now` on process `i`.
pub open spec fn tick_notes(cfg: ShutdownConfig, p: ManagedProcess, i: int, now: int) -> Seq<Note> {
    if !p.running {
        seq![]
    } else {
        match p.shutdown {
            None => seq![],
            Some(s) => match next_step(cfg, s, now) {
                ShutdownStep::Wait => seq![],
                ShutdownStep::Escalate(_) => match p.pid {
                    Some(pid) => seq![
                        Note::Signaled(i as usize, ProcessSignal::SigTerm),
                        Note::SendSignal(i as usize, pid, ProcessSignal::SigTerm),
                    ],
                    None => seq![],
                },
                ShutdownStep::Kill => seq![Note::Kill(i as usize)],
            },
        }
    }
}

pub open spec fn tick_all_notes(cfg: ShutdownConfig, ps: Seq<ManagedProcess>, now: int, k: int) -> Seq<Note>
    decreases k,
{
    if k <= 0 {
        seq![]
    } else {
        tick_all_notes(cfg, ps, now, k - 1) + tick_notes(cfg, ps[k - 1], k - 1, now)
    }
}

/// The graceful stages of a stop: each enabled signal with its timeout, SIGINT first.
pub open spec fn stop_stages(cfg: ShutdownConfig) -> Seq<(ProcessSignal, u64)> {
    (if cfg.sigint_ms > 0 {
        seq![(ProcessSignal::SigInt, cfg.sigint_ms)]
    } else {
        seq![]
    }) + (if cfg.sigterm_ms > 0 {
        seq![(ProcessSignal::SigTerm, cfg.sigterm_ms)]
    } else {
        seq![]
    })
}

/// What stopping `p` does to it.
pub open spec fn stopped(p: ManagedProcess) -> ManagedProcess {
    if p.running {
        released(p)
    } else {
        ManagedProcess { ready: false, shutdown: None, ..p }
    }
}

/// The actions of stopping process `i`.
pub open spec fn stop_notes(cfg: ShutdownConfig, p: ManagedProcess, i: int) -> Seq<Note> {
    if p.running {
        seq![Note::Stop(i as usize, p.pid, stop_stages(cfg))]
    } else {
        seq![]
    }
}

pub open spec fn stop_all_notes(cfg: ShutdownConfig, ps: Seq<ManagedProcess>, k: int) -> Seq<Note>
    decreases k,
{
    if k <= 0 {
        seq![]
    } else {
        stop_all_notes(cfg, ps, k - 1) + stop_notes(cfg, ps[k - 1], k - 1)
    }
}

impl ProcessManager {
    /// Starts every process whose dependencies are ready.
    pub fn start_all(&mut self) -> (actions: Vec<Action>)
        requires
            old(self).wf(),
        ensures
            final(self).wf(),
            final(self).config() == old(self).config(),
            scheduled(old(self).procs(), final(self).procs()),
            notes(actions@) == schedule_notes(old(self).procs(), old(self).procs().len() as int),
    {
        self.update_scheduler()
    }

    /// Starts process `id` whatever its dependencies: marks it started, clears
    /// what it waited on, announces it and asks for the spawn.
    pub fn start_process(&mut self, id: usize) -> (actions: Vec<Action>)
        requires
            old(self).wf(),
        ensures
            final(self).wf(),
            final(self).config() == old(self).config(),
            final(self).procs().len() == old(self).procs().len(),
            forall|i: int| 0 <= i < old(self).procs().len() && i != id ==> same_record(#[trigger] old(self).procs()[i], final(self).procs()[i]),
            id < old(self).procs().len() ==> {
                let a = old(self).procs()[id as int];
                let b = final(self).procs()[id as int];
                &&& same_runtime(a, b)
                &&& b.started
                &&& b.waiting_on@.len() == 0
            },
            notes(actions@) == (if id < old(self).procs().len() {
                seq![Note::Starting(id), Note::Spawn(id)]
            } else {
                seq![]
            }),
    {
        let mut actions: Vec<Action> = Vec::new();
        if id >= self.processes.len() {
            assert(notes(actions@) =~= seq![]);
            return actions;
        }
        self.processes[id].started = true;
        self.processes[id].waiting_on = Vec::new();
        actions.push(Action::Emit(Event::ProcessStarting { id }));
        actions.push(Action::Spawn { id });
        assert(notes(actions@) =~= seq![Note::Starting(id), Note::Spawn(id)]);
        actions
    }

    /// Records that process `id` was spawned, announces it, and for a process
    /// without a readiness check marks it ready and starts what that unblocks.
    pub fn spawned(&mut self, id: usize, pid: Option<u32>, stdin_open: bool) -> (actions: Vec<Action>)
        requires
            old(self).wf(),
        ensures
            final(self).wf(),
            final(self).config() == old(self).config(),
            id >= old(self).procs().len() ==> final(self).procs() == old(self).procs() && actions@.len() == 0,
            id < old(self).procs().len() ==> {
                let p = old(self).procs()[id as int];
                let mid = old(self).procs().update(id as int, after_spawn(p, pid, stdin_open));
                if p.spec.ready_check.is_none() {
                    &&& scheduled(mid, final(self).procs())
                    &&& notes(actions@) == seq![Note::Started(id, pid_or_zero(pid)), Note::Ready(id)]
                        + schedule_notes(mid, mid.len() as int)
                } else {
                    &&& same_records(mid, final(self).procs())
                    &&& notes(actions@) == seq![Note::Started(id, pid_or_zero(pid))]
                }
            },
    {
        let mut actions: Vec<Action> = Vec::new();
        if id >= self.processes.len() {
            return actions;
        }
        let ghost mid = self.procs().update(id as int, after_spawn(self.procs()[id as int], pid, stdin_open));
        self.processes[id].running = true;
        self.processes[id].pid = pid;
        self.processes[id].stdin_open = stdin_open;
        self.processes[id].started = true;
        let shown = match pid {
            Some(p) => p,
            None => 0,
        };
        actions.push(Action::Emit(Event::ProcessStarted { id, pid: shown }));
        if self.processes[id].spec.ready_check.is_none() {
            self.processes[id].ready = true;
            actions.push(Action::Emit(Event::ProcessReady { id }));
            proof {
                assert(self.procs() =~= mid);
            }
            let ghost first = actions@;
            proof {
                assert(notes(first) =~= seq![Note::Started(id, pid_or_zero(pid)), Note::Ready(id)]);
            }
            let more = self.update_scheduler();
            extend_actions(&mut actions, more);
        } else {
            proof {
                assert(notes(actions@) =~= seq![Note::Started(id, pid_or_zero(pid))]);
                assert forall|i: int| 0 <= i < mid.len() implies same_record(#[trigger] mid[i], self.procs()[i]) by {}
            }
        }
        actions
    }

    /// Marks process `id` ready, when it was started, and starts what that unblocks.
    pub fn mark_ready(&mut self, id: usize) -> (actions: Vec<Action>)
        requires
            old(self).wf(),
        ensures
            final(self).wf(),
            final(self).config() == old(self).config(),
            ({
                let ps = old(self).procs();
                let mid = if id < ps.len() && ps[id as int].started {
                    ps.update(id as int, ManagedProcess { ready: true, ..ps[id as int] })
                } else {
                    ps
                };
                &&& scheduled(mid, final(self).procs())
                &&& notes(actions@) == schedule_notes(mid, mid.len() as int)
            }),
    {
        if id < self.processes.len() && self.processes[id].started {
            self.processes[id].ready = true;
        }
        self.update_scheduler()
    }

    /// Announces that spawning process `id` failed.
    pub fn spawn_failed(&self, id: usize, error: &str) -> (actions: Vec<Action>)
        requires
            id < self.procs().len(),
        ensures
            notes(actions@) == seq![Note::Failed(id, spawn_failure(self.procs()[id as int].spec.name@, error@))],
    {
        let mut msg = String::new();
        proof {
            reveal_strlit("failed to spawn ");
            reveal_strlit(": ");
        }
        append_str(&mut msg, "failed to spawn ");
        append_str(&mut msg, self.processes[id].spec.name.as_str());
        append_str(&mut msg, ": ");
        append_str(&mut msg, error);
        let mut actions: Vec<Action> = Vec::new();
        actions.push(Action::Emit(Event::ProcessFailed { id, error: msg }));
        assert(notes(actions@) =~= seq![Note::Failed(id, msg@)]);
        assert(msg@ =~= spawn_failure(self.procs()[id as int].spec.name@, error@));
        actions
    }

    /// Begins, or leaves alone, the escalated shutdown of process `id`.
    pub fn begin_shutdown(&mut self, id: usize, initial: ProcessSignal, now: u64) -> (actions: Vec<Action>)
        requires
            old(self).wf(),
            old(self).config().fits(now),
        ensures
            final(self).wf(),
            final(self).config() == old(self).config(),
            id >= old(self).procs().len() ==> final(self).procs() == old(self).procs() && actions@.len() == 0,
            id < old(self).procs().len() ==> {
                let p = old(self).procs()[id as int];
                &&& same_records(old(self).procs().update(id as int, shutdown_begun(old(self).config(), p, initial, now as int)), final(self).procs())
                &&& notes(actions@) == shutdown_notes(old(self).config(), p, id as int, initial, now as int)
            },
    {
        let mut actions: Vec<Action> = Vec::new();
        if id >= self.processes.len() {
            return actions;
        }
        let ghost ps = self.procs();
        if !self.processes[id].running || self.processes[id].shutdown.is_some() {
            proof {
                assert(ps.update(id as int, shutdown_begun(self.shutdown, ps[id as int], initial, now as int)) =~= ps);
                assert(notes(actions@) =~= seq![]);
            }
            return actions;
        }
        let (stage, signal, deadline) = initial_shutdown_stage(self.shutdown, initial, now);
        self.processes[id].shutdown = Some(ShutdownState { stage, deadline });
        let pid = self.processes[id].pid;
        match (pid, signal) {
            (Some(pid), Some(signal)) => {
                actions.push(Action::Emit(Event::ProcessSignal { id, signal }));
                actions.push(Action::Signal { id, pid, signal });
                assert(notes(actions@) =~= seq![Note::Signaled(id, signal), Note::SendSignal(id, pid, signal)]);
            },
            _ => {
                assert(notes(actions@) =~= seq![]);
            },
        }
        proof {
            let q = ps.update(id as int, shutdown_begun(self.shutdown, ps[id as int], initial, now as int));
            assert forall|i: int| 0 <= i < q.len() implies same_record(#[trigger] q[i], self.procs()[i]) by {}
        }
        actions
    }

    /// Begins the escalated shutdown of every process with a live child.
    pub fn begin_shutdown_all(&mut self, initial: ProcessSignal, now: u64) -> (actions: Vec<Action>)
        requires
            old(self).wf(),
            old(self).config().fits(now),
        ensures
            final(self).wf(),
            final(self).config() == old(self).config(),
            final(self).procs().len() == old(self).procs().len(),
            forall|i: int| 0 <= i < old(self).procs().len() ==> same_record(
                shutdown_begun(old(self).config(), #[trigger] old(self).procs()[i], initial, now as int),
                final(self).procs()[i],
            ),
            notes(actions@) == shutdown_all_notes(old(self).config(), old(self).procs(), initial, now as int, old(self).procs().len() as int),
    {
        let ghost ps = self.procs();
        let cfg = self.shutdown;
        let mut actions: Vec<Action> = Vec::new();
        let n = self.processes.len();
        let mut idx: usize = 0;
        while idx < n
            invariant
                n == ps.len(),
                idx <= n,
                self.wf(),
                self.shutdown == cfg,
                cfg.fits(now),
                self.procs().len() == n,
                forall|i: int| 0 <= i < idx ==> same_record(shutdown_begun(cfg, #[trigger] ps[i], initial, now as int), self.procs()[i]),
                forall|i: int| idx <= i < n ==> same_record(#[trigger] ps[i], self.procs()[i]),
                notes(actions@) == shutdown_all_notes(cfg, ps, initial, now as int, idx as int),
            decreases n - idx,
        {
            let ghost before = self.procs();
            let ghost acts = actions@;
            let more = self.begin_shutdown(idx, initial, now);
            extend_actions(&mut actions, more);
            proof {
                assert(before[idx as int].shutdown == ps[idx as int].shutdown);
                assert(shutdown_notes(cfg, before[idx as int], idx as int, initial, now as int) == shutdown_notes(cfg, ps[idx as int], idx as int, initial, now as int));
                let q = before.update(idx as int, shutdown_begun(cfg, before[idx as int], initial, now as int));
                assert forall|i: int| 0 <= i < idx + 1 implies same_record(shutdown_begun(cfg, #[trigger] ps[i], initial, now as int), self.procs()[i]) by {
                    assert(same_record(q[i], self.procs()[i]));
                    if i < idx {
                        assert(q[i] == before[i]);
                    }
                }
                assert forall|i: int| idx + 1 <= i < n implies same_record(#[trigger] ps[i], self.procs()[i]) by {
                    assert(same_record(q[i], self.procs()[i]));
                    assert(q[i] == before[i]);
                }
            }
            idx += 1;
        }
        actions
    }
}

/// Appends `more` to `actions`.
fn extend_actions(actions: &mut Vec<Action>, more: Vec<Action>)
    ensures
        final(actions)@ == old(actions)@ + more@,
        notes(final(actions)@) == notes(old(actions)@) + notes(more@),
{
    let mut more = more;
    let ghost m = more@;
    actions.append(&mut more);
    assert(notes(actions@) =~= notes(old(actions)@) + notes(m));
}

/// The message of a failed spawn.
pub open spec fn spawn_failure(name: Seq<char>, error: Seq<char>) -> Seq<char> {
    "failed to spawn "@ + name + ": "@ + error
}

impl ProcessManager {
    /// Applies the non-blocking waits the program made: `polls[i]` is what the wait
    /// on process `i` found (ignored where no child is held). An exited or failed
    /// child is reported and released.
    pub fn reap_exits(&mut self, polls: &Vec<ChildPoll>) -> (actions: Vec<Action>)
        requires
            old(self).wf(),
            polls@.len() == old(self).procs().len(),
        ensures
            final(self).wf(),
            final(self).config() == old(self).config(),
            final(self).procs().len() == old(self).procs().len(),
            forall|i: int| 0 <= i < old(self).procs().len() ==> same_record(
                after_poll(#[trigger] old(self).procs()[i], polls@[i]),
                final(self).procs()[i],
            ),
            notes(actions@) == poll_notes(old(self).procs(), polls@, old(self).procs().len() as int),
    {
        let ghost ps = self.procs();
        let mut actions: Vec<Action> = Vec::new();
        let n = self.processes.len();
        let mut id: usize = 0;
        while id < n
            invariant
                n == ps.len(),
                polls@.len() == n,
                id <= n,
                self.wf(),
                self.shutdown == old(self).shutdown,
                self.procs().len() == n,
                forall|i: int| 0 <= i < id ==> same_record(after_poll(#[trigger] ps[i], polls@[i]), self.procs()[i]),
                forall|i: int| id <= i < n ==> same_record(#[trigger] ps[i], self.procs()[i]),
                notes(actions@) == poll_notes(ps, polls@, id as int),
            decreases n - id,
        {
            let ghost acts = actions@;
            assert(same_record(ps[id as int], self.procs()[id as int]));
            if self.processes[id].running {
                match &polls[id] {
                    ChildPoll::Running => {},
                    ChildPoll::Exited(code) => {
                        actions.push(Action::Emit(Event::ProcessExited { id, code: *code }));
                        self.release(id);
                    },
                    ChildPoll::Error(e) => {
                        actions.push(Action::Emit(Event::ProcessFailed { id, error: copy_string(e) }));
                        self.release(id);
                    },
                }
            }
            proof {
                assert(notes(actions@) =~= notes(acts) + (if ps[id as int].running {
                    exit_note(id as int, polls@[id as int])
                } else {
                    seq![]
                }));
            }
            id += 1;
        }
        actions
    }

    /// Drops the child handle of process `id`.
    fn release(&mut self, id: usize)
        requires
            old(self).wf(),
            id < old(self).procs().len(),
        ensures
            final(self).wf(),
            final(self).config() == old(self).config(),
            final(self).procs().len() == old(self).procs().len(),
            forall|i: int| 0 <= i < old(self).procs().len() && i != id ==> same_record(#[trigger] old(self).procs()[i], final(self).procs()[i]),
            same_record(released(old(self).procs()[id as int]), final(self).procs()[id as int]),
    {
        self.processes[id].running = false;
        self.processes[id].pid = None;
        self.processes[id].stdin_open = false;
        self.processes[id].ready = false;
        self.processes[id].shutdown = None;
    }

    /// Advances every escalated shutdown on a tick of the clock at `now`.
    pub fn poll_shutdowns(&mut self, now: u64) -> (actions: Vec<Action>)
        requires
            old(self).wf(),
            now as int + old(self).config().sigterm_ms as int <= u64::MAX as int,
        ensures
            final(self).wf(),
            final(self).config() == old(self).config(),
            final(self).procs().len() == old(self).procs().len(),
            forall|i: int| 0 <= i < old(self).procs().len() ==> same_record(
                after_tick(old(self).config(), #[trigger] old(self).procs()[i], now as int),
                final(self).procs()[i],
            ),
            notes(actions@) == tick_all_notes(old(self).config(), old(self).procs(), now as int, old(self).procs().len() as int),
    {
        let ghost ps = self.procs();
        let cfg = self.shutdown;
        let mut actions: Vec<Action> = Vec::new();
        let n = self.processes.len();
        let mut id: usize = 0;
        while id < n
            invariant
                n == ps.len(),
                id <= n,
                self.wf(),
                self.shutdown == cfg,
                now as int + cfg.sigterm_ms as int <= u64::MAX as int,
                self.procs().len() == n,
                forall|i: int| 0 <= i < id ==> same_record(after_tick(cfg, #[trigger] ps[i], now as int), self.procs()[i]),
                forall|i: int| id <= i < n ==> same_record(#[trigger] ps[i], self.procs()[i]),
                notes(actions@) == tick_all_notes(cfg, ps, now as int, id as int),
            decreases n - id,
        {
            let ghost acts = actions@;
            assert(same_record(ps[id as int], self.procs()[id as int]));
            if !self.processes[id].running {
                self.processes[id].shutdown = None;
            } else {
                match self.processes[id].shutdown {
                    None => {},
                    Some(state) => {
                        match advance_shutdown(cfg, state, now) {
                            ShutdownStep::Wait => {},
                            ShutdownStep::Escalate(next) => {
                                self.processes[id].shutdown = Some(next);
                                match self.processes[id].pid {
                                    Some(pid) => {
                                        actions.push(Action::Emit(Event::ProcessSignal { id, signal: ProcessSignal::SigTerm }));
                                        actions.push(Action::Signal { id, pid, signal: ProcessSignal::SigTerm });
                                    },
                                    None => {},
                                }
                            },
                            ShutdownStep::Kill => {
                                self.release(id);
                                actions.push(Action::Kill { id });
                            },
                        }
                    },
                }
            }
            proof {
                assert(notes(actions@) =~= notes(acts) + tick_notes(cfg, ps[id as int], id as int, now as int));
            }
            id += 1;
        }
        actions
    }

    /// One tick: applies the waits the program made, then advances the shutdowns.
    pub fn poll_exits(&mut self, polls: &Vec<ChildPoll>, now: u64) -> (actions: Vec<Action>)
        requires
            old(self).wf(),
            polls@.len() == old(self).procs().len(),
            now as int + old(self).config().sigterm_ms as int <= u64::MAX as int,
        ensures
            final(self).wf(),
            final(self).config() == old(self).config(),
            final(self).procs().len() == old(self).procs().len(),
            exists|mid: Seq<ManagedProcess>| {
                &&& mid.len() == old(self).procs().len()
                &&& forall|i: int| 0 <= i < mid.len() ==> same_record(after_poll(#[trigger] old(self).procs()[i], polls@[i]), mid[i])
                &&& forall|i: int| 0 <= i < mid.len() ==> same_record(after_tick(old(self).config(), #[trigger] mid[i], now as int), final(self).procs()[i])
                &&& notes(actions@) == poll_notes(old(self).procs(), polls@, mid.len() as int)
                    + tick_all_notes(old(self).config(), mid, now as int, mid.len() as int)
            },
    {
        let mut actions = self.reap_exits(polls);
        let ghost mid = self.procs();
        let more = self.poll_shutdowns(now);
        extend_actions(&mut actions, more);
        actions
    }

    /// Stops process `id` for good: it is no longer ready, any escalation is
    /// dropped, and a live child is handed over to be stopped gracefully.
    pub fn stop_process(&mut self, id: usize) -> (actions: Vec<Action>)
        requires
            old(self).wf(),
        ensures
            final(self).wf(),
            final(self).config() == old(self).config(),
            final(self).procs().len() == old(self).procs().len(),
            forall|i: int| 0 <= i < old(self).procs().len() && i != id ==> same_record(#[trigger] old(self).procs()[i], final(self).procs()[i]),
            id < old(self).procs().len() ==> same_record(stopped(old(self).procs()[id as int]), final(self).procs()[id as int]),
            notes(actions@) == (if id < old(self).procs().len() {
                stop_notes(old(self).config(), old(self).procs()[id as int], id as int)
            } else {
                seq![]
            }),
    {
        let mut actions: Vec<Action> = Vec::new();
        if id >= self.processes.len() {
            assert(notes(actions@) =~= seq![]);
            return actions;
        }
        self.processes[id].ready = false;
        self.processes[id].shutdown = None;
        let ghost mid = self.procs();
        assert(forall|i: int| 0 <= i < mid.len() && i != id ==> mid[i] == old(self).procs()[i]);
        if self.processes[id].running {
            let pid = self.processes[id].pid;
            self.release(id);
            let stages = self.stop_plan();
            actions.push(Action::Stop { id, pid, stages });
        }
        assert forall|i: int| 0 <= i < mid.len() && i != id implies same_record(#[trigger] old(self).procs()[i], self.procs()[i]) by {
            assert(mid[i] == old(self).procs()[i]);
            assert(same_record(mid[i], self.procs()[i]));
        }
        assert(notes(actions@) =~= stop_notes(self.shutdown, old(self).procs()[id as int], id as int));
        actions
    }

    /// The graceful stages of a stop, in order.
    pub fn stop_plan(&self) -> (r: Vec<(ProcessSignal, u64)>)
        ensures
            r@ == stop_stages(self.config()),
    {
        let mut r: Vec<(ProcessSignal, u64)> = Vec::new();
        if self.shutdown.sigint_enabled() {
            r.push((ProcessSignal::SigInt, self.shutdown.sigint_ms));
        }
        if self.shutdown.sigterm_enabled() {
            r.push((ProcessSignal::SigTerm, self.shutdown.sigterm_ms));
        }
        assert(r@ =~= stop_stages(self.config()));
        r
    }

    /// Restarts process `id` now, whatever its dependencies: stops it, clears
    /// `started` and `ready`, and starts it again.
    pub fn restart_process(&mut self, id: usize) -> (actions: Vec<Action>)
        requires
            old(self).wf(),
        ensures
            final(self).wf(),
            final(self).config() == old(self).config(),
            final(self).procs().len() == old(self).procs().len(),
            forall|i: int| 0 <= i < old(self).procs().len() && i != id ==> same_record(#[trigger] old(self).procs()[i], final(self).procs()[i]),
            id < old(self).procs().len() ==> {
                let a = stopped(old(self).procs()[id as int]);
                let b = final(self).procs()[id as int];
                &&& same_runtime(a, b)
                &&& b.started
                &&& b.waiting_on@.len() == 0
            },
            notes(actions@) == (if id < old(self).procs().len() {
                stop_notes(old(self).config(), old(self).procs()[id as int], id as int) + seq![Note::Starting(id), Note::Spawn(id)]
            } else {
                seq![]
            }),
    {
        let mut actions = self.stop_process(id);
        let ghost s1 = self.procs();
        if id < self.processes.len() {
            self.processes[id].started = false;
            self.processes[id].ready = false;
        }
        let ghost s2 = self.procs();
        assert(forall|i: int| 0 <= i < s1.len() && i != id ==> s1[i] == s2[i]);
        let more = self.start_process(id);
        extend_actions(&mut actions, more);
        actions
    }

    /// Stops every process; used when the runner exits.
    pub fn shutdown_all(&mut self) -> (actions: Vec<Action>)
        requires
            old(self).wf(),
        ensures
            final(self).wf(),
            final(self).config() == old(self).config(),
            final(self).procs().len() == old(self).procs().len(),
            forall|i: int| 0 <= i < old(self).procs().len() ==> same_record(stopped(#[trigger] old(self).procs()[i]), final(self).procs()[i]),
            forall|i: int| 0 <= i < final(self).procs().len() ==> !(#[trigger] final(self).procs()[i]).running,
            notes(actions@) == stop_all_notes(old(self).config(), old(self).procs(), old(self).procs().len() as int),
    {
        let ghost ps = self.procs();
        let mut actions: Vec<Action> = Vec::new();
        let n = self.processes.len();
        let mut id: usize = 0;
        while id < n
            invariant
                n == ps.len(),
                id <= n,
                self.wf(),
                self.shutdown == old(self).shutdown,
                self.procs().len() == n,
                forall|i: int| 0 <= i < id ==> same_record(stopped(#[trigger] ps[i]), self.procs()[i]),
                forall|i: int| id <= i < n ==> same_record(#[trigger] ps[i], self.procs()[i]),
                notes(actions@) == stop_all_notes(self.shutdown, ps, id as int),
            decreases n - id,
        {
            let ghost before = self.procs();
            assert(same_record(ps[id as int], before[id as int]));
            let more = self.stop_process(id);
            extend_actions(&mut actions, more);
            id += 1;
        }
        assert forall|i: int| 0 <= i < n implies !(#[trigger] self.procs()[i]).running by {
            assert(same_record(stopped(ps[i]), self.procs()[i]));
        }
        actions
    }

    /// Whether input of `len` bytes for process `id` is to be written: the child
    /// is running with its stdin open and there is something to write.
    pub fn input_target(&self, id: usize, len: usize) -> (r: bool)
        ensures
            r == (id < self.procs().len() && self.procs()[id as int].stdin_open && len > 0),
    {
        id < self.processes.len() && self.processes[id].stdin_open && len > 0
    }
}

/// The event that reports what a wait on process `id` found, if it ended.
pub fn exit_event(id: usize, poll: ChildPoll) -> (r: Option<Event>)
    ensures
        match poll {
            ChildPoll::Running => r.is_none(),
            ChildPoll::Exited(code) => r == Some(Event::ProcessExited { id, code }),
            ChildPoll::Error(e) => r == Some(Event::ProcessFailed { id, error: e }),
        },
{
    match poll {
        ChildPoll::Running => None,
        ChildPoll::Exited(code) => Some(Event::ProcessExited { id, code }),
        ChildPoll::Error(e) => Some(Event::ProcessFailed { id, error: e }),
    }
}

/// Readiness by log line: remembers whether a line of this attempt matched, so
/// that `Ready` is announced once however many lines match.
#[derive(Debug, Clone, Copy)]
pub struct ReadinessLatch {
    matched: bool,
}

impl ReadinessLatch {
    pub closed spec fn fired(&self) -> bool {
        self.matched
    }

    /// A latch for a new attempt.
    pub fn new() -> (r: Self)
        ensures
            !r.fired(),
    {
        ReadinessLatch { matched: false }
    }

    /// A line was read; `matches` tells whether it matched the readiness pattern.
    /// Returns whether to announce `Ready` now.
    pub fn on_line(&mut self, matches: bool) -> (ready: bool)
        ensures
            ready == (matches && !old(self).fired()),
            final(self).fired() == (old(self).fired() || matches),
    {
        if matches && !self.matched {
            self.matched = true;
            true
        } else {
            false
        }
    }
}

/// The number of `Ready` announcements a latch makes for lines whose matches are
/// `m`, from the state `fired`.
pub open spec fn ready_count(fired: bool, m: Seq<bool>) -> nat
    decreases m.len(),
{
    if m.len() == 0 {
        0
    } else {
        ready_count(fired, m.drop_last()) + if m.last() && !latch_after(fired, m.drop_last()) {
            1nat
        } else {
            0nat
        }
    }
}

/// Whether a latch has fired after lines whose matches are `m`, from `fired`.
pub open spec fn latch_after(fired: bool, m: Seq<bool>) -> bool {
    fired || exists|i: int| 0 <= i < m.len() && m[i]
}

/// Readiness idempotence: within one attempt a latch announces `Ready` at most
/// once, whatever the lines.
pub proof fn lemma_ready_at_most_once(m: Seq<bool>)
    ensures
        ready_count(false, m) <= 1,
        ready_count(false, m) == 1 <==> latch_after(false, m),
    decreases m.len(),
{
    if m.len() > 0 {
        lemma_ready_at_most_once(m.drop_last());
        let d = m.drop_last();
        if latch_after(false, d) {
            let i = choose|i: int| 0 <= i < d.len() && d[i];
            assert(m[i]);
        }
        if m.last() {
            assert(m[m.len() - 1]);
        }
        if latch_after(false, m) && !m.last() {
            let i = choose|i: int| 0 <= i < m.len() && m[i];
            assert(d[i]);
        }
    }
}

/// With nothing missing, every dependency is ready.
proof fn lemma_nothing_missing(ps: Seq<ManagedProcess>, deps: Seq<Seq<char>>)
    requires
        missing(ps, deps).len() == 0,
    ensures
        forall|k: int| 0 <= k < deps.len() ==> name_ready(ps, #[trigger] deps[k]),
    decreases deps.len(),
{
    if deps.len() > 0 {
        let rest = missing(ps, deps.drop_last());
        if !name_ready(ps, deps.last()) {
            assert(missing(ps, deps).len() == rest.len() + 1);
        }
        lemma_nothing_missing(ps, deps.drop_last());
        assert forall|k: int| 0 <= k < deps.len() implies name_ready(ps, #[trigger] deps[k]) by {
            if k < deps.len() - 1 {
                assert(deps.drop_last()[k] == deps[k]);
            }
        }
    }
}

/// Dependency gating: a scheduler pass starts a process only when every name in
/// its `depends_on` belongs to a ready process.
pub proof fn lemma_dependency_gating(a: Seq<ManagedProcess>, b: Seq<ManagedProcess>, i: int)
    requires
        scheduled(a, b),
        0 <= i < a.len(),
        !a[i].started,
        b[i].started,
    ensures
        forall|k: int| 0 <= k < a[i].spec.depends_on@.len() ==> name_ready(a, #[trigger] a[i].spec.depends_on@[k]@),
{
    lemma_nothing_missing(a, strs(a[i].spec.depends_on@));
    assert forall|k: int| 0 <= k < a[i].spec.depends_on@.len() implies name_ready(a, #[trigger] a[i].spec.depends_on@[k]@) by {
        assert(strs(a[i].spec.depends_on@)[k] == a[i].spec.depends_on@[k]@);
    }
}

/// An exit is reported only for a held child, and reporting it releases the
/// child: a later wait reports nothing more until a new spawn.
pub proof fn lemma_exit_reported_once(p: ManagedProcess, first: ChildPoll, later: ChildPoll)
    requires
        p.running,
        exit_note(0, first).len() > 0,
    ensures
        !after_poll(p, first).running,
        after_poll(after_poll(p, first), later) == after_poll(p, first),
{
}

} // verus!
