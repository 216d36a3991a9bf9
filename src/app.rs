//! The terminal UI's state: the processes as observed through events, the global
//! timeline, scrolling and follow mode, search, selection and the status line.
//!
//! Times are milliseconds on a clock chosen by the caller.

use vstd::prelude::*;

use crate::events::StreamKind;
use crate::output::{keep_last, LogLine, TimelineBuffer, TimelineEntry};
use crate::process::{ProcessSpec, ProcessState, ProcessStatus};
use crate::text::{chars_of, copy_string, string_of, push_char, append_chars};

verus! {

/// Modes of user input.
#[derive(Debug, Clone, Copy, PartialEq, Eq, Structural)]
pub enum InputMode {
    /// Navigation.
    Normal,
    /// Typing a search query.
    Search,
    /// Typing a filter query.
    Filter,
    /// Typing input for a process's stdin.
    Input,
    /// Typing a group name to restart.
    Group,
}

/// What the user asked for.
#[derive(Debug, Clone, PartialEq, Eq)]
pub enum AppAction {
    NoOp,
    Quit,
    Kill(usize),
    Restart(usize),
    RestartGroup(String),
    Export(usize),
    SendInputText(usize, String),
    SendInputBytes(usize, Vec<u8>),
    CopySelection,
}

/// How prominent a status message is.
#[derive(Debug, Clone, Copy, PartialEq, Eq, Structural)]
pub enum StatusLevel {
    Info,
    Warning,
}

/// The screen area the log view occupies.
#[derive(Debug, Clone, Copy, PartialEq, Eq, Structural)]
pub struct LogViewport {
    pub x: u16,
    pub y: u16,
    pub width: u16,
    pub height: u16,
}

/// Which view a selection was made in.
#[derive(Debug, Clone, Copy, PartialEq, Eq, Structural)]
pub enum SelectionScope {
    Timeline,
    Process(usize),
}

/// A message on the status line, shown from `at` for `ttl` (forever if unset).
#[derive(Debug, Clone)]
pub struct StatusMessage {
    pub text: String,
    pub at: u64,
    pub ttl: Option<u64>,
    pub level: StatusLevel,
}

/// The UI state.
#[derive(Debug)]
pub struct App {
    pub processes: Vec<ProcessState>,
    pub selected: usize,
    pub input_mode: InputMode,
    pub input: String,
    pub input_buffer: String,
    pub input_enabled: bool,
    pub search_query: Option<String>,
    pub search_matches: Vec<usize>,
    pub search_index: usize,
    pub filter_query: Option<String>,
    pub json_formatting: bool,
    pub should_quit: bool,
    pub log_view_height: usize,
    pub process_list_width: u16,
    pub timeline_view: bool,
    pub timeline_follow: bool,
    pub timeline_scroll: usize,
    pub timeline: TimelineBuffer,
    pub strip_ansi: bool,
    pub use_symbols: bool,
    pub show_help: bool,
    pub log_viewport: Option<LogViewport>,
    pub visible_raw_lines: Vec<String>,
    pub selection_start: Option<usize>,
    pub selection_end: Option<usize>,
    pub selection_active: bool,
    pub selection_scope: Option<SelectionScope>,
    pub status_message: Option<StatusMessage>,
}

/// The capacity of the timeline: the per-process capacity times the number of
/// processes (at least one), at most 50,000, but never below the per-process one.
pub open spec fn timeline_capacity(max_lines: nat, n: nat) -> nat {
    let count = if n == 0 {
        1
    } else {
        n
    };
    let product = max_lines * count;
    let capped = if product > 50_000 {
        50_000
    } else {
        product
    };
    if capped < max_lines {
        max_lines
    } else {
        capped
    }
}

/// `a - b`, or zero.
pub open spec fn sat_sub(a: int, b: int) -> int {
    if a >= b {
        a - b
    } else {
        0
    }
}

pub open spec fn min(a: int, b: int) -> int {
    if a <= b {
        a
    } else {
        b
    }
}

/// The view height used for scrolling: at least one row.
pub open spec fn view_rows(h: usize) -> int {
    if h == 0 {
        1
    } else {
        h as int
    }
}

impl App {
    /// The invariant: every buffer within its capacity.
    pub open spec fn wf(&self) -> bool {
        &&& self.timeline.wf()
        &&& forall|i: int| 0 <= i < self.processes@.len() ==> (#[trigger] self.processes@[i]).logs.wf()
    }

    pub open spec fn has_selected(&self) -> bool {
        self.selected < self.processes@.len()
    }

    pub open spec fn selected_state(&self) -> ProcessState {
        self.processes@[self.selected as int]
    }

    /// Creates the UI state for `specs`, every process idle.
    pub fn new(specs: Vec<ProcessSpec>, max_lines: usize, use_symbols: bool, input_enabled: bool) -> (r: Self)
        ensures
            r.wf(),
            r.processes@.len() == specs@.len(),
            forall|i: int| 0 <= i < specs@.len() ==> {
                let p = #[trigger] r.processes@[i];
                &&& p.spec == specs@[i]
                &&& p.status == ProcessStatus::Idle
                &&& p.logs@.len() == 0
                &&& p.logs.capacity() == max_lines
                &&& p.scroll == 0
                &&& p.follow == specs@[i].follow
                &&& p.pid.is_none() && p.started_at.is_none() && p.exit_code.is_none()
                &&& !p.input_active && !p.ready
            },
            r.timeline@.len() == 0,
            r.timeline.capacity() == timeline_capacity(max_lines as nat, specs@.len()),
            r.selected == 0,
            r.input_mode == InputMode::Normal,
            r.input@.len() == 0,
            r.input_buffer@.len() == 0,
            r.input_enabled == input_enabled,
            r.use_symbols == use_symbols,
            r.search_query.is_none(),
            r.search_matches@.len() == 0,
            r.search_index == 0,
            r.filter_query.is_none(),
            !r.json_formatting && !r.should_quit && !r.timeline_view && !r.strip_ansi && !r.show_help,
            r.timeline_follow,
            r.timeline_scroll == 0,
            r.log_view_height == 0,
            r.process_list_width == 0,
            r.log_viewport.is_none(),
            r.visible_raw_lines@.len() == 0,
            r.selection_start.is_none() && r.selection_end.is_none() && r.selection_scope.is_none(),
            !r.selection_active,
            r.status_message.is_none(),
    {
        let count: usize = if specs.len() == 0 {
            1
        } else {
            specs.len()
        };
        let product: usize = if max_lines > 0 && count > usize::MAX / max_lines {
            usize::MAX
        } else {
            proof {
                if max_lines > 0 {
                    assert(count * max_lines <= (usize::MAX / max_lines) * max_lines) by (nonlinear_arith)
                        requires count <= usize::MAX / max_lines, max_lines > 0;
                    assert((usize::MAX / max_lines) * max_lines <= usize::MAX) by (nonlinear_arith)
                        requires max_lines > 0;
                }
            }
            max_lines * count
        };
        proof {
            if max_lines > 0 && count > usize::MAX / max_lines {
                assert(max_lines * count > 50_000) by (nonlinear_arith)
                    requires count > usize::MAX / max_lines, max_lines > 0, usize::MAX > 100_000;
            }
        }
        let capped: usize = if product > 50_000 {
            50_000
        } else {
            product
        };
        let timeline_max = if capped < max_lines {
            max_lines
        } else {
            capped
        };
        let mut processes: Vec<ProcessState> = Vec::new();
        let mut rest = specs;
        let ghost all = rest@;
        let n = rest.len();
        let mut k: usize = 0;
        while k < n
            invariant
                n == all.len(),
                k <= n,
                rest@ == all.subrange(k as int, n as int),
                processes@.len() == k,
                forall|i: int| 0 <= i < k ==> {
                    let p = #[trigger] processes@[i];
                    &&& p.spec == all[i]
                    &&& p.status == ProcessStatus::Idle
                    &&& p.logs@.len() == 0
                    &&& p.logs.wf()
                    &&& p.logs.capacity() == max_lines
                    &&& p.scroll == 0
                    &&& p.follow == all[i].follow
                    &&& p.pid.is_none() && p.started_at.is_none() && p.exit_code.is_none()
                    &&& !p.input_active && !p.ready
                },
            decreases n - k,
        {
            let spec = rest.remove(0);
            processes.push(ProcessState::new(spec, max_lines));
            k += 1;
        }
        App {
            processes,
            selected: 0,
            input_mode: InputMode::Normal,
            input: String::new(),
            input_buffer: String::new(),
            input_enabled,
            search_query: None,
            search_matches: Vec::new(),
            search_index: 0,
            filter_query: None,
            json_formatting: false,
            should_quit: false,
            log_view_height: 0,
            process_list_width: 0,
            timeline_view: false,
            timeline_follow: true,
            timeline_scroll: 0,
            timeline: TimelineBuffer::new(timeline_max),
            strip_ansi: false,
            use_symbols,
            show_help: false,
            log_viewport: None,
            visible_raw_lines: Vec::new(),
            selection_start: None,
            selection_end: None,
            selection_active: false,
            selection_scope: None,
            status_message: None,
        }
    }

    /// The selected process, if the selection is in range.
    pub fn selected_process(&self) -> (r: Option<&ProcessState>)
        ensures
            self.has_selected() ==> r == Some(&self.selected_state()),
            !self.has_selected() ==> r.is_none(),
    {
        if self.selected < self.processes.len() {
            Some(&self.processes[self.selected])
        } else {
            None
        }
    }

    /// The selected process, for changing it.
    pub fn selected_process_mut(&mut self) -> (r: Option<&mut ProcessState>)
        ensures
            old(self).has_selected() ==> (r matches Some(p) && *p == old(self).selected_state()
                && final(self).processes@ == old(self).processes@.update(old(self).selected as int, *final(p))),
            !old(self).has_selected() ==> r.is_none() && final(self).processes@ == old(self).processes@,
            final(self).selected == old(self).selected,
            final(self).timeline == old(self).timeline,
    {
        if self.selected < self.processes.len() {
            Some(&mut self.processes[self.selected])
        } else {
            None
        }
    }
}

impl App {
    /// This state with the selection cleared.
    pub open spec fn cleared(self) -> App {
        App { selection_start: None, selection_end: None, selection_active: false, selection_scope: None, ..self }
    }

    /// The scroll position that shows the last full view of `len` lines.
    pub open spec fn bottom(&self, len: int) -> int {
        sat_sub(len, view_rows(self.log_view_height))
    }

    pub fn on_process_starting(&mut self, id: usize)
        ensures
            *final(self) == (App { processes: final(self).processes, ..*old(self) }),
            final(self).processes@ == if id < old(self).processes@.len() {
                old(self).processes@.update(id as int, ProcessState {
                    status: ProcessStatus::Starting, pid: None, exit_code: None, ..old(self).processes@[id as int]
                })
            } else {
                old(self).processes@
            },
    {
        if id < self.processes.len() {
            self.processes[id].status = ProcessStatus::Starting;
            self.processes[id].pid = None;
            self.processes[id].exit_code = None;
        }
    }

    pub fn on_process_ready(&mut self, id: usize)
        ensures
            *final(self) == (App { processes: final(self).processes, ..*old(self) }),
            final(self).processes@ == if id < old(self).processes@.len() {
                old(self).processes@.update(id as int, ProcessState { ready: true, ..old(self).processes@[id as int] })
            } else {
                old(self).processes@
            },
    {
        if id < self.processes.len() {
            self.processes[id].ready = true;
        }
    }

    /// Process `id` started with `pid` at `now`.
    pub fn on_process_started(&mut self, id: usize, pid: u32, now: u64)
        ensures
            *final(self) == (App { processes: final(self).processes, ..*old(self) }),
            final(self).processes@ == if id < old(self).processes@.len() {
                old(self).processes@.update(id as int, ProcessState {
                    status: ProcessStatus::Running,
                    pid: Some(pid),
                    started_at: Some(now),
                    exit_code: None,
                    ..old(self).processes@[id as int]
                })
            } else {
                old(self).processes@
            },
    {
        if id < self.processes.len() {
            self.processes[id].status = ProcessStatus::Running;
            self.processes[id].pid = Some(pid);
            self.processes[id].started_at = Some(now);
            self.processes[id].exit_code = None;
        }
    }

    pub fn on_process_exited(&mut self, id: usize, code: Option<i32>)
        ensures
            *final(self) == (App { processes: final(self).processes, ..*old(self) }),
            final(self).processes@ == if id < old(self).processes@.len() {
                old(self).processes@.update(id as int, ProcessState {
                    status: ProcessStatus::Exited { code },
                    exit_code: code,
                    ..old(self).processes@[id as int]
                })
            } else {
                old(self).processes@
            },
    {
        if id < self.processes.len() {
            self.processes[id].status = ProcessStatus::Exited { code };
            self.processes[id].exit_code = code;
        }
    }

    pub fn on_process_failed(&mut self, id: usize, error: String)
        ensures
            *final(self) == (App { processes: final(self).processes, ..*old(self) }),
            final(self).processes@ == if id < old(self).processes@.len() {
                old(self).processes@.update(id as int, ProcessState {
                    status: ProcessStatus::Failed { error },
                    ..old(self).processes@[id as int]
                })
            } else {
                old(self).processes@
            },
    {
        if id < self.processes.len() {
            self.processes[id].status = ProcessStatus::Failed { error };
        }
    }

    pub fn clear_selection(&mut self)
        ensures
            *final(self) == old(self).cleared(),
    {
        self.selection_start = None;
        self.selection_end = None;
        self.selection_active = false;
        self.selection_scope = None;
    }

    /// Scrolls up by `amount` lines and stops following.
    pub fn scroll_up(&mut self, amount: usize)
        ensures
            ({
                let a = old(self).cleared();
                if a.timeline_view {
                    let top = a.bottom(a.timeline@.len() as int);
                    let cur = if a.timeline_follow { top } else { a.timeline_scroll as int };
                    *final(self) == App {
                        timeline_scroll: min(sat_sub(cur, amount as int), top) as usize,
                        timeline_follow: false,
                        ..a
                    }
                } else if a.has_selected() {
                    let p = a.selected_state();
                    let top = a.bottom(p.logs@.len() as int);
                    let cur = if p.follow { top } else { p.scroll as int };
                    &&& *final(self) == App { processes: final(self).processes, ..a }
                    &&& final(self).processes@ == a.processes@.update(a.selected as int, ProcessState {
                        scroll: min(sat_sub(cur, amount as int), top) as usize,
                        follow: false,
                        ..p
                    })
                } else {
                    *final(self) == a
                }
            }),
    {
        let view = if self.log_view_height == 0 { 1 } else { self.log_view_height };
        self.clear_selection();
        if self.timeline_view {
            let max_scroll = if self.timeline.len() >= view { self.timeline.len() - view } else { 0 };
            let current = if self.timeline_follow { max_scroll } else { self.timeline_scroll };
            let down = if current >= amount { current - amount } else { 0 };
            self.timeline_scroll = if down <= max_scroll { down } else { max_scroll };
            self.timeline_follow = false;
            return;
        }
        if self.selected < self.processes.len() {
            let len = self.processes[self.selected].logs.len();
            let max_scroll = if len >= view { len - view } else { 0 };
            let current = if self.processes[self.selected].follow { max_scroll } else { self.processes[self.selected].scroll };
            let down = if current >= amount { current - amount } else { 0 };
            let next = if down <= max_scroll { down } else { max_scroll };
            let sel = self.selected;
            self.processes[sel].scroll = next;
            self.processes[sel].follow = false;
        }
    }

    /// Scrolls down by `amount` lines; following resumes at the bottom.
    pub fn scroll_down(&mut self, amount: usize)
        ensures
            ({
                let a = old(self).cleared();
                if a.timeline_view {
                    let top = a.bottom(a.timeline@.len() as int);
                    let cur = if a.timeline_follow { top } else { a.timeline_scroll as int };
                    let next = min(cur + amount, top);
                    *final(self) == App { timeline_scroll: next as usize, timeline_follow: next == top, ..a }
                } else if a.has_selected() {
                    let p = a.selected_state();
                    let top = a.bottom(p.logs@.len() as int);
                    let cur = if p.follow { top } else { p.scroll as int };
                    let next = min(cur + amount, top);
                    &&& *final(self) == App { processes: final(self).processes, ..a }
                    &&& final(self).processes@ == a.processes@.update(a.selected as int, ProcessState {
                        scroll: next as usize,
                        follow: next == top,
                        ..p
                    })
                } else {
                    *final(self) == a
                }
            }),
    {
        let view = if self.log_view_height == 0 { 1 } else { self.log_view_height };
        self.clear_selection();
        if self.timeline_view {
            let max_scroll = if self.timeline.len() >= view { self.timeline.len() - view } else { 0 };
            let current = if self.timeline_follow { max_scroll } else { self.timeline_scroll };
            let next = if current >= max_scroll || amount >= max_scroll - current { max_scroll } else { current + amount };
            self.timeline_scroll = next;
            self.timeline_follow = next == max_scroll;
            return;
        }
        if self.selected < self.processes.len() {
            let len = self.processes[self.selected].logs.len();
            let max_scroll = if len >= view { len - view } else { 0 };
            let current = if self.processes[self.selected].follow { max_scroll } else { self.processes[self.selected].scroll };
            let next = if current >= max_scroll || amount >= max_scroll - current { max_scroll } else { current + amount };
            let sel = self.selected;
            self.processes[sel].scroll = next;
            self.processes[sel].follow = next == max_scroll;
        }
    }

    /// Scrolls to the first line and stops following.
    pub fn scroll_to_top(&mut self)
        ensures
            ({
                let a = old(self).cleared();
                if a.timeline_view {
                    *final(self) == App { timeline_scroll: 0, timeline_follow: false, ..a }
                } else if a.has_selected() {
                    &&& *final(self) == App { processes: final(self).processes, ..a }
                    &&& final(self).processes@ == a.processes@.update(a.selected as int, ProcessState {
                        scroll: 0,
                        follow: false,
                        ..a.selected_state()
                    })
                } else {
                    *final(self) == a
                }
            }),
    {
        self.clear_selection();
        if self.timeline_view {
            self.timeline_scroll = 0;
            self.timeline_follow = false;
            return;
        }
        if self.selected < self.processes.len() {
            let sel = self.selected;
            self.processes[sel].scroll = 0;
            self.processes[sel].follow = false;
        }
    }

    /// The state after `ensure_follow`: scrolled to the bottom of the current view.
    pub open spec fn followed(self) -> (App, Seq<ProcessState>) {
        let a = self.cleared();
        if a.timeline_view {
            (App { timeline_scroll: a.bottom(a.timeline@.len() as int) as usize, ..a }, a.processes@)
        } else if a.has_selected() {
            let p = a.selected_state();
            (a, a.processes@.update(a.selected as int, ProcessState {
                scroll: a.bottom(p.logs@.len() as int) as usize,
                ..p
            }))
        } else {
            (a, a.processes@)
        }
    }

    /// Scrolls to the bottom of the current view.
    pub fn ensure_follow(&mut self)
        ensures
            *final(self) == (App { processes: final(self).processes, ..old(self).followed().0 }),
            final(self).processes@ == old(self).followed().1,
    {
        let view = if self.log_view_height == 0 { 1 } else { self.log_view_height };
        self.clear_selection();
        if self.timeline_view {
            let len = self.timeline.len();
            self.timeline_scroll = if len >= view { len - view } else { 0 };
            return;
        }
        if self.selected < self.processes.len() {
            let len = self.processes[self.selected].logs.len();
            let sel = self.selected;
            self.processes[sel].scroll = if len >= view { len - view } else { 0 };
        }
    }

    /// Sets the log view's height and keeps the scroll position within it.
    #[verifier::rlimit(40)]
    pub fn set_log_view_height(&mut self, height: usize)
        ensures
            ({
                let a = App { log_view_height: height, ..*old(self) };
                if a.timeline_view {
                    let top = a.bottom(a.timeline@.len() as int);
                    *final(self) == App {
                        timeline_scroll: (if a.timeline_follow { top } else { min(a.timeline_scroll as int, top) }) as usize,
                        ..a
                    }
                } else if a.has_selected() {
                    let p = a.selected_state();
                    let top = a.bottom(p.logs@.len() as int);
                    &&& *final(self) == App { processes: final(self).processes, ..a }
                    &&& final(self).processes@ == a.processes@.update(a.selected as int, ProcessState {
                        scroll: (if p.follow { top } else { min(p.scroll as int, top) }) as usize,
                        ..p
                    })
                } else {
                    *final(self) == a
                }
            }),
    {
        self.log_view_height = height;
        let view = if height == 0 { 1 } else { height };
        if self.timeline_view {
            let len = self.timeline.len();
            let max_scroll = if len >= view { len - view } else { 0 };
            let next = if self.timeline_follow || self.timeline_scroll > max_scroll {
                max_scroll
            } else {
                self.timeline_scroll
            };
            self.timeline_scroll = next;
            return;
        }
        if self.selected < self.processes.len() {
            let len = self.processes[self.selected].logs.len();
            let max_scroll = if len >= view { len - view } else { 0 };
            let sel = self.selected;
            let next = if self.processes[sel].follow || self.processes[sel].scroll > max_scroll {
                max_scroll
            } else {
                self.processes[sel].scroll
            };
            self.processes[sel].scroll = next;
        }
    }

    pub fn set_log_viewport(&mut self, viewport: LogViewport)
        ensures
            *final(self) == (App { log_viewport: Some(viewport), ..*old(self) }),
    {
        self.log_viewport = Some(viewport);
    }

    pub fn set_visible_raw_lines(&mut self, lines: Vec<String>)
        ensures
            *final(self) == (App { visible_raw_lines: lines, ..*old(self) }),
    {
        self.visible_raw_lines = lines;
    }

    /// The text typed for the selected process's stdin.
    pub fn input_line(&self) -> (r: &str)
        ensures
            r@ == self.input_buffer@,
    {
        self.input_buffer.as_str()
    }

    /// Whether the selected process follows its output (true without one).
    pub fn selected_following(&self) -> (r: bool)
        ensures
            r == (if self.has_selected() { self.selected_state().follow } else { true }),
    {
        if self.selected < self.processes.len() {
            self.processes[self.selected].follow
        } else {
            true
        }
    }

    /// Whether the current view follows its output.
    pub fn is_following(&self) -> (r: bool)
        ensures
            r == (if self.timeline_view {
                self.timeline_follow
            } else if self.has_selected() {
                self.selected_state().follow
            } else {
                true
            }),
    {
        if self.timeline_view {
            self.timeline_follow
        } else {
            self.selected_following()
        }
    }

    /// The view a selection made now belongs to.
    pub fn current_selection_scope(&self) -> (r: SelectionScope)
        ensures
            r == (if self.timeline_view { SelectionScope::Timeline } else { SelectionScope::Process(self.selected) }),
    {
        if self.timeline_view {
            SelectionScope::Timeline
        } else {
            SelectionScope::Process(self.selected)
        }
    }

    /// Whether a selection made in `scope` belongs to the current view.
    pub fn selection_scope_matches(&self, scope: SelectionScope) -> (r: bool)
        ensures
            r == match scope {
                SelectionScope::Timeline => self.timeline_view,
                SelectionScope::Process(id) => !self.timeline_view && self.selected == id,
            },
    {
        match scope {
            SelectionScope::Timeline => self.timeline_view,
            SelectionScope::Process(id) => !self.timeline_view && self.selected == id,
        }
    }

    /// Stops following the current view, so a selection stays in place.
    pub fn freeze_follow_for_selection(&mut self)
        ensures
            if old(self).timeline_view {
                *final(self) == App { timeline_follow: false, ..*old(self) }
            } else if old(self).has_selected() {
                &&& *final(self) == App { processes: final(self).processes, ..*old(self) }
                &&& final(self).processes@ == old(self).processes@.update(old(self).selected as int, ProcessState {
                    follow: false,
                    ..old(self).selected_state()
                })
            } else {
                *final(self) == *old(self)
            },
    {
        if self.timeline_view {
            self.timeline_follow = false;
            return;
        }
        if self.selected < self.processes.len() {
            let sel = self.selected;
            self.processes[sel].follow = false;
        }
    }

    /// The selected range of `len` lines, normalised so that start <= end and
    /// clamped to the last line; none without a selection in the current view.
    pub fn selection_range_for(&self, len: usize) -> (r: Option<(usize, usize)>)
        ensures
            r == (if self.selection_scope is Some && self.selection_scope_spec(self.selection_scope->0) && len > 0
                && self.selection_start is Some && self.selection_end is Some {
                Some(clamped_range(self.selection_start->0, self.selection_end->0, len))
            } else {
                None
            }),
    {
        let scope = match self.selection_scope {
            Some(s) => s,
            None => return None,
        };
        if !self.selection_scope_matches(scope) || len == 0 {
            return None;
        }
        let start = match self.selection_start {
            Some(s) => s,
            None => return None,
        };
        let end = match self.selection_end {
            Some(e) => e,
            None => return None,
        };
        Some(clamp_range(start, end, len))
    }

    pub open spec fn selection_scope_spec(&self, scope: SelectionScope) -> bool {
        match scope {
            SelectionScope::Timeline => self.timeline_view,
            SelectionScope::Process(id) => !self.timeline_view && self.selected == id,
        }
    }

    pub open spec fn range_spec(&self) -> Option<(usize, usize)> {
        if self.selection_scope is Some && self.selection_scope_spec(self.selection_scope->0)
            && self.visible_raw_lines@.len() > 0 && self.selection_start is Some && self.selection_end is Some {
            Some(clamped_range(self.selection_start->0, self.selection_end->0, self.visible_raw_lines@.len() as usize))
        } else {
            None
        }
    }

    /// The selected range of the visible lines.
    pub fn selection_range(&self) -> (r: Option<(usize, usize)>)
        ensures
            r == self.range_spec(),
    {
        self.selection_range_for(self.visible_raw_lines.len())
    }

    /// The selected visible lines, joined by newlines.
    pub fn selection_text(&self) -> (r: Option<String>)
        ensures
            r matches Some(t) ==> (self.range_spec() matches Some((s, e))
                && t@ == joined_lines(strs_of(self.visible_raw_lines@.subrange(s as int, e + 1)))),
            r is None ==> self.range_spec() is None,
    {
        let (start, end) = match self.selection_range() {
            Some(r) => r,
            None => return None,
        };
        let n = self.visible_raw_lines.len();
        let mut out = String::new();
        let mut i: usize = start;
        while i <= end
            invariant
                n == self.visible_raw_lines@.len(),
                start <= end < n,
                start <= i <= end + 1,
                out@ == joined_lines(strs_of(self.visible_raw_lines@.subrange(start as int, i as int))),
            decreases end + 1 - i,
        {
            let ghost before = out@;
            if i > start {
                push_char(&mut out, '\n');
            }
            let line = chars_of(self.visible_raw_lines[i].as_str());
            append_chars(&mut out, line.as_slice());
            proof {
                let v = strs_of(self.visible_raw_lines@.subrange(start as int, i + 1));
                assert(v.drop_last() =~= strs_of(self.visible_raw_lines@.subrange(start as int, i as int)));
                assert(v.last() == self.visible_raw_lines@[i as int]@);
            }
            i += 1;
        }
        Some(out)
    }
}

/// The characters of each string.
pub open spec fn strs_of(v: Seq<String>) -> Seq<Seq<char>> {
    v.map_values(|s: String| s@)
}

/// Lines joined with a newline between each two.
pub open spec fn joined_lines(v: Seq<Seq<char>>) -> Seq<char>
    decreases v.len(),
{
    if v.len() == 0 {
        seq![]
    } else if v.len() == 1 {
        v[0]
    } else {
        joined_lines(v.drop_last()) + seq!['\n'] + v.last()
    }
}

/// `(start, end)` in order, each clamped to `len - 1`.
pub open spec fn clamped_range(start: usize, end: usize, len: usize) -> (usize, usize) {
    let (lo, hi) = if start <= end { (start, end) } else { (end, start) };
    let max = (len - 1) as usize;
    (if lo <= max { lo } else { max }, if hi <= max { hi } else { max })
}

fn clamp_range(start: usize, end: usize, len: usize) -> (r: (usize, usize))
    requires
        len > 0,
    ensures
        r == clamped_range(start, end, len),
{
    let (lo, hi) = if start <= end { (start, end) } else { (end, start) };
    let max = len - 1;
    (if lo <= max { lo } else { max }, if hi <= max { hi } else { max })
}

/// Whether `n` occurs in `h`.
pub open spec fn contains(h: Seq<char>, n: Seq<char>) -> bool {
    exists|i: int| 0 <= i <= h.len() - n.len() && #[trigger] h.subrange(i, i + n.len()) == n
}

fn find_sub(h: &[char], n: &[char]) -> (r: bool)
    ensures
        r == contains(h@, n@),
{
    let hl = h.len();
    if n.len() > hl {
        return false;
    }
    let mut i: usize = 0;
    while i <= hl - n.len()
        invariant
            hl == h@.len(),
            n@.len() <= h@.len(),
            i <= h@.len() - n@.len() + 1,
            forall|k: int| 0 <= k < i ==> #[trigger] h@.subrange(k, k + n@.len()) != n@,
        decreases h@.len() - n@.len() + 1 - i,
    {
        let mut j: usize = 0;
        let mut ok = true;
        while j < n.len()
            invariant
                hl == h@.len(),
                n@.len() <= h@.len(),
                i <= h@.len() - n@.len(),
                j <= n@.len(),
                ok == forall|x: int| 0 <= x < j ==> h@[i + x] == n@[x],
            decreases n@.len() - j,
        {
            if h[i + j] != n[j] {
                ok = false;
            }
            j += 1;
        }
        if ok {
            assert(h@.subrange(i as int, i + n@.len()) =~= n@);
            return true;
        }
        assert(h@.subrange(i as int, i + n@.len()) != n@) by {
            let x = choose|x: int| 0 <= x < n@.len() && h@[i + x] != n@[x];
            assert(h@.subrange(i as int, i + n@.len())[x] == h@[i + x]);
        }
        i += 1;
    }
    false
}

/// The positions of the texts that contain `q`.
pub open spec fn match_indices(texts: Seq<Seq<char>>, q: Seq<char>, k: int) -> Seq<usize>
    decreases k,
{
    if k <= 0 {
        seq![]
    } else if contains(texts[k - 1], q) {
        match_indices(texts, q, k - 1).push((k - 1) as usize)
    } else {
        match_indices(texts, q, k - 1)
    }
}

pub open spec fn log_texts(v: Seq<LogLine>) -> Seq<Seq<char>> {
    v.map_values(|l: LogLine| l.text@)
}

pub open spec fn entry_texts(v: Seq<TimelineEntry>) -> Seq<Seq<char>> {
    v.map_values(|e: TimelineEntry| e.text@)
}

/// The part of a text after its last carriage return.
pub open spec fn after_last_cr(s: Seq<char>) -> Seq<char>
    decreases s.len(),
{
    if s.len() == 0 {
        s
    } else if s.last() == '\r' {
        seq![]
    } else {
        after_last_cr(s.drop_last()).push(s.last())
    }
}

/// A text cut at each newline (always at least one piece).
pub open spec fn split_newlines(s: Seq<char>) -> Seq<Seq<char>>
    decreases s.len(),
{
    if s.len() == 0 {
        seq![seq![]]
    } else {
        let p = split_newlines(s.drop_last());
        if s.last() == '\n' {
            p.push(seq![])
        } else {
            p.update(p.len() - 1, p.last().push(s.last()))
        }
    }
}

/// The lines of a text without carriage returns: cut at newlines, with no
/// empty line after a final newline.
pub open spec fn lines_of(s: Seq<char>) -> Seq<Seq<char>> {
    let p = split_newlines(s);
    if p.last().len() == 0 {
        p.drop_last()
    } else {
        p
    }
}

proof fn lemma_split_nonempty(s: Seq<char>)
    ensures
        split_newlines(s).len() >= 1,
    decreases s.len(),
{
    if s.len() > 0 {
        lemma_split_nonempty(s.drop_last());
    }
}

/// The plain lines of a log: escape sequences removed, each entry cut to what
/// follows its last carriage return, then split into lines.
pub open spec fn raw_lines(v: Seq<LogLine>) -> Seq<Seq<char>>
    decreases v.len(),
{
    if v.len() == 0 {
        seq![]
    } else {
        raw_lines(v.drop_last()) + lines_of(after_last_cr(crate::output::ansi_stripped(v.last().text@)))
    }
}

/// The part of `text` after its last carriage return.
pub fn strip_carriage(text: &str) -> (r: String)
    ensures
        r@ == after_last_cr(text@),
{
    let v = chars_of(text);
    let mut start: usize = 0;
    let mut i: usize = 0;
    while i < v.len()
        invariant
            v@ == text@,
            start <= i <= v@.len(),
            after_last_cr(v@.subrange(0, i as int)) == v@.subrange(start as int, i as int),
        decreases v@.len() - i,
    {
        proof {
            let s = v@.subrange(0, i + 1);
            assert(s.drop_last() =~= v@.subrange(0, i as int));
        }
        if v[i] == '\r' {
            start = i + 1;
            assert(v@.subrange(start as int, i + 1) =~= seq![]);
        } else {
            assert(v@.subrange(start as int, i + 1) =~= v@.subrange(start as int, i as int).push(v@[i as int]));
        }
        i += 1;
    }
    assert(v@.subrange(0, v@.len() as int) =~= v@);
    let mut out: Vec<char> = Vec::new();
    let mut k: usize = start;
    while k < v.len()
        invariant
            start <= k <= v@.len(),
            out@ == v@.subrange(start as int, k as int),
        decreases v@.len() - k,
    {
        out.push(v[k]);
        k += 1;
    }
    string_of(out.as_slice())
}

/// Appends the lines of `s` (which holds no carriage return) to `acc`.
fn push_lines(acc: &mut Vec<Vec<char>>, s: &Vec<char>)
    ensures
        final(acc)@.map_values(|l: Vec<char>| l@) == old(acc)@.map_values(|l: Vec<char>| l@) + lines_of(s@),
{
    let mut pieces: Vec<Vec<char>> = Vec::new();
    pieces.push(Vec::new());
    let mut i: usize = 0;
    assert(pieces@.map_values(|l: Vec<char>| l@) =~= split_newlines(s@.subrange(0, 0)));
    while i < s.len()
        invariant
            i <= s@.len(),
            pieces@.len() >= 1,
            pieces@.map_values(|l: Vec<char>| l@) == split_newlines(s@.subrange(0, i as int)),
        decreases s@.len() - i,
    {
        let ghost before = pieces@.map_values(|l: Vec<char>| l@);
        proof {
            let t = s@.subrange(0, i + 1);
            assert(t.drop_last() =~= s@.subrange(0, i as int));
        }
        if s[i] == '\n' {
            pieces.push(Vec::new());
            assert(pieces@.map_values(|l: Vec<char>| l@) =~= before.push(seq![]));
        } else {
            let last = pieces.len() - 1;
            let mut cur = pieces.remove(last);
            cur.push(s[i]);
            pieces.push(cur);
            assert(pieces@.map_values(|l: Vec<char>| l@) =~= before.update(before.len() - 1, before.last().push(s@[i as int])));
        }
        i += 1;
    }
    assert(s@.subrange(0, s@.len() as int) =~= s@);
    let n = pieces.len();
    let keep = if pieces[n - 1].len() == 0 { n - 1 } else { n };
    let ghost all = pieces@.map_values(|l: Vec<char>| l@);
    assert(all.last() == pieces@[n - 1]@);
    let mut k: usize = 0;
    let mut rest = pieces;
    let ghost start = acc@.map_values(|l: Vec<char>| l@);
    while k < keep
        invariant
            keep <= n,
            k <= keep,
            rest@.len() == n - k,
            forall|x: int| 0 <= x < rest@.len() ==> #[trigger] rest@[x]@ == all[k + x],
            all.len() == n,
            n >= 1,
            all == split_newlines(s@),
            keep == n - 1 <==> all.last().len() == 0,
            keep == n || keep == n - 1,
            start == old(acc)@.map_values(|l: Vec<char>| l@),
            acc@.map_values(|l: Vec<char>| l@) == start + all.subrange(0, k as int),
        decreases keep - k,
    {
        let ghost before = acc@;
        let line = rest.remove(0);
        assert(line@ == all[k as int]);
        acc.push(line);
        assert(acc@ == before.push(line));
        assert(acc@.map_values(|l: Vec<char>| l@) =~= before.map_values(|l: Vec<char>| l@).push(line@));
        assert(acc@.map_values(|l: Vec<char>| l@) =~= start + all.subrange(0, k + 1));
        k += 1;
    }
    proof {
        if keep == n - 1 {
            assert(all.subrange(0, keep as int) =~= all.drop_last());
        } else {
            assert(all.subrange(0, keep as int) =~= all);
        }
        assert(lines_of(s@) == all.subrange(0, keep as int));
        assert(k == keep);
    }
}

impl App {
    /// The texts of the current view: the timeline's entries, or the selected
    /// process's lines.
    pub open spec fn view_texts(&self) -> Seq<Seq<char>> {
        if self.timeline_view {
            entry_texts(self.timeline@)
        } else if self.has_selected() {
            log_texts(self.selected_state().logs@)
        } else {
            seq![]
        }
    }

    /// The matches of the search query in the current view.
    pub open spec fn matches_spec(&self) -> Seq<usize> {
        match self.search_query {
            None => seq![],
            Some(q) => match_indices(self.view_texts(), q@, self.view_texts().len() as int),
        }
    }

    /// Recomputes the positions of the lines of the current view that contain
    /// the search query, and goes back to the first match.
    pub fn update_search_matches(&mut self)
        ensures
            *final(self) == (App { search_index: 0, search_matches: final(self).search_matches, ..*old(self) }),
            final(self).search_matches@ == old(self).matches_spec(),
    {
        self.search_index = 0;
        let q = match &self.search_query {
            None => {
                self.search_matches = Vec::new();
                return;
            },
            Some(q) => chars_of(q.as_str()),
        };
        let mut matches: Vec<usize> = Vec::new();
        let ghost texts = self.view_texts();
        if self.timeline_view {
            let n = self.timeline.len();
            let mut idx: usize = 0;
            while idx < n
                invariant
                    n == self.timeline@.len(),
                    texts == entry_texts(self.timeline@),
                    idx <= n,
                    matches@ == match_indices(texts, q@, idx as int),
                decreases n - idx,
            {
                let t = chars_of(self.timeline.get(idx).text.as_str());
                if find_sub(t.as_slice(), q.as_slice()) {
                    matches.push(idx);
                }
                idx += 1;
            }
        } else if self.selected < self.processes.len() {
            let n = self.processes[self.selected].logs.len();
            let mut idx: usize = 0;
            while idx < n
                invariant
                    self.selected < self.processes@.len(),
                    n == self.selected_state().logs@.len(),
                    texts == log_texts(self.selected_state().logs@),
                    idx <= n,
                    matches@ == match_indices(texts, q@, idx as int),
                decreases n - idx,
            {
                let t = chars_of(self.processes[self.selected].logs.get(idx).text.as_str());
                if find_sub(t.as_slice(), q.as_slice()) {
                    matches.push(idx);
                }
                idx += 1;
            }
        }
        self.search_matches = matches;
    }

    /// The line of the current match.
    pub fn selected_match_line(&self) -> (r: Option<usize>)
        ensures
            r == (if self.search_index < self.search_matches@.len() {
                Some(self.search_matches@[self.search_index as int])
            } else {
                None::<usize>
            }),
    {
        if self.search_index < self.search_matches.len() {
            Some(self.search_matches[self.search_index])
        } else {
            None
        }
    }

    /// What scrolling so that `line` sits in the middle of the view makes of `a`.
    pub open spec fn centered(a: App, line: int, b: App) -> bool {
        let half = view_rows(a.log_view_height) / 2;
        if a.timeline_view {
            b == App {
                timeline_scroll: min(sat_sub(line, half), a.bottom(a.timeline@.len() as int)) as usize,
                timeline_follow: false,
                ..a
            }
        } else if a.has_selected() {
            let p = a.selected_state();
            &&& b == App { processes: b.processes, ..a }
            &&& b.processes@ == a.processes@.update(a.selected as int, ProcessState {
                scroll: min(sat_sub(line, half), a.bottom(p.logs@.len() as int)) as usize,
                follow: false,
                ..p
            })
        } else {
            b == a
        }
    }

    #[verifier::rlimit(60)]
    fn center_on(&mut self, line: usize)
        ensures
            Self::centered(*old(self), line as int, *final(self)),
    {
        let view = if self.log_view_height == 0 { 1 } else { self.log_view_height };
        let up = if line >= view / 2 { line - view / 2 } else { 0 };
        assert(view as int == view_rows(self.log_view_height));
        assert(up as int == sat_sub(line as int, view_rows(self.log_view_height) / 2));
        if self.timeline_view {
            let len = self.timeline.len();
            let max_scroll = if len >= view { len - view } else { 0 };
            self.timeline_scroll = if up <= max_scroll { up } else { max_scroll };
            self.timeline_follow = false;
        } else if self.selected < self.processes.len() {
            let len = self.processes[self.selected].logs.len();
            let max_scroll = if len >= view { len - view } else { 0 };
            let sel = self.selected;
            self.processes[sel].scroll = if up <= max_scroll { up } else { max_scroll };
            self.processes[sel].follow = false;
            assert(self.processes@ == old(self).processes@.update(old(self).selected as int, ProcessState {
                scroll: min(sat_sub(line as int, view_rows(old(self).log_view_height) / 2), old(self).bottom(old(self).selected_state().logs@.len() as int)) as usize,
                follow: false,
                ..old(self).selected_state()
            }));
            assert(*self == App { processes: self.processes, ..*old(self) });
        }
    }

    /// Moves to the next (or previous) match, cyclically, and scrolls so that it
    /// sits in the middle of the view.
    #[verifier::rlimit(60)]
    pub fn jump_search(&mut self, forward: bool)
        ensures
            old(self).search_matches@.len() == 0 ==> *final(self) == *old(self),
            old(self).search_matches@.len() > 0 ==> {
                let n = old(self).search_matches@.len() as int;
                let i = old(self).search_index as int;
                let k = if forward {
                    (i + 1) % n
                } else if i == 0 {
                    n - 1
                } else {
                    i - 1
                };
                let a = App { search_index: k as usize, ..*old(self) };
                if k < n {
                    Self::centered(a, a.search_matches@[k] as int, *final(self))
                } else {
                    *final(self) == a
                }
            },
    {
        let n = self.search_matches.len();
        if n == 0 {
            return;
        }
        if forward {
            self.search_index = ((self.search_index as u128 + 1) % (n as u128)) as usize;
        } else if self.search_index == 0 {
            self.search_index = n - 1;
        } else {
            self.search_index = self.search_index - 1;
        }
        if let Some(line) = self.selected_match_line() {
            self.center_on(line);
        }
    }

    /// Toggles following of the current view; resuming follows to the bottom.
    pub fn toggle_follow(&mut self)
        ensures
            if old(self).timeline_view {
                let a = App { timeline_follow: !old(self).timeline_follow, ..*old(self) };
                if a.timeline_follow {
                    *final(self) == (App { processes: final(self).processes, ..a.followed().0 }) && final(self).processes@ == a.followed().1
                } else {
                    *final(self) == a
                }
            } else if old(self).has_selected() {
                let p = old(self).selected_state();
                let ps = old(self).processes@.update(old(self).selected as int, ProcessState { follow: !p.follow, ..p });
                &&& *final(self) == (App { processes: final(self).processes, ..(if !p.follow { old(self).followed().0 } else { *old(self) }) })
                &&& final(self).processes@ == if !p.follow {
                    App { processes: final(self).processes, ..*old(self) }.cleared().processes@.update(
                        old(self).selected as int,
                        ProcessState { follow: true, scroll: old(self).bottom(p.logs@.len() as int) as usize, ..p },
                    )
                } else {
                    ps
                }
            } else {
                *final(self) == *old(self)
            },
    {
        if self.timeline_view {
            self.timeline_follow = !self.timeline_follow;
            if self.timeline_follow {
                self.ensure_follow();
            }
            return;
        }
        if self.selected < self.processes.len() {
            let sel = self.selected;
            let f = !self.processes[sel].follow;
            self.processes[sel].follow = f;
            if f {
                self.ensure_follow();
            }
        }
    }

    /// Directs typing to the selected process's stdin.
    pub fn enter_input_mode(&mut self)
        ensures
            *final(self) == (App {
                input_mode: InputMode::Input,
                input_buffer: final(self).input_buffer,
                processes: final(self).processes,
                ..*old(self)
            }),
            final(self).input_buffer@.len() == 0,
            final(self).processes@ == if old(self).has_selected() {
                old(self).processes@.update(old(self).selected as int, ProcessState { input_active: true, ..old(self).selected_state() })
            } else {
                old(self).processes@
            },
    {
        self.input_mode = InputMode::Input;
        self.input_buffer = String::new();
        if self.selected < self.processes.len() {
            let sel = self.selected;
            self.processes[sel].input_active = true;
        }
    }

    /// Leaves stdin input (clearing what was typed) and marks no process as
    /// receiving input.
    pub fn exit_input_mode(&mut self)
        ensures
            final(self).processes@.len() == old(self).processes@.len(),
            forall|i: int| 0 <= i < old(self).processes@.len() ==> #[trigger] final(self).processes@[i] == (ProcessState {
                input_active: false,
                ..old(self).processes@[i]
            }),
            old(self).input_mode == InputMode::Input ==> *final(self) == (App {
                input_mode: InputMode::Normal,
                input_buffer: final(self).input_buffer,
                processes: final(self).processes,
                ..*old(self)
            }) && final(self).input_buffer@.len() == 0,
            old(self).input_mode != InputMode::Input ==> *final(self) == (App { processes: final(self).processes, ..*old(self) }),
    {
        if self.input_mode == InputMode::Input {
            self.input_mode = InputMode::Normal;
            self.input_buffer = String::new();
        }
        let n = self.processes.len();
        let mut i: usize = 0;
        let ghost mid = *self;
        while i < n
            invariant
                n == old(self).processes@.len(),
                i <= n,
                self.processes@.len() == n,
                *self == (App { processes: self.processes, ..mid }),
                mid.processes@ == old(self).processes@,
                forall|k: int| 0 <= k < i ==> #[trigger] self.processes@[k] == (ProcessState {
                    input_active: false,
                    ..old(self).processes@[k]
                }),
                forall|k: int| i <= k < n ==> #[trigger] self.processes@[k] == old(self).processes@[k],
            decreases n - i,
        {
            self.processes[i].input_active = false;
            i += 1;
        }
    }

    /// Shows `message` at `now` with `level`, for `ttl` milliseconds (or until
    /// replaced).
    pub fn set_status_message_with_level(&mut self, message: String, level: StatusLevel, ttl: Option<u64>, now: u64)
        ensures
            *final(self) == (App { status_message: Some(StatusMessage { text: message, at: now, ttl, level }), ..*old(self) }),
    {
        self.status_message = Some(StatusMessage { text: message, at: now, ttl, level });
    }

    /// Shows an information message for three seconds.
    pub fn set_status_message(&mut self, message: String, now: u64)
        ensures
            *final(self) == (App {
                status_message: Some(StatusMessage { text: message, at: now, ttl: Some(3000), level: StatusLevel::Info }),
                ..*old(self)
            }),
    {
        self.set_status_message_with_level(message, StatusLevel::Info, Some(3000), now);
    }

    /// Shows a warning for `ttl_ms` milliseconds.
    pub fn set_status_warning_for(&mut self, message: String, ttl_ms: u64, now: u64)
        ensures
            *final(self) == (App {
                status_message: Some(StatusMessage { text: message, at: now, ttl: Some(ttl_ms), level: StatusLevel::Warning }),
                ..*old(self)
            }),
    {
        self.set_status_message_with_level(message, StatusLevel::Warning, Some(ttl_ms), now);
    }

    /// Shows a warning until it is replaced.
    pub fn set_status_warning_persistent(&mut self, message: String, now: u64)
        ensures
            *final(self) == (App {
                status_message: Some(StatusMessage { text: message, at: now, ttl: None, level: StatusLevel::Warning }),
                ..*old(self)
            }),
    {
        self.set_status_message_with_level(message, StatusLevel::Warning, None, now);
    }

    /// The status message still showing at `now`.
    pub fn status_message(&self, now: u64) -> (r: Option<(&str, StatusLevel)>)
        ensures
            r matches Some((t, l)) ==> (self.status_message matches Some(m) && t@ == m.text@ && l == m.level),
            r is Some <==> (self.status_message matches Some(m) && match m.ttl {
                Some(ttl) => sat_sub(now as int, m.at as int) < ttl,
                None => true,
            }),
    {
        match &self.status_message {
            Some(m) => {
                let visible = match m.ttl {
                    Some(ttl) => (if now >= m.at { now - m.at } else { 0 }) < ttl,
                    None => true,
                };
                if visible {
                    Some((m.text.as_str(), m.level))
                } else {
                    None
                }
            },
            None => None,
        }
    }

    /// The log line under screen cell (`row`, `col`), counted from the top of the
    /// log view.
    pub fn log_row_at(&self, row: u16, col: u16) -> (r: Option<usize>)
        ensures
            r == (match self.log_viewport {
                Some(v) => if v.y <= row < v.y + v.height && v.x <= col < v.x + v.width {
                    Some((row - v.y) as usize)
                } else {
                    None::<usize>
                },
                None => None::<usize>,
            }),
    {
        let v = match self.log_viewport {
            Some(v) => v,
            None => return None,
        };
        if (row as u32) < (v.y as u32) || (row as u32) >= (v.y as u32) + (v.height as u32) {
            return None;
        }
        if (col as u32) < (v.x as u32) || (col as u32) >= (v.x as u32) + (v.width as u32) {
            return None;
        }
        Some((row - v.y) as usize)
    }

    /// The plain text of the selected process's log: escape sequences removed,
    /// each entry cut to what follows its last carriage return, lines joined by
    /// newlines; none when there are no lines.
    pub fn selected_process_raw_text(&self) -> (r: Option<String>)
        ensures
            !self.has_selected() ==> r is None,
            self.has_selected() ==> {
                let lines = raw_lines(self.selected_state().logs@);
                &&& r is None <==> lines.len() == 0
                &&& r matches Some(t) ==> t@ == joined_lines(lines)
            },
    {
        if self.selected >= self.processes.len() {
            return None;
        }
        let logs = &self.processes[self.selected].logs;
        let mut lines: Vec<Vec<char>> = Vec::new();
        let n = logs.len();
        let mut i: usize = 0;
        while i < n
            invariant
                n == logs@.len(),
                i <= n,
                lines@.map_values(|l: Vec<char>| l@) == raw_lines(logs@.subrange(0, i as int)),
            decreases n - i,
        {
            let clean = crate::output::sanitize_text(logs.get(i).text.as_str(), true);
            let text = strip_carriage(clean.as_str());
            let cs = chars_of(text.as_str());
            push_lines(&mut lines, &cs);
            proof {
                let s = logs@.subrange(0, i + 1);
                assert(s.drop_last() =~= logs@.subrange(0, i as int));
            }
            i += 1;
        }
        assert(logs@.subrange(0, n as int) =~= logs@);
        if lines.len() == 0 {
            return None;
        }
        let mut out = String::new();
        let mut k: usize = 0;
        let ghost all = lines@.map_values(|l: Vec<char>| l@);
        while k < lines.len()
            invariant
                all == lines@.map_values(|l: Vec<char>| l@),
                k <= lines@.len(),
                out@ == joined_lines(all.subrange(0, k as int)),
            decreases lines@.len() - k,
        {
            if k > 0 {
                push_char(&mut out, '\n');
            }
            append_chars(&mut out, lines[k].as_slice());
            proof {
                let v = all.subrange(0, k + 1);
                assert(v.drop_last() =~= all.subrange(0, k as int));
            }
            k += 1;
        }
        assert(all.subrange(0, all.len() as int) =~= all);
        Some(out)
    }
}

impl App {
    /// `b` is `a` with `line` of process `id` appended to that process's log and to
    /// the timeline; a scrolled-back view keeps showing the same lines when the
    /// oldest line is dropped.
    pub open spec fn pushed(a: App, b: App, id: usize, line: String, stream: StreamKind) -> bool {
        &&& b == App { processes: b.processes, timeline: b.timeline, timeline_scroll: b.timeline_scroll, ..a }
        &&& b.processes@.len() == a.processes@.len()
        &&& forall|j: int| 0 <= j < a.processes@.len() && j != id ==> #[trigger] b.processes@[j] == a.processes@[j]
        &&& id < a.processes@.len() ==> {
            let p = a.processes@[id as int];
            let q = b.processes@[id as int];
            let dropped = p.logs@.len() + 1 > p.logs.capacity();
            &&& q == ProcessState { logs: q.logs, scroll: q.scroll, ..p }
            &&& q.logs.wf()
            &&& q.logs.capacity() == p.logs.capacity()
            &&& q.logs@ == keep_last(p.logs@.push(LogLine { text: line, stream }), p.logs.capacity())
            &&& q.scroll == if dropped && !p.follow && p.scroll > 0 { (p.scroll - 1) as usize } else { p.scroll }
        }
        &&& b.timeline.wf()
        &&& b.timeline.capacity() == a.timeline.capacity()
        &&& b.timeline@ == keep_last(a.timeline@.push(TimelineEntry { text: line, process_id: id }), a.timeline.capacity())
        &&& b.timeline_scroll == if a.timeline@.len() + 1 > a.timeline.capacity() && !a.timeline_follow
            && a.timeline_scroll > 0 {
            (a.timeline_scroll - 1) as usize
        } else {
            a.timeline_scroll
        }
    }

    #[verifier::rlimit(60)]
    fn push_output(&mut self, id: usize, line: String, stream: StreamKind)
        requires
            old(self).wf(),
        ensures
            final(self).wf(),
            Self::pushed(*old(self), *final(self), id, line, stream),
    {
        if id < self.processes.len() {
            let dropped = self.processes[id].logs.push(LogLine { text: line.clone(), stream });
            if dropped && !self.processes[id].follow && self.processes[id].scroll > 0 {
                self.processes[id].scroll = self.processes[id].scroll - 1;
            }
        }
        let dropped_timeline = self.timeline.push(TimelineEntry { text: line, process_id: id });
        if dropped_timeline && !self.timeline_follow && self.timeline_scroll > 0 {
            self.timeline_scroll = self.timeline_scroll - 1;
        }
    }

    /// Records a line of output of process `id`: appends it to the process's log
    /// and to the timeline, follows the current view when it follows and shows
    /// this output, and refreshes the search when the current view shows it.
    pub fn on_process_output(&mut self, id: usize, line: String, stream: StreamKind)
        requires
            old(self).wf(),
        ensures
            final(self).wf(),
            exists|m: App, m2: App| #![trigger Self::pushed(*old(self), m, id, line, stream), m2.processes] {
                let a = *old(self);
                let shown = a.timeline_view || a.selected == id;
                let follow = if a.timeline_view {
                    a.timeline_follow
                } else {
                    a.selected == id && (!a.has_selected() || a.selected_state().follow)
                };
                &&& Self::pushed(a, m, id, line, stream)
                &&& follow ==> m2 == (App { processes: m2.processes, ..m.followed().0 }) && m2.processes@ == m.followed().1
                &&& !follow ==> m2 == m
                &&& shown ==> *final(self) == (App { search_index: 0, search_matches: final(self).search_matches, ..m2 })
                    && final(self).search_matches@ == m2.matches_spec()
                &&& !shown ==> *final(self) == m2
            },
    {
        let ghost a = *self;
        let selected = self.selected == id;
        let selected_follow = selected && (if id < self.processes.len() { self.processes[id].follow } else { true });
        self.push_output(id, line, stream);
        let ghost m = *self;
        if self.timeline_view {
            if self.timeline_follow {
                self.ensure_follow();
            }
        } else if selected && selected_follow {
            self.ensure_follow();
        }
        let ghost m2 = *self;
        if self.timeline_view || selected {
            self.update_search_matches();
        }
        proof {
            assert forall|i: int| 0 <= i < self.processes@.len() implies (#[trigger] self.processes@[i]).logs.wf() by {
                assert(self.processes@[i].logs == m.processes@[i].logs);
            }
        }
    }

    /// The group heading of process `i`: its first tag, or "Ungrouped".
    pub open spec fn group_of(&self, i: int) -> Seq<char> {
        let tags = self.processes@[i].spec.tags@;
        if tags.len() > 0 {
            tags[0]@
        } else {
            "Ungrouped"@
        }
    }

    /// Whether process `i` starts a new group in the process list.
    pub open spec fn starts_group(&self, i: int) -> bool {
        i == 0 || self.group_of(i) != self.group_of(i - 1)
    }

    /// The number of group headings among the first `k` processes.
    pub open spec fn headings(&self, k: int) -> int
        decreases k,
    {
        if k <= 0 {
            0
        } else {
            self.headings(k - 1) + if self.starts_group(k - 1) { 1int } else { 0int }
        }
    }

    /// The row of process `i` in the process list, where every group is headed
    /// by a row of its own.
    pub open spec fn row_of(&self, i: int) -> int {
        i + self.headings(i + 1)
    }

    fn group_name(&self, i: usize) -> (r: String)
        requires
            i < self.processes@.len(),
        ensures
            r@ == self.group_of(i as int),
    {
        if self.processes[i].spec.tags.len() > 0 {
            copy_string(&self.processes[i].spec.tags[0])
        } else {
            proof {
                reveal_strlit("Ungrouped");
            }
            let v = chars_of("Ungrouped");
            string_of(v.as_slice())
        }
    }

    /// The process shown on row `row` of the process list; none on a group
    /// heading or below the list.
    pub fn process_index_at_visual_row(&self, row: u16) -> (r: Option<usize>)
        ensures
            r matches Some(i) ==> i < self.processes@.len() && self.row_of(i as int) == row,
            r is None ==> forall|i: int| 0 <= i < self.processes@.len() ==> #[trigger] self.row_of(i) != row,
    {
        let n = self.processes.len();
        let mut current: u64 = 0;
        let mut last: Option<String> = None;
        let mut i: usize = 0;
        while i < n
            invariant
                n == self.processes@.len(),
                i <= n,
                current == i + self.headings(i as int),
                i > 0 ==> (last matches Some(t) && t@ == self.group_of(i - 1)),
                i == 0 ==> last is None,
                forall|k: int| 0 <= k < i ==> #[trigger] self.row_of(k) != row,
                forall|k: int| 0 <= k < i ==> #[trigger] self.row_of(k) < current,
            decreases n - i,
        {
            proof {
                lemma_headings_mono(*self, i as int);
            }
            if current > row as u64 {
                proof {
                    assert forall|k: int| 0 <= k < n implies #[trigger] self.row_of(k) != row by {
                        if k >= i {
                            lemma_headings_ge(*self, i as int, k + 1);
                        }
                    }
                }
                return None;
            }
            let tag = self.group_name(i);
            let new_group = match &last {
                None => true,
                Some(t) => !crate::text::same_text(t.as_str(), tag.as_str()),
            };
            assert(new_group == self.starts_group(i as int));
            if new_group {
                if current == row as u64 {
                    proof {
                        assert forall|k: int| 0 <= k < n implies #[trigger] self.row_of(k) != row by {
                            if k > i {
                                lemma_row_increasing(*self, i as int, k);
                            }
                        }
                    }
                    return None;
                }
                current = current + 1;
                last = Some(tag);
            }
            if current == row as u64 {
                return Some(i);
            }
            current = current + 1;
            i += 1;
        }
        None
    }
}

proof fn lemma_headings_mono(a: App, i: int)
    requires
        i >= 0,
    ensures
        a.headings(i) <= i,
        a.headings(i) >= 0,
    decreases i,
{
    if i > 0 {
        lemma_headings_mono(a, i - 1);
    }
}

proof fn lemma_headings_ge(a: App, i: int, k: int)
    requires
        0 <= i <= k,
    ensures
        a.headings(i) <= a.headings(k),
    decreases k - i,
{
    if i < k {
        lemma_headings_ge(a, i, k - 1);
    }
}

proof fn lemma_row_increasing(a: App, i: int, k: int)
    requires
        0 <= i < k,
    ensures
        a.row_of(k) >= i + a.headings(i) + 1,
{
    lemma_headings_ge(a, i, k + 1);
}

/// Two decimal digits at least: `7` reads `07`.
pub open spec fn two_digits(n: nat) -> Seq<char> {
    if n < 10 {
        seq!['0'] + crate::text::decimal(n)
    } else {
        crate::text::decimal(n)
    }
}

/// A duration as minutes and seconds, `MM:SS`.
pub open spec fn duration_text(secs: nat) -> Seq<char> {
    two_digits(secs / 60) + seq![':'] + two_digits(secs % 60)
}

pub fn format_duration(secs: u64) -> (r: String)
    ensures
        r@ == duration_text(secs as nat),
{
    let minutes = secs / 60;
    let seconds = secs % 60;
    let mut s = String::new();
    if minutes < 10 {
        push_char(&mut s, '0');
    }
    crate::text::push_decimal(&mut s, minutes);
    push_char(&mut s, ':');
    if seconds < 10 {
        push_char(&mut s, '0');
    }
    crate::text::push_decimal(&mut s, seconds);
    assert(s@ =~= duration_text(secs as nat));
    s
}

pub open spec fn name_char(c: char) -> char {
    if ('a' <= c <= 'z') || ('A' <= c <= 'Z') || ('0' <= c <= '9') || c == '-' || c == '_' {
        c
    } else {
        '_'
    }
}

/// A name fit for a file name: ASCII letters, digits, `-` and `_` are kept, any
/// other character becomes `_`.
pub fn sanitize_name(name: &str) -> (r: String)
    ensures
        r@ == name@.map_values(|c: char| name_char(c)),
{
    let v = chars_of(name);
    let mut out: Vec<char> = Vec::new();
    let mut i: usize = 0;
    while i < v.len()
        invariant
            v@ == name@,
            i <= v@.len(),
            out@ == v@.subrange(0, i as int).map_values(|c: char| name_char(c)),
        decreases v@.len() - i,
    {
        let c = v[i];
        let k = if ('a' <= c && c <= 'z') || ('A' <= c && c <= 'Z') || ('0' <= c && c <= '9') || c == '-' || c == '_' {
            c
        } else {
            '_'
        };
        out.push(k);
        proof {
            assert(v@.subrange(0, i + 1).map_values(|c: char| name_char(c)) =~= v@.subrange(0, i as int).map_values(|c: char| name_char(c)).push(name_char(c)));
        }
        i += 1;
    }
    assert(v@.subrange(0, v@.len() as int) =~= v@);
    string_of(out.as_slice())
}

/// The control byte Ctrl+`c` sends: 1 for `a`/`A` through 26 for `z`/`Z`; none
/// for other characters.
pub open spec fn control_of(c: char) -> Option<u8> {
    if 'a' <= c <= 'z' {
        Some((c as int - 'a' as int + 1) as u8)
    } else if 'A' <= c <= 'Z' {
        Some((c as int - 'A' as int + 1) as u8)
    } else {
        None
    }
}

pub fn control_byte(c: char) -> (r: Option<u8>)
    ensures
        r == control_of(c),
{
    if 'a' <= c && c <= 'z' {
        Some(((c as u32) - ('a' as u32) + 1) as u8)
    } else if 'A' <= c && c <= 'Z' {
        Some(((c as u32) - ('A' as u32) + 1) as u8)
    } else {
        None
    }
}

} // verus!
