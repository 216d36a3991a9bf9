//! Keyboard and mouse input of the terminal UI, translated into state changes
//! and actions.

use vstd::prelude::*;

use crate::app::{control_of, control_byte, App, AppAction, InputMode, SelectionScope};
use crate::config::trimmed;
use crate::text::{chars_of, copy_string, pop_char, push_char};

verus! {

/// A key as the UI distinguishes keys.
#[derive(Debug, Clone, Copy, PartialEq, Eq, Structural)]
pub enum KeyCode {
    Char(char),
    Enter,
    Esc,
    Backspace,
    Tab,
    Up,
    Down,
    PageUp,
    PageDown,
    Home,
    End,
    Other,
}

/// A key press, and whether Control was held.
#[derive(Debug, Clone, Copy, PartialEq, Eq, Structural)]
pub struct KeyEvent {
    pub code: KeyCode,
    pub ctrl: bool,
}

/// What the mouse did.
#[derive(Debug, Clone, Copy, PartialEq, Eq, Structural)]
pub enum MouseKind {
    LeftDown,
    LeftDrag,
    LeftUp,
    ScrollDown,
    ScrollUp,
    Other,
}

/// A mouse event at a screen cell.
#[derive(Debug, Clone, Copy, PartialEq, Eq, Structural)]
pub struct MouseEvent {
    pub kind: MouseKind,
    pub column: u16,
    pub row: u16,
}

pub open spec fn popped(s: Seq<char>) -> Seq<char> {
    if s.len() > 0 {
        s.drop_last()
    } else {
        s
    }
}

/// A query typed so far: trimmed, none when empty.
pub open spec fn query_of(input: Seq<char>) -> Option<Seq<char>> {
    if trimmed(input).len() == 0 {
        None
    } else {
        Some(trimmed(input))
    }
}

pub open spec fn opt_view(o: Option<String>) -> Option<Seq<char>> {
    match o {
        Some(s) => Some(s@),
        None => None,
    }
}

fn query(input: &String) -> (r: Option<String>)
    ensures
        opt_view(r) == query_of(input@),
{
    let v = chars_of(input.as_str());
    assert(v@.subrange(0, v@.len() as int) =~= v@);
    let t = crate::config::trim(&v, 0, v.len());
    if t.len() == 0 {
        None
    } else {
        Some(crate::text::string_of(t.as_slice()))
    }
}

impl App {
    /// What `handle_group_input` does: `a` before, `b` after, `r` the action.
    pub open spec fn group_step(a: App, key: KeyEvent, b: App, r: AppAction) -> bool {
        &&& (match key.code {
            KeyCode::Esc => r == AppAction::NoOp && b.input@.len() == 0
                && b == (App { input: b.input, input_mode: InputMode::Normal, ..a }),
            KeyCode::Enter => b.input@.len() == 0
                && b == (App { input: b.input, input_mode: InputMode::Normal, ..a })
                && match query_of(a.input@) {
                    Some(q) => r matches AppAction::RestartGroup(g) && g@ == q,
                    None => r == AppAction::NoOp,
                },
            KeyCode::Backspace => r == AppAction::NoOp && b.input@ == popped(a.input@)
                && b == (App { input: b.input, ..a }),
            KeyCode::Char(c) => r == AppAction::NoOp && if key.ctrl {
                b == a
            } else {
                b.input@ == a.input@.push(c) && b == (App { input: b.input, ..a })
            },
            _ => r == AppAction::NoOp && b == a,
        })
    }

    /// What `handle_filter_input` does: `a` before, `b` after, `r` the action.
    pub open spec fn filter_step(a: App, key: KeyEvent, b: App, r: AppAction) -> bool {
        &&& (r == AppAction::NoOp)
        &&& (match key.code {
            KeyCode::Esc => b.input@.len() == 0
                && b == (App { input: b.input, input_mode: InputMode::Normal, ..a }),
            KeyCode::Enter => b.input@.len() == 0
                && b == (App { input: b.input, input_mode: InputMode::Normal, ..a }),
            KeyCode::Backspace => if a.input@.len() > 0 {
                &&& b.input@ == popped(a.input@)
                &&& opt_view(b.filter_query) == query_of(popped(a.input@))
                &&& b == (App { input: b.input, filter_query: b.filter_query, ..a })
            } else {
                b == a
            },
            KeyCode::Char(c) => if key.ctrl {
                b == a
            } else {
                &&& b.input@ == a.input@.push(c)
                &&& opt_view(b.filter_query) == query_of(a.input@.push(c))
                &&& b == (App { input: b.input, filter_query: b.filter_query, ..a })
            },
            _ => b == a,
        })
    }

    /// What `handle_search_input` does: `a` before, `b` after, `r` the action.
    pub open spec fn search_step(a: App, key: KeyEvent, b: App, r: AppAction) -> bool {
        &&& (r == AppAction::NoOp)
        &&& (match key.code {
            KeyCode::Esc => b.input@.len() == 0
                && b == (App { input: b.input, input_mode: InputMode::Normal, ..a }),
            KeyCode::Enter => b.input@.len() == 0
                && b == (App { input: b.input, input_mode: InputMode::Normal, ..a }),
            KeyCode::Backspace => if a.input@.len() > 0 {
                &&& b.input@ == popped(a.input@)
                &&& opt_view(b.search_query) == query_of(popped(a.input@))
                &&& b.search_index == 0
                &&& b.search_matches@ == b.matches_spec()
                &&& b == (App {
                    input: b.input,
                    search_query: b.search_query,
                    search_index: 0,
                    search_matches: b.search_matches,
                    ..a
                })
            } else {
                b == a
            },
            KeyCode::Char(c) => if key.ctrl {
                b == a
            } else {
                &&& b.input@ == a.input@.push(c)
                &&& opt_view(b.search_query) == query_of(a.input@.push(c))
                &&& b.search_index == 0
                &&& b.search_matches@ == b.matches_spec()
                &&& b == (App {
                    input: b.input,
                    search_query: b.search_query,
                    search_index: 0,
                    search_matches: b.search_matches,
                    ..a
                })
            },
            _ => b == a,
        })
    }

    /// What `handle_input_key` does: `a` before, `b` after, `r` the action.
    pub open spec fn input_step(a: App, key: KeyEvent, b: App, r: AppAction) -> bool {
        &&& (match key.code {
            KeyCode::Esc => r == AppAction::NoOp && b.processes@.len() == a.processes@.len()
                && (forall|i: int| 0 <= i < a.processes@.len() ==> !(#[trigger] b.processes@[i]).input_active)
                && (a.input_mode == InputMode::Input ==> b.input_mode == InputMode::Normal
                    && b.input_buffer@.len() == 0)
                && (a.input_mode != InputMode::Input ==> b.input_mode == a.input_mode),
            KeyCode::Enter => (r matches AppAction::SendInputText(id, t) && id == a.selected
                && t@ == a.input_buffer@) && b.input_buffer@.len() == 0
                && b == (App { input_buffer: b.input_buffer, ..a }),
            KeyCode::Backspace => r == AppAction::NoOp && b.input_buffer@ == popped(a.input_buffer@)
                && b == (App { input_buffer: b.input_buffer, ..a }),
            KeyCode::Char(c) => if key.ctrl && control_of(c) is Some {
                (r matches AppAction::SendInputBytes(id, b) && id == a.selected && b@ == seq![control_of(c)->0])
                    && b == a
            } else {
                r == AppAction::NoOp && b.input_buffer@ == a.input_buffer@.push(c)
                    && b == (App { input_buffer: b.input_buffer, ..a })
            },
            _ => r == AppAction::NoOp && b == a,
        })
    }

    /// Typing a group name: Enter asks to restart the group typed (if any), Esc
    /// gives up; both go back to navigation.
    pub fn handle_group_input(&mut self, key: KeyEvent) -> (r: AppAction)
        ensures
            Self::group_step(*old(self), key, *final(self), r),
    {
        match key.code {
            KeyCode::Esc => {
                self.input_mode = InputMode::Normal;
                self.input = String::new();
                AppAction::NoOp
            },
            KeyCode::Enter => {
                let q = query(&self.input);
                self.input = String::new();
                self.input_mode = InputMode::Normal;
                match q {
                    Some(g) => AppAction::RestartGroup(g),
                    None => AppAction::NoOp,
                }
            },
            KeyCode::Backspace => {
                pop_char(&mut self.input);
                AppAction::NoOp
            },
            KeyCode::Char(c) => {
                if key.ctrl {
                    return AppAction::NoOp;
                }
                push_char(&mut self.input, c);
                AppAction::NoOp
            },
            _ => AppAction::NoOp,
        }
    }

    /// Typing a filter: the filter follows what is typed.
    pub fn handle_filter_input(&mut self, key: KeyEvent) -> (r: AppAction)
        ensures
            Self::filter_step(*old(self), key, *final(self), r),
    {
        match key.code {
            KeyCode::Esc => {
                self.input_mode = InputMode::Normal;
                self.input = String::new();
            },
            KeyCode::Enter => {
                self.input_mode = InputMode::Normal;
                self.input = String::new();
            },
            KeyCode::Backspace => {
                if pop_char(&mut self.input).is_some() {
                    self.filter_query = query(&self.input);
                }
            },
            KeyCode::Char(c) => {
                if !key.ctrl {
                    push_char(&mut self.input, c);
                    self.filter_query = query(&self.input);
                }
            },
            _ => {},
        }
        AppAction::NoOp
    }

    /// Typing a search: the search follows what is typed, and its matches are
    /// recomputed.
    pub fn handle_search_input(&mut self, key: KeyEvent) -> (r: AppAction)
        ensures
            Self::search_step(*old(self), key, *final(self), r),
    {
        match key.code {
            KeyCode::Esc => {
                self.input_mode = InputMode::Normal;
                self.input = String::new();
            },
            KeyCode::Enter => {
                self.input_mode = InputMode::Normal;
                self.input = String::new();
            },
            KeyCode::Backspace => {
                if pop_char(&mut self.input).is_some() {
                    self.search_query = query(&self.input);
                    self.update_search_matches();
                }
            },
            KeyCode::Char(c) => {
                if !key.ctrl {
                    push_char(&mut self.input, c);
                    self.search_query = query(&self.input);
                    self.update_search_matches();
                }
            },
            _ => {},
        }
        AppAction::NoOp
    }

    /// Typing for the selected process's stdin: Enter sends the line, Ctrl with a
    /// letter sends its control byte, Esc leaves.
    pub fn handle_input_key(&mut self, key: KeyEvent) -> (r: AppAction)
        ensures
            Self::input_step(*old(self), key, *final(self), r),
    {
        match key.code {
            KeyCode::Esc => {
                self.exit_input_mode();
                AppAction::NoOp
            },
            KeyCode::Enter => {
                let payload = copy_string(&self.input_buffer);
                self.input_buffer = String::new();
                AppAction::SendInputText(self.selected, payload)
            },
            KeyCode::Backspace => {
                pop_char(&mut self.input_buffer);
                AppAction::NoOp
            },
            KeyCode::Char(c) => {
                if key.ctrl {
                    if let Some(b) = control_byte(c) {
                        let mut bytes: Vec<u8> = Vec::new();
                        bytes.push(b);
                        assert(bytes@ =~= seq![b]);
                        return AppAction::SendInputBytes(self.selected, bytes);
                    }
                }
                push_char(&mut self.input_buffer, c);
                AppAction::NoOp
            },
            _ => AppAction::NoOp,
        }
    }
}

impl App {
    /// The text `F`, `/` or `g` puts in the prompt.
    pub open spec fn prompt_of(q: Option<String>) -> Seq<char> {
        match q {
            Some(s) => s@,
            None => seq![],
        }
    }

    /// What `handle_normal_input` does: `a` before, `b` after, `r` the action.
    /// Moving the selection, switching views, searching and scrolling are stated
    /// by their result on the selection and the mode; the rest in full.
    pub open spec fn normal_step(a: App, key: KeyEvent, b: App, r: AppAction) -> bool {
        match key.code {
            KeyCode::Char('q') => r == AppAction::Quit && b == (App { should_quit: true, ..a }),
            KeyCode::Char('c') if key.ctrl => r == AppAction::CopySelection && b == a,
            KeyCode::Up => r == AppAction::NoOp && if a.selected > 0 {
                b.selected == a.selected - 1 && b.selection_scope is None && !b.selection_active
                    && b.input_mode != InputMode::Input
            } else {
                b == a
            },
            KeyCode::Down => r == AppAction::NoOp && if a.selected + 1 < a.processes@.len() {
                b.selected == a.selected + 1 && b.selection_scope is None && !b.selection_active
                    && b.input_mode != InputMode::Input
            } else {
                b == a
            },
            KeyCode::Tab => r == AppAction::NoOp && if a.processes@.len() > 0 {
                b.selected == (a.selected + 1) % (a.processes@.len() as int) && b.selection_scope is None
                    && !b.selection_active && b.input_mode != InputMode::Input
            } else {
                b == a
            },
            KeyCode::Char('f') => r == AppAction::NoOp && b.selected == a.selected && b.timeline_view == a.timeline_view,
            KeyCode::Char('F') => r == AppAction::NoOp && b.input@ == Self::prompt_of(a.filter_query)
                && b == (App { input_mode: InputMode::Filter, input: b.input, ..a }),
            KeyCode::Char('j') => r == AppAction::NoOp && b == (App { json_formatting: !a.json_formatting, ..a }),
            KeyCode::Enter => r == AppAction::NoOp && if a.input_enabled {
                b.input_mode == InputMode::Input && b.input_buffer@.len() == 0 && b.selected == a.selected
            } else {
                b == a
            },
            KeyCode::Char('t') => r == AppAction::NoOp && b.timeline_view == !a.timeline_view && b.selected == a.selected
                && b.selection_scope is None && b.input_mode != InputMode::Input,
            KeyCode::Char('a') => r == AppAction::NoOp && b == (App { strip_ansi: !a.strip_ansi, ..a }),
            KeyCode::Char('e') => r == AppAction::Export(a.selected) && b == a,
            KeyCode::Char('/') => r == AppAction::NoOp && b.input@ == Self::prompt_of(a.search_query)
                && b == (App { input_mode: InputMode::Search, input: b.input, ..a }),
            KeyCode::Char('n') => r == AppAction::NoOp && b.search_matches == a.search_matches && b.selected == a.selected,
            KeyCode::Char('N') => r == AppAction::NoOp && b.search_matches == a.search_matches && b.selected == a.selected,
            KeyCode::Char('r') => r == AppAction::Restart(a.selected) && b == a,
            KeyCode::Char('R') => (r matches AppAction::RestartGroup(g) && g@ == "all"@) && b == a,
            KeyCode::Char('g') => r == AppAction::NoOp && b == (App { input_mode: InputMode::Group, input: b.input, ..a })
                && b.input@ == if a.has_selected() && a.selected_state().spec.tags@.len() > 0 {
                    a.selected_state().spec.tags@[0]@
                } else {
                    seq![]
                },
            KeyCode::Char('?') => r == AppAction::NoOp && b == (App { show_help: !a.show_help, ..a }),
            KeyCode::Char('k') => r == AppAction::Kill(a.selected) && b == a,
            KeyCode::PageUp | KeyCode::PageDown | KeyCode::Home => r == AppAction::NoOp && b.selected == a.selected
                && b.timeline_view == a.timeline_view && b.selection_scope is None,
            KeyCode::End => r == AppAction::NoOp && b.selected == a.selected && b.timeline_view == a.timeline_view
                && (a.timeline_view ==> b.timeline_follow)
                && (!a.timeline_view && a.has_selected() ==> b.selected_state().follow),
            _ => r == AppAction::NoOp && b == a,
        }
    }

    /// Whether a key moves the selection, switches or scrolls the view.
    pub open spec fn is_navigation(code: KeyCode) -> bool {
        code is Up || code is Down || code is Tab || code == KeyCode::Char('f') || code is Enter
            || code == KeyCode::Char('t') || code == KeyCode::Char('n') || code == KeyCode::Char('N')
            || code is PageUp || code is PageDown || code is Home || code is End
    }

    #[verifier::rlimit(60)]
    fn navigate(&mut self, key: KeyEvent) -> (r: AppAction)
        requires
            Self::is_navigation(key.code),
        ensures
            Self::normal_step(*old(self), key, *final(self), r),
    {
        match key.code {
            KeyCode::Up => {
                if self.selected > 0 {
                    self.exit_input_mode();
                    self.clear_selection();
                    self.selected = self.selected - 1;
                    self.refresh_selected();
                }
                AppAction::NoOp
            },
            KeyCode::Down => {
                let n = self.processes.len();
                if self.selected < n && self.selected + 1 < n {
                    self.exit_input_mode();
                    self.clear_selection();
                    self.selected = self.selected + 1;
                    self.refresh_selected();
                }
                AppAction::NoOp
            },
            KeyCode::Tab => {
                if self.processes.len() > 0 {
                    self.exit_input_mode();
                    self.clear_selection();
                    self.selected = ((self.selected as u128 + 1) % (self.processes.len() as u128)) as usize;
                    self.refresh_selected();
                }
                AppAction::NoOp
            },
            KeyCode::Char('f') => {
                self.toggle_follow();
                AppAction::NoOp
            },
            KeyCode::Enter => {
                if self.input_enabled {
                    self.enter_input_mode();
                }
                AppAction::NoOp
            },
            KeyCode::Char('t') => {
                self.exit_input_mode();
                self.clear_selection();
                self.timeline_view = !self.timeline_view;
                self.update_search_matches();
                if self.is_following() {
                    self.ensure_follow();
                }
                AppAction::NoOp
            },
            KeyCode::Char('n') => {
                self.jump_search(true);
                AppAction::NoOp
            },
            KeyCode::Char('N') => {
                self.jump_search(false);
                AppAction::NoOp
            },
            KeyCode::PageUp => {
                let page = if self.log_view_height == 0 { 1 } else { self.log_view_height };
                self.scroll_up(page);
                AppAction::NoOp
            },
            KeyCode::PageDown => {
                let page = if self.log_view_height == 0 { 1 } else { self.log_view_height };
                self.scroll_down(page);
                AppAction::NoOp
            },
            KeyCode::Home => {
                self.scroll_to_top();
                AppAction::NoOp
            },
            KeyCode::End => {
                self.ensure_follow();
                if self.timeline_view {
                    self.timeline_follow = true;
                } else if self.selected < self.processes.len() {
                    let sel = self.selected;
                    self.processes[sel].follow = true;
                }
                AppAction::NoOp
            },
            _ => AppAction::NoOp,
        }
    }

    /// Navigation keys.
    #[verifier::rlimit(60)]
    pub fn handle_normal_input(&mut self, key: KeyEvent) -> (r: AppAction)
        ensures
            Self::normal_step(*old(self), key, *final(self), r),
    {
        if Self::navigation_key(key.code) {
            return self.navigate(key);
        }
        match key.code {
            KeyCode::Char('q') => {
                self.should_quit = true;
                AppAction::Quit
            },
            KeyCode::Char('c') if key.ctrl => AppAction::CopySelection,
            KeyCode::Char('F') => {
                self.input_mode = InputMode::Filter;
                self.input = match &self.filter_query {
                    Some(q) => copy_string(q),
                    None => String::new(),
                };
                AppAction::NoOp
            },
            KeyCode::Char('j') => {
                self.json_formatting = !self.json_formatting;
                AppAction::NoOp
            },
            KeyCode::Char('a') => {
                self.strip_ansi = !self.strip_ansi;
                AppAction::NoOp
            },
            KeyCode::Char('e') => AppAction::Export(self.selected),
            KeyCode::Char('/') => {
                self.input_mode = InputMode::Search;
                self.input = match &self.search_query {
                    Some(q) => copy_string(q),
                    None => String::new(),
                };
                AppAction::NoOp
            },
            KeyCode::Char('r') => AppAction::Restart(self.selected),
            KeyCode::Char('R') => {
                proof {
                    reveal_strlit("all");
                }
                let v = chars_of("all");
                AppAction::RestartGroup(crate::text::string_of(v.as_slice()))
            },
            KeyCode::Char('g') => {
                self.input_mode = InputMode::Group;
                self.input = if self.selected < self.processes.len() && self.processes[self.selected].spec.tags.len() > 0 {
                    copy_string(&self.processes[self.selected].spec.tags[0])
                } else {
                    String::new()
                };
                AppAction::NoOp
            },
            KeyCode::Char('?') => {
                self.show_help = !self.show_help;
                AppAction::NoOp
            },
            KeyCode::Char('k') => AppAction::Kill(self.selected),
            _ => AppAction::NoOp,
        }
    }

    fn navigation_key(code: KeyCode) -> (r: bool)
        ensures
            r == Self::is_navigation(code),
    {
        match code {
            KeyCode::Up | KeyCode::Down | KeyCode::Tab | KeyCode::Enter | KeyCode::PageUp | KeyCode::PageDown
            | KeyCode::Home | KeyCode::End => true,
            KeyCode::Char(c) => c == 'f' || c == 't' || c == 'n' || c == 'N',
            KeyCode::Esc | KeyCode::Backspace | KeyCode::Other => false,
        }
    }

    /// After the selection moved: refresh the search and follow the new
    /// process's output when it follows.
    fn refresh_selected(&mut self)
        ensures
            final(self).selected == old(self).selected,
            final(self).timeline_view == old(self).timeline_view,
            final(self).selection_scope == old(self).selection_scope || final(self).selection_scope is None,
            final(self).selection_active == old(self).selection_active || !final(self).selection_active,
            final(self).input_mode == old(self).input_mode,
    {
        self.update_search_matches();
        if self.selected_following() {
            self.ensure_follow();
        }
    }

    /// Translates a key press according to the input mode.
    pub fn handle_key(&mut self, key: KeyEvent) -> (r: AppAction)
        ensures
            match old(self).input_mode {
                InputMode::Search => Self::search_step(*old(self), key, *final(self), r),
                InputMode::Filter => Self::filter_step(*old(self), key, *final(self), r),
                InputMode::Group => Self::group_step(*old(self), key, *final(self), r),
                InputMode::Input => Self::input_step(*old(self), key, *final(self), r),
                InputMode::Normal => Self::normal_step(*old(self), key, *final(self), r),
            },
    {
        match self.input_mode {
            InputMode::Search => self.handle_search_input(key),
            InputMode::Filter => self.handle_filter_input(key),
            InputMode::Group => self.handle_group_input(key),
            InputMode::Input => self.handle_input_key(key),
            InputMode::Normal => self.handle_normal_input(key),
        }
    }
}

impl App {
    /// The log line under a screen cell, as `log_row_at` finds it.
    pub open spec fn row_at(a: App, row: u16, col: u16) -> Option<usize> {
        match a.log_viewport {
            Some(v) => if v.y <= row < v.y + v.height && v.x <= col < v.x + v.width {
                Some((row - v.y) as usize)
            } else {
                None
            },
            None => None,
        }
    }

    /// Mouse input: a click in the process list selects a process, a click in
    /// the log view starts a selection (and stops following), dragging extends
    /// it, the wheel scrolls by three lines.
    pub fn handle_mouse(&mut self, mouse: MouseEvent) -> (r: AppAction)
        ensures
            r == AppAction::NoOp,
            match mouse.kind {
                MouseKind::LeftDown => if mouse.column < old(self).process_list_width {
                    let row = if mouse.row >= 1 { (mouse.row - 1) as int } else { 0 };
                    (forall|i: int| 0 <= i < old(self).processes@.len() ==> #[trigger] old(self).row_of(i) != row)
                        ==> *final(self) == *old(self)
                } else {
                    match Self::row_at(*old(self), mouse.row, mouse.column) {
                        Some(line) => final(self).selection_start == Some(line) && final(self).selection_end == Some(line)
                            && final(self).selection_active && final(self).selection_scope == Some(
                            if old(self).timeline_view { SelectionScope::Timeline } else { SelectionScope::Process(old(self).selected) },
                        ) && final(self).selected == old(self).selected
                            && (old(self).timeline_view ==> !final(self).timeline_follow),
                        None => *final(self) == *old(self),
                    }
                },
                MouseKind::LeftDrag => if old(self).selection_active && Self::row_at(*old(self), mouse.row, mouse.column) is Some {
                    *final(self) == (App { selection_end: Self::row_at(*old(self), mouse.row, mouse.column), ..*old(self) })
                } else {
                    *final(self) == *old(self)
                },
                MouseKind::LeftUp => *final(self) == (App { selection_active: false, ..*old(self) }),
                MouseKind::ScrollDown | MouseKind::ScrollUp => final(self).selected == old(self).selected
                    && final(self).selection_scope is None,
                MouseKind::Other => *final(self) == *old(self),
            },
    {
        match mouse.kind {
            MouseKind::LeftDown => {
                if mouse.column < self.process_list_width {
                    let row = if mouse.row >= 1 { mouse.row - 1 } else { 0 };
                    if let Some(index) = self.process_index_at_visual_row(row) {
                        self.selected = index;
                        self.update_search_matches();
                    }
                } else if let Some(line) = self.log_row_at(mouse.row, mouse.column) {
                    let scope = self.current_selection_scope();
                    self.freeze_follow_for_selection();
                    self.selection_start = Some(line);
                    self.selection_end = Some(line);
                    self.selection_active = true;
                    self.selection_scope = Some(scope);
                }
            },
            MouseKind::LeftDrag => {
                if self.selection_active {
                    if let Some(line) = self.log_row_at(mouse.row, mouse.column) {
                        self.selection_end = Some(line);
                    }
                }
            },
            MouseKind::LeftUp => {
                self.selection_active = false;
            },
            MouseKind::ScrollDown => self.scroll_down(3),
            MouseKind::ScrollUp => self.scroll_up(3),
            MouseKind::Other => {},
        }
        AppAction::NoOp
    }
}

} // verus!
