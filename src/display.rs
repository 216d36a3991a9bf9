//! Text the runner shows: titles, status markers, and the prefixes of output
//! lines printed without the terminal UI.

use vstd::prelude::*;

use crate::app::App;
use crate::process::ProcessStatus;
use crate::text::{append_str, chars_of, push_char, push_decimal, decimal, string_of};

verus! {

/// The marker of a status in the process list.
pub open spec fn status_mark(status: ProcessStatus, use_symbols: bool) -> char {
    if use_symbols {
        match status {
            ProcessStatus::Idle => '\u{b7}',
            ProcessStatus::Starting => '\u{21bb}',
            ProcessStatus::Running => '\u{25b2}',
            _ => '\u{25a0}',
        }
    } else {
        match status {
            ProcessStatus::Idle => '.',
            ProcessStatus::Starting => 'S',
            ProcessStatus::Running => 'R',
            ProcessStatus::Exited { code } => if code == Some(0i32) { 'E' } else { 'X' },
            ProcessStatus::Failed { .. } => 'F',
        }
    }
}

pub fn status_char(status: &ProcessStatus, use_symbols: bool) -> (r: char)
    ensures
        r == status_mark(*status, use_symbols),
{
    if use_symbols {
        return match status {
            ProcessStatus::Idle => '\u{b7}',
            ProcessStatus::Starting => '\u{21bb}',
            ProcessStatus::Running => '\u{25b2}',
            ProcessStatus::Exited { .. } => '\u{25a0}',
            ProcessStatus::Failed { .. } => '\u{25a0}',
        };
    }
    match status {
        ProcessStatus::Idle => '.',
        ProcessStatus::Starting => 'S',
        ProcessStatus::Running => 'R',
        ProcessStatus::Exited { code } => {
            if *code == Some(0) {
                'E'
            } else {
                'X'
            }
        },
        ProcessStatus::Failed { .. } => 'F',
    }
}

/// The terminal window's title.
pub open spec fn window_title_of(app: App) -> Seq<char> {
    if app.timeline_view {
        "piperack \u{b7} timeline"@
    } else if app.has_selected() {
        "piperack \u{b7} "@ + app.selected_state().spec.name@
    } else {
        "piperack"@
    }
}

pub fn window_title(app: &App) -> (r: String)
    ensures
        r@ == window_title_of(*app),
{
    let mut s = String::new();
    if app.timeline_view {
        append_str(&mut s, "piperack \u{b7} timeline");
        return s;
    }
    match app.selected_process() {
        Some(p) => {
            append_str(&mut s, "piperack \u{b7} ");
            append_str(&mut s, p.spec.name.as_str());
        },
        None => append_str(&mut s, "piperack"),
    }
    s
}

/// `{:?}` of an optional exit code.
pub open spec fn code_debug(code: Option<i32>) -> Seq<char> {
    match code {
        Some(c) => "Some("@ + signed_decimal(c as int) + ")"@,
        None => "None"@,
    }
}

pub open spec fn signed_decimal(v: int) -> Seq<char> {
    if v < 0 {
        seq!['-'] + decimal((-v) as nat)
    } else {
        decimal(v as nat)
    }
}

/// Appends the decimal form of a signed number.
pub(crate) fn push_signed(s: &mut String, v: i32)
    ensures
        final(s)@ == old(s)@ + signed_decimal(v as int),
{
    if v < 0 {
        push_char(s, '-');
        let m: u64 = (0i64 - v as i64) as u64;
        push_decimal(s, m);
        assert(final(s)@ =~= old(s)@ + signed_decimal(v as int));
    } else {
        push_decimal(s, v as u64);
    }
}

/// The title of the log view.
pub open spec fn log_title_of(app: App) -> Seq<char> {
    if app.timeline_view {
        "Timeline"@
    } else if app.has_selected() {
        let p = app.selected_state();
        let state = match p.status {
            ProcessStatus::Running => "running"@,
            ProcessStatus::Exited { code } => "exited "@ + code_debug(code),
            ProcessStatus::Failed { .. } => "failed"@,
            ProcessStatus::Starting => "starting"@,
            ProcessStatus::Idle => "idle"@,
        };
        "Logs - "@ + p.spec.name@ + " ("@ + state + ")"@
    } else {
        "Logs"@
    }
}

pub fn log_title(app: &App) -> (r: String)
    ensures
        r@ == log_title_of(*app),
{
    let mut s = String::new();
    if app.timeline_view {
        append_str(&mut s, "Timeline");
        return s;
    }
    let p = match app.selected_process() {
        Some(p) => p,
        None => {
            append_str(&mut s, "Logs");
            return s;
        },
    };
    append_str(&mut s, "Logs - ");
    append_str(&mut s, p.spec.name.as_str());
    append_str(&mut s, " (");
    let ghost head = s@;
    match &p.status {
        ProcessStatus::Running => append_str(&mut s, "running"),
        ProcessStatus::Exited { code } => {
            append_str(&mut s, "exited ");
            match code {
                Some(c) => {
                    append_str(&mut s, "Some(");
                    push_signed(&mut s, *c);
                    append_str(&mut s, ")");
                },
                None => append_str(&mut s, "None"),
            }
        },
        ProcessStatus::Failed { .. } => append_str(&mut s, "failed"),
        ProcessStatus::Starting => append_str(&mut s, "starting"),
        ProcessStatus::Idle => append_str(&mut s, "idle"),
    }
    append_str(&mut s, ")");
    proof {
        let state = match p.status {
            ProcessStatus::Running => "running"@,
            ProcessStatus::Exited { code } => "exited "@ + code_debug(code),
            ProcessStatus::Failed { .. } => "failed"@,
            ProcessStatus::Starting => "starting"@,
            ProcessStatus::Idle => "idle"@,
        };
        assert(s@ =~= head + state + ")"@);
        assert(log_title_of(*app) =~= head + state + ")"@);
    }
    s
}

/// The number of bytes of a character in UTF-8.
pub open spec fn utf8_width(c: char) -> nat {
    if (c as u32) < 0x80 {
        1
    } else if (c as u32) < 0x800 {
        2
    } else if (c as u32) < 0x10000 {
        3
    } else {
        4
    }
}

/// The number of bytes of a text in UTF-8.
pub open spec fn utf8_len(s: Seq<char>) -> nat
    decreases s.len(),
{
    if s.len() == 0 {
        0
    } else {
        utf8_len(s.drop_last()) + utf8_width(s.last())
    }
}

fn char_width(c: char) -> (r: usize)
    ensures
        r == utf8_width(c),
{
    if (c as u32) < 0x80 {
        1
    } else if (c as u32) < 0x800 {
        2
    } else if (c as u32) < 0x10000 {
        3
    } else {
        4
    }
}

/// A text cut to fit `max` bytes: unchanged when it fits, else its first
/// `max - 1` characters and `~`; empty for `max == 0`.
pub open spec fn truncated(s: Seq<char>, max: nat) -> Seq<char> {
    if max == 0 {
        seq![]
    } else if utf8_len(s) <= max {
        s
    } else {
        let k = if s.len() < max - 1 { s.len() as int } else { max - 1 };
        s.subrange(0, k).push('~')
    }
}

pub fn truncate(text: &str, max: usize) -> (r: String)
    ensures
        r@ == truncated(text@, max as nat),
{
    if max == 0 {
        return String::new();
    }
    let v = chars_of(text);
    let mut bytes: usize = 0;
    let mut i: usize = 0;
    let mut fits = true;
    while i < v.len()
        invariant
            i <= v@.len(),
            fits == (utf8_len(v@.subrange(0, i as int)) <= max),
            fits ==> bytes == utf8_len(v@.subrange(0, i as int)),
        decreases v@.len() - i,
    {
        proof {
            assert(v@.subrange(0, i + 1).drop_last() =~= v@.subrange(0, i as int));
        }
        if fits {
            let w = char_width(v[i]);
            if w > max - bytes {
                fits = false;
            } else {
                bytes = bytes + w;
            }
        }
        i += 1;
    }
    assert(v@.subrange(0, v@.len() as int) =~= v@);
    if fits {
        return string_of(v.as_slice());
    }
    let k = if v.len() < max - 1 { v.len() } else { max - 1 };
    let mut out: Vec<char> = Vec::new();
    let mut j: usize = 0;
    while j < k
        invariant
            k <= v@.len(),
            j <= k,
            out@ == v@.subrange(0, j as int),
        decreases k - j,
    {
        out.push(v[j]);
        j += 1;
    }
    out.push('~');
    string_of(out.as_slice())
}

pub open spec fn on_off(b: bool) -> Seq<char> {
    if b {
        "on"@
    } else {
        "off"@
    }
}

/// The status word of the status line.
pub open spec fn status_word(status: ProcessStatus) -> Seq<char> {
    match status {
        ProcessStatus::Idle => "idle"@,
        ProcessStatus::Starting => "starting"@,
        ProcessStatus::Running => "running"@,
        ProcessStatus::Exited { code } => "exited ("@ + match code {
            Some(c) => signed_decimal(c as int),
            None => "-"@,
        } + ")"@,
        ProcessStatus::Failed { error } => "failed ("@ + error@ + ")"@,
    }
}

/// The status line at `now` (milliseconds on the clock `started_at` uses).
pub open spec fn status_line_of(app: App, now: u64) -> Seq<char> {
    if app.timeline_view {
        "Timeline | lines: "@ + decimal(app.timeline@.len()) + " | follow: "@ + on_off(app.timeline_follow)
            + " | ansi: "@ + on_off(!app.strip_ansi)
    } else if !app.has_selected() {
        "No processes"@
    } else {
        let p = app.selected_state();
        p.spec.name@ + " | status: "@ + status_word(p.status) + " | pid: "@ + match p.pid {
            Some(pid) => decimal(pid as nat),
            None => "-"@,
        } + " | lines: "@ + decimal(p.logs@.len()) + " | elapsed: "@ + match p.started_at {
            Some(t) => crate::app::duration_text((if now >= t { (now - t) as nat } else { 0 }) / 1000),
            None => "-"@,
        } + " | follow: "@ + on_off(p.follow) + " | ansi: "@ + on_off(!app.strip_ansi) + " | input: "@ + on_off(
            p.input_active,
        )
    }
}

fn push_on_off(s: &mut String, b: bool)
    ensures
        final(s)@ == old(s)@ + on_off(b),
{
    if b {
        append_str(s, "on");
    } else {
        append_str(s, "off");
    }
}

impl App {
    /// The status line shown under the log view at `now`.
    pub fn status_line(&self, now: u64) -> (r: String)
        ensures
            r@ == status_line_of(*self, now),
    {
        let mut s = String::new();
        if self.timeline_view {
            append_str(&mut s, "Timeline | lines: ");
            push_decimal(&mut s, self.timeline.len() as u64);
            append_str(&mut s, " | follow: ");
            push_on_off(&mut s, self.timeline_follow);
            append_str(&mut s, " | ansi: ");
            push_on_off(&mut s, !self.strip_ansi);
            return s;
        }
        let p = match self.selected_process() {
            Some(p) => p,
            None => {
                append_str(&mut s, "No processes");
                return s;
            },
        };
        append_str(&mut s, p.spec.name.as_str());
        append_str(&mut s, " | status: ");
        let ghost a = s@;
        match &p.status {
            ProcessStatus::Idle => append_str(&mut s, "idle"),
            ProcessStatus::Starting => append_str(&mut s, "starting"),
            ProcessStatus::Running => append_str(&mut s, "running"),
            ProcessStatus::Exited { code } => {
                append_str(&mut s, "exited (");
                match code {
                    Some(c) => push_signed(&mut s, *c),
                    None => append_str(&mut s, "-"),
                }
                append_str(&mut s, ")");
            },
            ProcessStatus::Failed { error } => {
                append_str(&mut s, "failed (");
                append_str(&mut s, error.as_str());
                append_str(&mut s, ")");
            },
        }
        assert(s@ =~= a + status_word(p.status));
        append_str(&mut s, " | pid: ");
        let ghost b = s@;
        match p.pid {
            Some(pid) => push_decimal(&mut s, pid as u64),
            None => append_str(&mut s, "-"),
        }
        append_str(&mut s, " | lines: ");
        push_decimal(&mut s, p.logs.len() as u64);
        append_str(&mut s, " | elapsed: ");
        let ghost c = s@;
        match p.started_at {
            Some(t) => {
                let ms = if now >= t { now - t } else { 0 };
                let d = crate::app::format_duration(ms / 1000);
                append_str(&mut s, d.as_str());
            },
            None => append_str(&mut s, "-"),
        }
        append_str(&mut s, " | follow: ");
        push_on_off(&mut s, p.follow);
        append_str(&mut s, " | ansi: ");
        push_on_off(&mut s, !self.strip_ansi);
        append_str(&mut s, " | input: ");
        push_on_off(&mut s, p.input_active);
        s
    }
}

} // verus!
