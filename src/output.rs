//! Bounded buffers of process output: one per process, and one global timeline.

use vstd::prelude::*;
use vstd::std_specs::iter::IteratorSpec;
use std::collections::VecDeque;

use crate::events::StreamKind;

verus! {

broadcast use vstd::std_specs::vecdeque::group_vec_dequeue_axioms;

/// A single line of output from a process.
#[derive(Debug, Clone)]
pub struct LogLine {
    pub text: String,
    pub stream: StreamKind,
}

/// An entry of the global timeline.
#[derive(Debug, Clone)]
pub struct TimelineEntry {
    pub text: String,
    pub process_id: usize,
}

/// The last `n` elements of `s` (all of them when there are fewer).
pub open spec fn keep_last<T>(s: Seq<T>, n: nat) -> Seq<T> {
    if s.len() <= n {
        s
    } else {
        s.subrange(s.len() - n, s.len() as int)
    }
}

/// A buffer that keeps the most recent `max_lines` lines.
#[derive(Debug, Clone)]
pub struct LogBuffer {
    max_lines: usize,
    lines: VecDeque<LogLine>,
}

impl View for LogBuffer {
    type V = Seq<LogLine>;

    closed spec fn view(&self) -> Seq<LogLine> {
        self.lines@
    }
}

impl LogBuffer {
    pub closed spec fn capacity(&self) -> nat {
        self.max_lines as nat
    }

    pub closed spec fn wf(&self) -> bool {
        self.lines@.len() <= self.max_lines
    }

    /// Creates an empty buffer that keeps at most `max_lines` lines.
    pub fn new(max_lines: usize) -> (r: Self)
        ensures
            r.wf(),
            r@ == Seq::<LogLine>::empty(),
            r.capacity() == max_lines,
    {
        LogBuffer { max_lines, lines: VecDeque::new() }
    }

    /// Appends a line, dropping the oldest lines beyond the capacity; returns
    /// whether a line was dropped.
    pub fn push(&mut self, line: LogLine) -> (dropped: bool)
        requires
            old(self).wf(),
        ensures
            final(self).wf(),
            final(self).capacity() == old(self).capacity(),
            final(self)@ == keep_last(old(self)@.push(line), old(self).capacity()),
            dropped == (old(self)@.len() + 1 > old(self).capacity()),
    {
        let mut dropped = false;
        let ghost full = self.lines@.push(line);
        self.lines.push_back(line);
        while self.lines.len() > self.max_lines
            invariant
                self.max_lines == old(self).max_lines,
                self.lines@.len() <= full.len(),
                self.lines@.len() < full.len() ==> self.max_lines <= self.lines@.len(),
                self.lines@ == full.subrange(full.len() - self.lines@.len(), full.len() as int),
                full.len() == old(self)@.len() + 1,
                dropped == (self.lines@.len() < full.len()),
            decreases self.lines@.len(),
        {
            self.lines.pop_front();
            dropped = true;
        }
        proof {
            if full.len() <= self.max_lines {
                assert(self.lines@ =~= full);
            }
        }
        dropped
    }

    /// The number of lines held.
    pub fn len(&self) -> (r: usize)
        ensures
            r == self@.len(),
    {
        self.lines.len()
    }

    /// The line at `i`, counting from the oldest.
    pub fn get(&self, i: usize) -> (r: &LogLine)
        requires
            i < self@.len(),
        ensures
            *r == self@[i as int],
    {
        &self.lines[i]
    }

    /// The lines, oldest first.
    pub fn iter(&self) -> (r: std::collections::vec_deque::Iter<'_, LogLine>)
        ensures
            r.remaining() == self@.as_ref(),
    {
        self.lines.iter()
    }
}

/// A buffer that keeps the most recent `max_lines` timeline entries.
#[derive(Debug, Clone)]
pub struct TimelineBuffer {
    max_lines: usize,
    entries: VecDeque<TimelineEntry>,
}

impl View for TimelineBuffer {
    type V = Seq<TimelineEntry>;

    closed spec fn view(&self) -> Seq<TimelineEntry> {
        self.entries@
    }
}

impl TimelineBuffer {
    pub closed spec fn capacity(&self) -> nat {
        self.max_lines as nat
    }

    pub closed spec fn wf(&self) -> bool {
        self.entries@.len() <= self.max_lines
    }

    /// Creates an empty timeline that keeps at most `max_lines` entries.
    pub fn new(max_lines: usize) -> (r: Self)
        ensures
            r.wf(),
            r@ == Seq::<TimelineEntry>::empty(),
            r.capacity() == max_lines,
    {
        TimelineBuffer { max_lines, entries: VecDeque::new() }
    }

    /// Appends an entry, dropping the oldest entries beyond the capacity; returns
    /// whether an entry was dropped.
    pub fn push(&mut self, entry: TimelineEntry) -> (dropped: bool)
        requires
            old(self).wf(),
        ensures
            final(self).wf(),
            final(self).capacity() == old(self).capacity(),
            final(self)@ == keep_last(old(self)@.push(entry), old(self).capacity()),
            dropped == (old(self)@.len() + 1 > old(self).capacity()),
    {
        let mut dropped = false;
        let ghost full = self.entries@.push(entry);
        self.entries.push_back(entry);
        while self.entries.len() > self.max_lines
            invariant
                self.max_lines == old(self).max_lines,
                self.entries@.len() <= full.len(),
                self.entries@.len() < full.len() ==> self.max_lines <= self.entries@.len(),
                self.entries@ == full.subrange(full.len() - self.entries@.len(), full.len() as int),
                full.len() == old(self)@.len() + 1,
                dropped == (self.entries@.len() < full.len()),
            decreases self.entries@.len(),
        {
            self.entries.pop_front();
            dropped = true;
        }
        proof {
            if full.len() <= self.max_lines {
                assert(self.entries@ =~= full);
            }
        }
        dropped
    }

    /// The number of entries held.
    pub fn len(&self) -> (r: usize)
        ensures
            r == self@.len(),
    {
        self.entries.len()
    }

    /// The entry at `i`, counting from the oldest.
    pub fn get(&self, i: usize) -> (r: &TimelineEntry)
        requires
            i < self@.len(),
        ensures
            *r == self@[i as int],
    {
        &self.entries[i]
    }

    /// The entries, oldest first.
    pub fn iter(&self) -> (r: std::collections::vec_deque::Iter<'_, TimelineEntry>)
        ensures
            r.remaining() == self@.as_ref(),
    {
        self.entries.iter()
    }
}

/// What `strip_ansi_escapes::strip_str` makes of a text.
pub uninterp spec fn ansi_stripped(s: Seq<char>) -> Seq<char>;

/// Relies on `strip_ansi_escapes::strip_str`: removes ANSI escape sequences; the
/// result depends on the text alone.
#[verifier::external_body]
fn strip_ansi(text: &str) -> (r: String)
    ensures
        r@ == ansi_stripped(text@),
{
    strip_ansi_escapes::strip_str(text)
}

/// The text as displayed: without ANSI escape sequences when `strip` is set,
/// unchanged otherwise.
pub fn sanitize_text(text: &str, strip: bool) -> (r: String)
    ensures
        r@ == (if strip {
            ansi_stripped(text@)
        } else {
            text@
        }),
{
    if !strip {
        let v = crate::text::chars_of(text);
        return crate::text::string_of(v.as_slice());
    }
    strip_ansi(text)
}

} // verus!
