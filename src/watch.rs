//! Decisions of the file watcher: which ignore patterns a spec yields, where its
//! watch paths resolve, which change events matter, and when a burst of changes
//! has settled into one restart request.

use vstd::prelude::*;

use crate::text::{chars_of, string_of};

verus! {

pub open spec fn is_glob_char(c: char) -> bool {
    c == '*' || c == '?' || c == '['
}

pub open spec fn has_glob(p: Seq<char>) -> bool {
    exists|i: int| 0 <= i < p.len() && is_glob_char(#[trigger] p[i])
}

/// `p` without its trailing slashes.
pub open spec fn trim_slashes(p: Seq<char>) -> Seq<char>
    decreases p.len(),
{
    if p.len() > 0 && p.last() == '/' {
        trim_slashes(p.drop_last())
    } else {
        p
    }
}

/// The glob patterns an ignore pattern stands for: a glob as it is; a plain
/// path `X` (trailing slashes dropped) as `X` and everything under it, `X/**`.
pub open spec fn expanded(p: Seq<char>) -> Seq<Seq<char>> {
    if has_glob(p) {
        seq![p]
    } else {
        seq![trim_slashes(p), trim_slashes(p) + "/**"@]
    }
}

/// Expands an ignore pattern into glob patterns.
pub fn expand_pattern(pattern: &str) -> (r: Vec<String>)
    ensures
        r@.len() == expanded(pattern@).len(),
        forall|i: int| 0 <= i < r@.len() ==> #[trigger] r@[i]@ == expanded(pattern@)[i],
{
    let p = chars_of(pattern);
    let mut glob = false;
    let mut i: usize = 0;
    while i < p.len()
        invariant
            p@ == pattern@,
            i <= p@.len(),
            glob == exists|k: int| 0 <= k < i && is_glob_char(#[trigger] p@[k]),
        decreases p@.len() - i,
    {
        if p[i] == '*' || p[i] == '?' || p[i] == '[' {
            glob = true;
        }
        i += 1;
    }
    let mut r: Vec<String> = Vec::new();
    if glob {
        r.push(string_of(p.as_slice()));
        return r;
    }
    let mut end: usize = p.len();
    assert(p@.subrange(0, end as int) =~= p@);
    while end > 0 && p[end - 1] == '/'
        invariant
            p@ == pattern@,
            end <= p@.len(),
            trim_slashes(p@.subrange(0, end as int)) == trim_slashes(p@),
        decreases end,
    {
        assert(p@.subrange(0, end as int).drop_last() =~= p@.subrange(0, end - 1));
        end -= 1;
    }
    let mut trimmed: Vec<char> = Vec::new();
    let mut k: usize = 0;
    while k < end
        invariant
            end <= p@.len(),
            k <= end,
            trimmed@ == p@.subrange(0, k as int),
        decreases end - k,
    {
        trimmed.push(p[k]);
        k += 1;
    }
    proof {
        assert(trim_slashes(p@.subrange(0, end as int)) == p@.subrange(0, end as int));
    }
    let first = string_of(trimmed.as_slice());
    let mut recursive = trimmed;
    proof {
        reveal_strlit("/**");
    }
    recursive.push('/');
    recursive.push('*');
    recursive.push('*');
    let second = string_of(recursive.as_slice());
    r.push(first);
    r.push(second);
    proof {
        assert(second@ =~= trim_slashes(pattern@) + "/**"@);
    }
    r
}

/// Where a watch path lies, seen from `base`: an absolute path as it is, a
/// relative one joined onto `base`.
pub open spec fn joined(base: Seq<char>, path: Seq<char>) -> Seq<char> {
    if path.len() > 0 && path[0] == '/' {
        path
    } else if base.len() == 0 || base.last() == '/' {
        base + path
    } else {
        base + seq!['/'] + path
    }
}

/// Resolves the watch paths against `base`.
pub fn resolve_watch_paths(base: &str, paths: &Vec<String>) -> (r: Vec<String>)
    ensures
        r@.len() == paths@.len(),
        forall|i: int| 0 <= i < r@.len() ==> #[trigger] r@[i]@ == joined(base@, paths@[i]@),
{
    let b = chars_of(base);
    let mut r: Vec<String> = Vec::new();
    let mut i: usize = 0;
    while i < paths.len()
        invariant
            b@ == base@,
            i <= paths@.len(),
            r@.len() == i,
            forall|k: int| 0 <= k < i ==> #[trigger] r@[k]@ == joined(base@, paths@[k]@),
        decreases paths@.len() - i,
    {
        let p = chars_of(paths[i].as_str());
        let mut out: Vec<char> = Vec::new();
        if p.len() > 0 && p[0] == '/' {
            out = p;
        } else {
            let mut k: usize = 0;
            while k < b.len()
                invariant
                    k <= b@.len(),
                    out@ == b@.subrange(0, k as int),
                decreases b@.len() - k,
            {
                out.push(b[k]);
                k += 1;
            }
            if b.len() > 0 && b[b.len() - 1] != '/' {
                out.push('/');
            }
            let ghost head = out@;
            let mut k: usize = 0;
            while k < p.len()
                invariant
                    k <= p@.len(),
                    out@ == head + p@.subrange(0, k as int),
                decreases p@.len() - k,
            {
                out.push(p[k]);
                k += 1;
            }
            proof {
                assert(b@.subrange(0, b@.len() as int) =~= b@);
                assert(p@.subrange(0, p@.len() as int) =~= p@);
                assert(out@ =~= joined(base@, paths@[i as int]@));
            }
        }
        r.push(string_of(out.as_slice()));
        i += 1;
    }
    r
}

/// Whether a change event matters: an event the watcher reported as an error,
/// or one without paths, does; otherwise one with at least one path that is not
/// ignored. `ignored[i]` tells whether the event's `i`-th path is ignored.
pub open spec fn relevant(ok: bool, ignored: Seq<bool>) -> bool {
    !ok || ignored.len() == 0 || exists|i: int| 0 <= i < ignored.len() && !#[trigger] ignored[i]
}

pub fn is_relevant(ok: bool, ignored: &Vec<bool>) -> (r: bool)
    ensures
        r == relevant(ok, ignored@),
{
    if !ok || ignored.len() == 0 {
        return true;
    }
    let mut i: usize = 0;
    while i < ignored.len()
        invariant
            i <= ignored@.len(),
            forall|k: int| 0 <= k < i ==> #[trigger] ignored@[k],
        decreases ignored@.len() - i,
    {
        if !ignored[i] {
            return true;
        }
        i += 1;
    }
    false
}

/// The shortest debounce window, in milliseconds.
pub const MIN_DEBOUNCE_MS: u64 = 50;

/// One input of the debouncer: `(is_tick, relevant, time)`. A tick is the
/// watcher waking up when its wait runs out; the other inputs are change events.
pub type WatchInput = (bool, bool, int);

/// One debouncer step from `last` (the time of the latest relevant change of the
/// burst in progress, if any): the new state and whether a restart is requested.
pub open spec fn debounce_step(window: int, last: Option<int>, x: WatchInput) -> (Option<int>, bool) {
    if !x.0 {
        (if x.1 {
            Some(x.2)
        } else {
            last
        }, false)
    } else {
        match last {
            Some(l) => if x.2 >= l + window {
                (None, true)
            } else {
                (last, false)
            },
            None => (last, false),
        }
    }
}

/// The state after the inputs, and the number of restarts they requested.
pub open spec fn replay(window: int, xs: Seq<WatchInput>) -> (Option<int>, nat)
    decreases xs.len(),
{
    if xs.len() == 0 {
        (None, 0)
    } else {
        let prev = replay(window, xs.drop_last());
        let (st, emit) = debounce_step(window, prev.0, xs.last());
        (st, prev.1 + if emit {
            1nat
        } else {
            0nat
        })
    }
}

/// A burst in progress: it begins with a relevant change, and no tick comes a
/// full window after the latest relevant change. Gives the time of that change.
pub open spec fn burst(window: int, xs: Seq<WatchInput>) -> Option<int>
    decreases xs.len(),
{
    if xs.len() == 0 {
        None
    } else if xs.len() == 1 {
        if !xs[0].0 && xs[0].1 {
            Some(xs[0].2)
        } else {
            None
        }
    } else {
        match burst(window, xs.drop_last()) {
            None => None,
            Some(l) => {
                let x = xs.last();
                if !x.0 {
                    if x.1 {
                        Some(x.2)
                    } else {
                        Some(l)
                    }
                } else if x.2 < l + window {
                    Some(l)
                } else {
                    None
                }
            },
        }
    }
}

/// During a burst nothing is requested yet, and the debouncer remembers the
/// latest relevant change.
pub proof fn lemma_burst_quiet(window: int, xs: Seq<WatchInput>)
    requires
        burst(window, xs) is Some,
    ensures
        replay(window, xs) == (burst(window, xs), 0nat),
    decreases xs.len(),
{
    if xs.len() > 1 {
        lemma_burst_quiet(window, xs.drop_last());
    } else {
        assert(xs.drop_last().len() == 0);
        assert(replay(window, xs.drop_last()) == (None::<int>, 0nat));
        assert(xs.last() == xs[0]);
    }
}

/// Debounce coalescing: a burst of relevant changes, each within the window of
/// the one before, followed by a wake-up a full window after the latest change,
/// requests exactly one restart, and the debouncer is idle again.
pub proof fn lemma_one_restart_per_burst(window: int, xs: Seq<WatchInput>, t: int)
    requires
        burst(window, xs) is Some,
        t >= burst(window, xs)->0 + window,
    ensures
        replay(window, xs.push((true, false, t))) == (None::<int>, 1nat),
{
    lemma_burst_quiet(window, xs);
    assert(xs.push((true, false, t)).drop_last() =~= xs);
}

/// The debouncer of one watched process.
#[derive(Debug, Clone, Copy)]
pub struct Debouncer {
    window_ms: u64,
    last: Option<u64>,
}

impl Debouncer {
    pub closed spec fn window(&self) -> int {
        self.window_ms as int
    }

    pub closed spec fn pending(&self) -> Option<int> {
        match self.last {
            Some(l) => Some(l as int),
            None => None,
        }
    }

    /// An idle debouncer with a window of `debounce_ms`, at least 50 ms.
    pub fn new(debounce_ms: u64) -> (r: Self)
        ensures
            r.window() == if debounce_ms < MIN_DEBOUNCE_MS {
                MIN_DEBOUNCE_MS as int
            } else {
                debounce_ms as int
            },
            r.pending().is_none(),
    {
        let window_ms = if debounce_ms < MIN_DEBOUNCE_MS {
            MIN_DEBOUNCE_MS
        } else {
            debounce_ms
        };
        Debouncer { window_ms, last: None }
    }

    /// A change event at `now`.
    pub fn on_change(&mut self, relevant: bool, now: u64)
        ensures
            final(self).window() == old(self).window(),
            (final(self).pending(), false) == debounce_step(old(self).window(), old(self).pending(), (false, relevant, now as int)),
    {
        if relevant {
            self.last = Some(now);
        }
    }

    /// A wake-up at `now`; returns whether to request a restart.
    pub fn on_tick(&mut self, now: u64) -> (emit: bool)
        ensures
            final(self).window() == old(self).window(),
            (final(self).pending(), emit) == debounce_step(old(self).window(), old(self).pending(), (true, false, now as int)),
    {
        match self.last {
            Some(l) => {
                if now >= l && now - l >= self.window_ms {
                    self.last = None;
                    true
                } else {
                    false
                }
            },
            None => false,
        }
    }

    /// How long the watcher may wait for the next change at `now`: without a
    /// burst in progress, as long as it likes; otherwise until a full window has
    /// passed since the latest relevant change.
    pub fn wait_ms(&self, now: u64) -> (r: Option<u64>)
        ensures
            self.pending() is None ==> r is None,
            self.pending() matches Some(l) ==> r == Some(
                if l + self.window() <= now {
                    0
                } else if l + self.window() - now > u64::MAX {
                    u64::MAX
                } else {
                    (l + self.window() - now) as u64
                },
            ),
    {
        match self.last {
            Some(l) => {
                if now >= l && now - l >= self.window_ms {
                    Some(0)
                } else if now >= l {
                    Some(self.window_ms - (now - l))
                } else if l - now > u64::MAX - self.window_ms {
                    Some(u64::MAX)
                } else {
                    Some(self.window_ms + (l - now))
                }
            },
            None => None,
        }
    }
}

} // verus!
