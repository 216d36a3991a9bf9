//! Version strings of releases, as the update check reads them.

use vstd::prelude::*;

use crate::text::{chars_of, string_of};

verus! {

/// What an update check found: the running version and a newer release.
#[derive(Debug, Clone)]
pub struct UpdateInfo {
    pub current: String,
    pub latest: String,
}

/// Unicode white space, as `str::trim` removes it.
pub open spec fn is_space(c: char) -> bool {
    ('\u{9}' <= c <= '\u{d}') || c == ' ' || c == '\u{85}' || c == '\u{a0}' || c == '\u{1680}'
        || ('\u{2000}' <= c <= '\u{200a}') || c == '\u{2028}' || c == '\u{2029}' || c == '\u{202f}'
        || c == '\u{205f}' || c == '\u{3000}'
}

pub(crate) fn space_char(c: char) -> (r: bool)
    ensures
        r == is_space(c),
{
    ('\u{9}' <= c && c <= '\u{d}') || c == ' ' || c == '\u{85}' || c == '\u{a0}' || c == '\u{1680}'
        || ('\u{2000}' <= c && c <= '\u{200a}') || c == '\u{2028}' || c == '\u{2029}' || c == '\u{202f}'
        || c == '\u{205f}' || c == '\u{3000}'
}

/// `s` without leading white space.
pub open spec fn skip_spaces(s: Seq<char>) -> Seq<char>
    decreases s.len(),
{
    if s.len() > 0 && is_space(s[0]) {
        skip_spaces(s.subrange(1, s.len() as int))
    } else {
        s
    }
}

/// `s` without leading `v`s.
pub open spec fn skip_vs(s: Seq<char>) -> Seq<char>
    decreases s.len(),
{
    if s.len() > 0 && s[0] == 'v' {
        skip_vs(s.subrange(1, s.len() as int))
    } else {
        s
    }
}

/// `s` without trailing white space.
pub open spec fn skip_back_spaces(s: Seq<char>) -> Seq<char>
    decreases s.len(),
{
    if s.len() > 0 && is_space(s.last()) {
        skip_back_spaces(s.drop_last())
    } else {
        s
    }
}

/// The part of `s` before the first `c` (all of it without one).
pub open spec fn before(s: Seq<char>, c: char) -> Seq<char>
    decreases s.len(),
{
    if s.len() == 0 {
        s
    } else if s[0] == c {
        seq![]
    } else {
        seq![s[0]] + before(s.subrange(1, s.len() as int), c)
    }
}

/// The bare version: trimmed, without leading `v`s, without build metadata
/// (from `+`) and pre-release (from `-`).
pub open spec fn normalized(raw: Seq<char>) -> Seq<char> {
    before(before(skip_vs(skip_back_spaces(skip_spaces(raw))), '+'), '-')
}

/// Index of the first character of `v` from `i` on that is not white space.
fn scan_spaces(v: &Vec<char>, i: usize) -> (r: usize)
    requires
        i <= v@.len(),
    ensures
        i <= r <= v@.len(),
        skip_spaces(v@.subrange(i as int, v@.len() as int)) == v@.subrange(r as int, v@.len() as int),
    decreases v@.len() - i,
{
    if i < v.len() && space_char(v[i]) {
        let r = scan_spaces(v, i + 1);
        assert(v@.subrange(i as int, v@.len() as int).subrange(1, v@.len() - i) =~= v@.subrange(i + 1, v@.len() as int));
        r
    } else {
        i
    }
}

/// The first characters of `v[from..to]` up to, not including, the first `c`.
fn prefix_before(v: &Vec<char>, from: usize, to: usize, c: char) -> (r: usize)
    requires
        from <= to <= v@.len(),
    ensures
        from <= r <= to,
        before(v@.subrange(from as int, to as int), c) == v@.subrange(from as int, r as int),
    decreases to - from,
{
    if from == to {
        return from;
    }
    if v[from] == c {
        return from;
    }
    let r = prefix_before(v, from + 1, to, c);
    proof {
        let s = v@.subrange(from as int, to as int);
        assert(s.subrange(1, s.len() as int) =~= v@.subrange(from + 1, to as int));
        assert(seq![s[0]] + v@.subrange(from + 1, r as int) =~= v@.subrange(from as int, r as int));
    }
    r
}

/// The bare version of `raw`; none when nothing is left.
pub fn normalize_version(raw: &str) -> (r: Option<String>)
    ensures
        normalized(raw@).len() == 0 ==> r is None,
        normalized(raw@).len() > 0 ==> (r matches Some(s) && s@ == normalized(raw@)),
{
    let v = chars_of(raw);
    let n = v.len();
    let a = scan_spaces(&v, 0);
    assert(v@.subrange(0, n as int) =~= v@);
    let mut b = n;
    while b > a && space_char(v[b - 1])
        invariant
            a <= b <= n,
            n == v@.len(),
            skip_back_spaces(v@.subrange(a as int, n as int)) == skip_back_spaces(v@.subrange(a as int, b as int)),
        decreases b,
    {
        assert(v@.subrange(a as int, b as int).drop_last() =~= v@.subrange(a as int, b - 1));
        b -= 1;
    }
    let c = scan_while_range(&v, a, b);
    let d = prefix_before(&v, c, b, '+');
    let e = prefix_before(&v, c, d, '-');
    if e == c {
        return None;
    }
    let mut out: Vec<char> = Vec::new();
    let mut k = c;
    while k < e
        invariant
            c <= k <= e <= v@.len(),
            out@ == v@.subrange(c as int, k as int),
        decreases e - k,
    {
        out.push(v[k]);
        k += 1;
    }
    Some(string_of(out.as_slice()))
}

/// Skips the leading `v`s of `v[a..b]`, which holds no trailing white space.
fn scan_while_range(v: &Vec<char>, a: usize, b: usize) -> (r: usize)
    requires
        a <= b <= v@.len(),
    ensures
        a <= r <= b,
        skip_vs(v@.subrange(a as int, b as int)) == v@.subrange(r as int, b as int),
    decreases b - a,
{
    if a < b && v[a] == 'v' {
        let r = scan_while_range(v, a + 1, b);
        assert(v@.subrange(a as int, b as int).subrange(1, b - a) =~= v@.subrange(a + 1, b as int));
        r
    } else {
        a
    }
}

pub open spec fn is_digit(c: char) -> bool {
    '0' <= c <= '9'
}

/// The value of a string of decimal digits.
pub open spec fn digits_value(s: Seq<char>) -> nat
    decreases s.len(),
{
    if s.len() == 0 {
        0
    } else {
        digits_value(s.drop_last()) * 10 + (s.last() as nat - '0' as nat) as nat
    }
}

/// What parsing `s` as a `u64` gives: one or more decimal digits whose value fits.
pub open spec fn parsed_u64(s: Seq<char>) -> Option<u64> {
    if s.len() > 0 && (forall|i: int| 0 <= i < s.len() ==> is_digit(#[trigger] s[i])) && digits_value(s)
        <= u64::MAX {
        Some(digits_value(s) as u64)
    } else {
        None
    }
}

/// Parses `v[from..to]` as a `u64`.
pub(crate) fn parse_u64(v: &Vec<char>, from: usize, to: usize) -> (r: Option<u64>)
    requires
        from <= to <= v@.len(),
    ensures
        r == parsed_u64(v@.subrange(from as int, to as int)),
{
    let ghost s = v@.subrange(from as int, to as int);
    if from == to {
        return None;
    }
    let mut acc: u64 = 0;
    let mut k = from;
    while k < to
        invariant
            from <= k <= to <= v@.len(),
            s == v@.subrange(from as int, to as int),
            forall|i: int| from <= i < k ==> is_digit(#[trigger] v@[i]),
            acc as nat == digits_value(v@.subrange(from as int, k as int)),
        decreases to - k,
    {
        let c = v[k];
        proof {
            assert(v@.subrange(from as int, k + 1).drop_last() =~= v@.subrange(from as int, k as int));
        }
        if !('0' <= c && c <= '9') {
            assert(!is_digit(s[k - from]));
            return None;
        }
        let d = (c as u32 - '0' as u32) as u64;
        if acc > (u64::MAX - d) / 10 {
            proof {
                assert(acc * 10 + d > u64::MAX) by (nonlinear_arith)
                    requires acc > (u64::MAX - d) / 10, d <= 9;
                lemma_digits_grow(v@.subrange(from as int, to as int), (k + 1 - from) as int);
                assert(v@.subrange(from as int, to as int).subrange(0, k + 1 - from) =~= v@.subrange(from as int, k + 1));
            }
            return None;
        }
        proof {
            assert(acc * 10 + d <= u64::MAX) by (nonlinear_arith)
                requires acc <= (u64::MAX - d) / 10, d <= 9;
        }
        acc = acc * 10 + d;
        k += 1;
    }
    assert(v@.subrange(from as int, to as int) =~= s);
    Some(acc)
}

/// A prefix of a digit string is worth no more than the whole.
proof fn lemma_digits_grow(s: Seq<char>, k: int)
    requires
        0 <= k <= s.len(),
    ensures
        digits_value(s.subrange(0, k)) <= digits_value(s),
    decreases s.len() - k,
{
    if k < s.len() {
        lemma_digits_grow(s, k + 1);
        assert(s.subrange(0, k + 1).drop_last() =~= s.subrange(0, k));
    } else {
        assert(s.subrange(0, k) =~= s);
    }
}

/// The dot-separated fields of `s`.
pub open spec fn fields(s: Seq<char>) -> Seq<Seq<char>>
    decreases s.len(),
{
    if s.len() == 0 {
        seq![seq![]]
    } else {
        let p = fields(s.drop_last());
        if s.last() == '.' {
            p.push(seq![])
        } else {
            p.update(p.len() - 1, p.last().push(s.last()))
        }
    }
}

/// `(major, minor, patch)` of a version: the first three fields of its bare
/// form, each a `u64`.
pub open spec fn version_of(raw: Seq<char>) -> Option<(u64, u64, u64)> {
    let n = normalized(raw);
    let f = fields(n);
    if n.len() > 0 && f.len() >= 3 && parsed_u64(f[0]) is Some && parsed_u64(f[1]) is Some && parsed_u64(f[2]) is Some {
        Some((parsed_u64(f[0])->0, parsed_u64(f[1])->0, parsed_u64(f[2])->0))
    } else {
        None
    }
}

proof fn lemma_fields_len(s: Seq<char>)
    ensures
        fields(s).len() >= 1,
    decreases s.len(),
{
    if s.len() > 0 {
        lemma_fields_len(s.drop_last());
    }
}

/// The bounds of the dot-separated fields of `v`, as `(start, end)` pairs.
fn field_bounds(v: &Vec<char>) -> (r: Vec<(usize, usize)>)
    ensures
        r@.len() == fields(v@).len(),
        forall|i: int| 0 <= i < r@.len() ==> {
            let (a, b) = #[trigger] r@[i];
            a <= b <= v@.len() && v@.subrange(a as int, b as int) == fields(v@)[i]
        },
{
    let mut r: Vec<(usize, usize)> = Vec::new();
    let mut start: usize = 0;
    let mut k: usize = 0;
    while k < v.len()
        invariant
            start <= k <= v@.len(),
            fields(v@.subrange(0, k as int)).len() == r@.len() + 1,
            fields(v@.subrange(0, k as int)).last() == v@.subrange(start as int, k as int),
            forall|i: int| 0 <= i < r@.len() ==> {
                let (a, b) = #[trigger] r@[i];
                a <= b <= k && v@.subrange(a as int, b as int) == fields(v@.subrange(0, k as int))[i]
            },
        decreases v@.len() - k,
    {
        proof {
            assert(v@.subrange(0, k + 1).drop_last() =~= v@.subrange(0, k as int));
            lemma_fields_len(v@.subrange(0, k as int));
        }
        if v[k] == '.' {
            r.push((start, k));
            start = k + 1;
            assert(v@.subrange(start as int, k + 1) =~= seq![]);
        } else {
            assert(v@.subrange(start as int, k + 1) =~= v@.subrange(start as int, k as int).push(v@[k as int]));
        }
        k += 1;
    }
    assert(v@.subrange(0, v@.len() as int) =~= v@);
    r.push((start, v.len()));
    r
}

/// Reads `(major, minor, patch)` from a version string.
pub fn version_tuple(raw: &str) -> (r: Option<(u64, u64, u64)>)
    ensures
        r == version_of(raw@),
{
    let n = match normalize_version(raw) {
        Some(n) => n,
        None => return None,
    };
    let v = chars_of(n.as_str());
    let b = field_bounds(&v);
    if b.len() < 3 {
        return None;
    }
    let (a0, b0) = b[0];
    let (a1, b1) = b[1];
    let (a2, b2) = b[2];
    let major = match parse_u64(&v, a0, b0) {
        Some(x) => x,
        None => return None,
    };
    let minor = match parse_u64(&v, a1, b1) {
        Some(x) => x,
        None => return None,
    };
    let patch = match parse_u64(&v, a2, b2) {
        Some(x) => x,
        None => return None,
    };
    Some((major, minor, patch))
}

/// Whether version `a` is newer than `b`, comparing major, then minor, then patch.
pub open spec fn newer(a: (u64, u64, u64), b: (u64, u64, u64)) -> bool {
    a.0 > b.0 || (a.0 == b.0 && (a.1 > b.1 || (a.1 == b.1 && a.2 > b.2)))
}

/// The update to announce when release `latest` is newer than `current`.
pub fn update_available(current: &str, latest: &str) -> (r: Option<UpdateInfo>)
    ensures
        r is Some <==> (version_of(current@) is Some && version_of(latest@) is Some && newer(
            version_of(latest@)->0,
            version_of(current@)->0,
        )),
        r matches Some(u) ==> u.current@ == normalized(current@) && u.latest@ == normalized(latest@),
{
    let c = match version_tuple(current) {
        Some(c) => c,
        None => return None,
    };
    let l = match version_tuple(latest) {
        Some(l) => l,
        None => return None,
    };
    if !(l.0 > c.0 || (l.0 == c.0 && (l.1 > c.1 || (l.1 == c.1 && l.2 > c.2)))) {
        return None;
    }
    let cur = match normalize_version(current) {
        Some(s) => s,
        None => return None,
    };
    let lat = match normalize_version(latest) {
        Some(s) => s,
        None => return None,
    };
    Some(UpdateInfo { current: cur, latest: lat })
}

/// How long a cached release check stays fresh, in seconds.
pub const UPDATE_TTL_SECS: u64 = 86_400;

/// Whether a release check made at `checked_at` is still fresh at `now` (both
/// in seconds); a check stamped in the future counts as fresh.
pub fn cache_is_fresh(now: u64, checked_at: u64) -> (r: bool)
    ensures
        r == ((if now >= checked_at { now - checked_at } else { 0 }) < UPDATE_TTL_SECS),
{
    let age = if now >= checked_at { now - checked_at } else { 0 };
    age < UPDATE_TTL_SECS
}

} // verus!
