//! Prefixes of output lines printed without the terminal UI: templates, fixed
//! widths, colors, and prefixes a process already printed itself.

use vstd::prelude::*;

use crate::config::{lower_of, lowercase};
use crate::display::utf8_width;
use crate::display::utf8_len;
use crate::text::{append_str, chars_of, push_char, push_decimal, decimal, same_text, string_of};
use crate::version::is_space;

verus! {

/// `s` with every occurrence of `pat` replaced by `rep`, scanning left to right.
pub open spec fn replace_all(s: Seq<char>, pat: Seq<char>, rep: Seq<char>) -> Seq<char>
    decreases s.len(),
{
    if pat.len() == 0 || s.len() < pat.len() {
        s
    } else if s.subrange(0, pat.len() as int) == pat {
        rep + replace_all(s.subrange(pat.len() as int, s.len() as int), pat, rep)
    } else {
        seq![s[0]] + replace_all(s.subrange(1, s.len() as int), pat, rep)
    }
}

fn starts_at(v: &Vec<char>, i: usize, p: &Vec<char>) -> (r: bool)
    requires
        i <= v@.len(),
    ensures
        r == (v@.len() - i >= p@.len() && v@.subrange(i as int, i + p@.len()) == p@),
{
    let vl = v.len();
    if vl - i < p.len() {
        return false;
    }
    let mut k: usize = 0;
    while k < p.len()
        invariant
            vl == v@.len(),
            i <= vl,
            v@.len() - i >= p@.len(),
            k <= p@.len(),
            forall|x: int| 0 <= x < k ==> v@[i + x] == p@[x],
        decreases p@.len() - k,
    {
        if v[i + k] != p[k] {
            assert(v@.subrange(i as int, i + p@.len())[k as int] != p@[k as int]);
            return false;
        }
        k += 1;
    }
    assert(v@.subrange(i as int, i + p@.len()) =~= p@);
    true
}

/// Replaces every `pat` in `s` by `rep`.
fn replace(s: &Vec<char>, pat: &Vec<char>, rep: &Vec<char>) -> (r: Vec<char>)
    ensures
        r@ == replace_all(s@, pat@, rep@),
{
    if pat.len() == 0 {
        let mut out: Vec<char> = Vec::new();
        append_vec(&mut out, s);
        return out;
    }
    let mut out: Vec<char> = Vec::new();
    let mut i: usize = 0;
    assert(s@.subrange(0, s@.len() as int) =~= s@);
    assert(out@ + replace_all(s@, pat@, rep@) =~= replace_all(s@, pat@, rep@));
    while i < s.len()
        invariant
            pat@.len() > 0,
            i <= s@.len(),
            replace_all(s@, pat@, rep@) == out@ + replace_all(s@.subrange(i as int, s@.len() as int), pat@, rep@),
        decreases s@.len() - i,
    {
        let ghost rest = s@.subrange(i as int, s@.len() as int);
        if starts_at(s, i, pat) {
            proof {
                assert(rest.subrange(0, pat@.len() as int) =~= s@.subrange(i as int, i + pat@.len()));
                assert(rest.subrange(pat@.len() as int, rest.len() as int) =~= s@.subrange(i + pat@.len(), s@.len() as int));
            }
            let ghost o = out@;
            append_vec(&mut out, rep);
            assert(out@ + replace_all(s@.subrange(i + pat@.len(), s@.len() as int), pat@, rep@) =~= o + replace_all(rest, pat@, rep@));
            i = i + pat.len();
        } else {
            proof {
                if rest.len() >= pat@.len() {
                    assert(rest.subrange(0, pat@.len() as int) =~= s@.subrange(i as int, i + pat@.len()));
                    assert(rest.subrange(1, rest.len() as int) =~= s@.subrange(i + 1, s@.len() as int));
                }
            }
            let ghost o = out@;
            out.push(s[i]);
            proof {
                if rest.len() < pat@.len() {
                    lemma_short_unchanged(rest, pat@, rep@);
                    lemma_short_unchanged(s@.subrange(i + 1, s@.len() as int), pat@, rep@);
                    assert(rest =~= seq![s@[i as int]] + s@.subrange(i + 1, s@.len() as int));
                }
                assert(out@ + replace_all(s@.subrange(i + 1, s@.len() as int), pat@, rep@) =~= o + replace_all(rest, pat@, rep@));
            }
            i = i + 1;
        }
    }
    assert(out@ + replace_all(s@.subrange(i as int, s@.len() as int), pat@, rep@) =~= out@);
    out
}

proof fn lemma_short_unchanged(s: Seq<char>, pat: Seq<char>, rep: Seq<char>)
    requires
        s.len() < pat.len(),
    ensures
        replace_all(s, pat, rep) == s,
{
}

fn append_vec(out: &mut Vec<char>, s: &Vec<char>)
    ensures
        final(out)@ == old(out)@ + s@,
{
    let mut k: usize = 0;
    while k < s.len()
        invariant
            k <= s@.len(),
            out@ == old(out)@ + s@.subrange(0, k as int),
        decreases s@.len() - k,
    {
        out.push(s[k]);
        k += 1;
    }
}

/// A template with `{name}`, `{index}` and `{time}` filled in, in that order.
pub open spec fn rendered(template: Seq<char>, name: Seq<char>, index: nat, time: Seq<char>) -> Seq<char> {
    replace_all(
        replace_all(replace_all(template, "{name}"@, name), "{index}"@, decimal(index)),
        "{time}"@,
        time,
    )
}

pub fn render_template(template: &str, name: &str, index: usize, time: &str) -> (r: String)
    ensures
        r@ == rendered(template@, name@, index as nat, time@),
{
    let mut idx = String::new();
    push_decimal(&mut idx, index as u64);
    let t = chars_of(template);
    let a = replace(&t, &chars_of("{name}"), &chars_of(name));
    let b = replace(&a, &chars_of("{index}"), &chars_of(idx.as_str()));
    let c = replace(&b, &chars_of("{time}"), &chars_of(time));
    string_of(c.as_slice())
}

/// Whether `length` bytes end on a character of `s`.
pub open spec fn byte_boundary(s: Seq<char>, length: nat) -> bool {
    exists|k: int| 0 <= k <= s.len() && utf8_len(#[trigger] s.subrange(0, k)) == length
}

/// A prefix brought to exactly `length` bytes: cut, or padded with spaces.
pub open spec fn fixed_width(s: Seq<char>, length: Option<usize>) -> Seq<char> {
    match length {
        None => s,
        Some(l) => if utf8_len(s) > l {
            let k = choose|k: int| 0 <= k <= s.len() && utf8_len(#[trigger] s.subrange(0, k)) == l;
            s.subrange(0, k)
        } else {
            s + Seq::new((l - utf8_len(s)) as nat, |i: int| ' ')
        },
    }
}

proof fn lemma_utf8_prefix_mono(s: Seq<char>, a: int, b: int)
    requires
        0 <= a <= b <= s.len(),
    ensures
        utf8_len(s.subrange(0, a)) <= utf8_len(s.subrange(0, b)),
        a < b ==> utf8_len(s.subrange(0, a)) < utf8_len(s.subrange(0, b)),
    decreases b - a,
{
    if a < b {
        lemma_utf8_prefix_mono(s, a, b - 1);
        assert(s.subrange(0, b).drop_last() =~= s.subrange(0, b - 1));
    }
}

/// Brings a prefix to `length` bytes, if given; the cut must fall between
/// characters.
pub fn apply_prefix_length(prefix: String, length: Option<usize>) -> (r: String)
    requires
        length is Some && utf8_len(prefix@) > length->0 ==> byte_boundary(prefix@, length->0 as nat),
    ensures
        r@ == fixed_width(prefix@, length),
{
    let l = match length {
        None => return prefix,
        Some(l) => l,
    };
    let v = chars_of(prefix.as_str());
    let mut bytes: usize = 0;
    let mut i: usize = 0;
    while i < v.len() && bytes < l
        invariant
            length == Some(l),
            length is Some && utf8_len(prefix@) > length->0 ==> byte_boundary(prefix@, length->0 as nat),
            v@ == prefix@,
            i <= v@.len(),
            bytes == utf8_len(v@.subrange(0, i as int)),
            bytes <= l,
            forall|k: int| 0 <= k < i ==> utf8_len(#[trigger] v@.subrange(0, k)) < l,
        decreases v@.len() - i,
    {
        let w = char_width(v[i]);
        proof {
            assert(v@.subrange(0, i + 1).drop_last() =~= v@.subrange(0, i as int));
        }
        if w > l - bytes {
            proof {
                assert(utf8_len(prefix@) > l) by {
                    lemma_utf8_prefix_mono(v@, i + 1, v@.len() as int);
                    assert(v@.subrange(0, v@.len() as int) =~= v@);
                }
                assert(byte_boundary(prefix@, l as nat));
                let k = choose|k: int| 0 <= k <= v@.len() && utf8_len(#[trigger] v@.subrange(0, k)) == l;
                if k <= i {
                    if k < i {
                        assert(utf8_len(v@.subrange(0, k)) < l);
                    }
                } else {
                    lemma_utf8_prefix_mono(v@, i + 1, k);
                }
                assert(false);
            }
            return prefix;
        }
        bytes = bytes + w;
        i += 1;
    }
    assert(v@.subrange(0, v@.len() as int) =~= v@);
    if bytes == l && i < v.len() || (bytes == l && utf8_len_gt(&v, l)) {
        let mut out: Vec<char> = Vec::new();
        let mut j: usize = 0;
        while j < i
            invariant
                i <= v@.len(),
                j <= i,
                out@ == v@.subrange(0, j as int),
            decreases i - j,
        {
            out.push(v[j]);
            j += 1;
        }
        proof {
            lemma_utf8_prefix_mono(v@, i as int, v@.len() as int);
            assert(byte_boundary(prefix@, l as nat));
            let k = choose|k: int| 0 <= k <= v@.len() && utf8_len(#[trigger] v@.subrange(0, k)) == l;
            if k < i {
                lemma_utf8_prefix_mono(v@, k, i as int);
            } else if k > i {
                lemma_utf8_prefix_mono(v@, i as int, k);
            }
            assert(k == i);
        }
        return string_of(out.as_slice());
    }
    proof {
        assert(i == v@.len());
        assert(utf8_len(prefix@) == bytes);
    }
    let mut out = prefix;
    let mut pad: usize = 0;
    let ghost base = out@;
    while pad < l - bytes
        invariant
            bytes <= l,
            pad <= l - bytes,
            out@ == base + Seq::new(pad as nat, |x: int| ' '),
        decreases l - bytes - pad,
    {
        push_char(&mut out, ' ');
        pad += 1;
        assert(out@ =~= base + Seq::new(pad as nat, |x: int| ' '));
    }
    out
}

fn utf8_len_gt(v: &Vec<char>, l: usize) -> (r: bool)
    ensures
        r == (utf8_len(v@) > l),
{
    let mut bytes: usize = 0;
    let mut i: usize = 0;
    while i < v.len()
        invariant
            i <= v@.len(),
            bytes <= l,
            bytes == utf8_len(v@.subrange(0, i as int)),
        decreases v@.len() - i,
    {
        proof {
            assert(v@.subrange(0, i + 1).drop_last() =~= v@.subrange(0, i as int));
        }
        let w = char_width(v[i]);
        if w > l - bytes {
            proof {
                lemma_utf8_prefix_mono(v@, i + 1, v@.len() as int);
                assert(v@.subrange(0, v@.len() as int) =~= v@);
            }
            return true;
        }
        bytes = bytes + w;
        i += 1;
    }
    assert(v@.subrange(0, v@.len() as int) =~= v@);
    false
}

fn char_width(c: char) -> (r: usize)
    ensures
        r == utf8_width(c),
{
    if (c as u32) < 0x80 {
        1
    } else if (c as u32) < 0x800 {
        2
    } else if (c as u32) < 0x10000 {
        3
    } else {
        4
    }
}

/// The SGR color code a lowercased color name stands for; `0` for none.
pub open spec fn color_code(lower: Seq<char>) -> Seq<char> {
    if lower == "black"@ {
        "30"@
    } else if lower == "red"@ {
        "31"@
    } else if lower == "green"@ {
        "32"@
    } else if lower == "yellow"@ {
        "33"@
    } else if lower == "blue"@ {
        "34"@
    } else if lower == "magenta"@ {
        "35"@
    } else if lower == "cyan"@ {
        "36"@
    } else if lower == "gray"@ || lower == "grey"@ {
        "90"@
    } else {
        "0"@
    }
}

/// A prefix in the named color, given the color name lowercased: unchanged for
/// an unknown or missing color.
pub open spec fn colored(prefix: Seq<char>, lower: Seq<char>) -> Seq<char> {
    if color_code(lower) == "0"@ {
        prefix
    } else {
        "\u{1b}["@ + color_code(lower) + "m"@ + prefix + "\u{1b}[0m"@
    }
}

fn code_for(lower: &String) -> (r: &'static str)
    ensures
        r@ == color_code(lower@),
{
    let l = lower.as_str();
    if same_text(l, "black") {
        "30"
    } else if same_text(l, "red") {
        "31"
    } else if same_text(l, "green") {
        "32"
    } else if same_text(l, "yellow") {
        "33"
    } else if same_text(l, "blue") {
        "34"
    } else if same_text(l, "magenta") {
        "35"
    } else if same_text(l, "cyan") {
        "36"
    } else if same_text(l, "gray") || same_text(l, "grey") {
        "90"
    } else {
        "0"
    }
}

/// Wraps a prefix in the SGR color `color` names (ignoring case).
pub fn apply_color(prefix: &str, color: Option<&str>) -> (r: String)
    ensures
        r@ == colored(prefix@, lower_of(match color { Some(c) => c@, None => seq![] })),
{
    proof {
        reveal_strlit("");
        assert(""@ =~= Seq::<char>::empty());
    }
    let lower = match color {
        Some(c) => lowercase(c),
        None => lowercase(""),
    };
    color_with(prefix, &lower)
}

/// Wraps a prefix in the SGR color that the lowercased name `lower` names.
pub fn color_with(prefix: &str, lower: &String) -> (r: String)
    ensures
        r@ == colored(prefix@, lower@),
{
    let code = code_for(lower);
    let mut s = String::new();
    proof {
        reveal_strlit("0");
    }
    if same_text(code, "0") {
        append_str(&mut s, prefix);
        return s;
    }
    append_str(&mut s, "\u{1b}[");
    append_str(&mut s, code);
    append_str(&mut s, "m");
    append_str(&mut s, prefix);
    append_str(&mut s, "\u{1b}[0m");
    s
}

/// The prefixes a process may already have printed before its own text, in the
/// order they are tried.
pub open spec fn known_prefixes(name: Seq<char>) -> Seq<Seq<char>> {
    seq![
        "["@ + name + "] "@,
        "["@ + name + "]"@,
        name + " \u{203a} "@,
        name + ": "@,
        name + " - "@,
    ]
}

/// `s` without leading white space.
pub open spec fn trim_start(s: Seq<char>) -> Seq<char>
    decreases s.len(),
{
    if s.len() > 0 && is_space(s[0]) {
        trim_start(s.subrange(1, s.len() as int))
    } else {
        s
    }
}

pub open spec fn is_prefix(p: Seq<char>, s: Seq<char>) -> bool {
    p.len() <= s.len() && s.subrange(0, p.len() as int) == p
}

/// The text without the first known prefix it starts with (and the white space
/// after it), if any.
pub open spec fn without_prefix(name: Seq<char>, text: Seq<char>, k: int) -> Seq<char>
    decreases 5 - k,
{
    if k >= 5 || k < 0 {
        text
    } else if is_prefix(known_prefixes(name)[k], text) {
        trim_start(text.subrange(known_prefixes(name)[k].len() as int, text.len() as int))
    } else {
        without_prefix(name, text, k + 1)
    }
}

/// Removes a prefix the process printed itself, so it is not shown twice.
pub fn strip_existing_prefix(name: &str, text: &str) -> (r: String)
    ensures
        r@ == without_prefix(name@, text@, 0),
{
    let n = chars_of(name);
    let t = chars_of(text);
    let mut k: usize = 0;
    while k < 5
        invariant
            n@ == name@,
            t@ == text@,
            k <= 5,
            without_prefix(name@, text@, 0) == without_prefix(name@, text@, k as int),
        decreases 5 - k,
    {
        let cand = candidate(&n, k);
        if starts_at(&t, 0, &cand) {
            assert(t@.subrange(0, cand@.len() as int) == cand@);
            let mut i: usize = cand.len();
            while i < t.len() && crate::version::space_char(t[i])
                invariant
                    cand@.len() <= i <= t@.len(),
                    trim_start(t@.subrange(cand@.len() as int, t@.len() as int)) == trim_start(t@.subrange(i as int, t@.len() as int)),
                decreases t@.len() - i,
            {
                assert(t@.subrange(i as int, t@.len() as int).subrange(1, t@.len() - i) =~= t@.subrange(i + 1, t@.len() as int));
                i += 1;
            }
            let mut out: Vec<char> = Vec::new();
            let mut j: usize = i;
            while j < t.len()
                invariant
                    i <= j <= t@.len(),
                    out@ == t@.subrange(i as int, j as int),
                decreases t@.len() - j,
            {
                out.push(t[j]);
                j += 1;
            }
            return string_of(out.as_slice());
        }
        k += 1;
    }
    string_of(t.as_slice())
}

/// The `k`-th known prefix for `name`.
fn candidate(n: &Vec<char>, k: usize) -> (r: Vec<char>)
    requires
        k < 5,
    ensures
        r@ == known_prefixes(n@)[k as int],
{
    let mut s = String::new();
    let name = string_of(n.as_slice());
    if k == 0 {
        append_str(&mut s, "[");
        append_str(&mut s, name.as_str());
        append_str(&mut s, "] ");
    } else if k == 1 {
        append_str(&mut s, "[");
        append_str(&mut s, name.as_str());
        append_str(&mut s, "]");
    } else if k == 2 {
        append_str(&mut s, name.as_str());
        append_str(&mut s, " \u{203a} ");
    } else if k == 3 {
        append_str(&mut s, name.as_str());
        append_str(&mut s, ": ");
    } else {
        append_str(&mut s, name.as_str());
        append_str(&mut s, " - ");
    }
    chars_of(s.as_str())
}

/// Whether `apply_prefix_length(prefix, length)` may be called: no cut, or a cut
/// between characters.
pub fn cut_allowed(prefix: &str, length: Option<usize>) -> (r: bool)
    ensures
        r == (length is None || utf8_len(prefix@) <= length->0 || byte_boundary(prefix@, length->0 as nat)),
{
    let l = match length {
        None => return true,
        Some(l) => l,
    };
    let v = chars_of(prefix);
    let mut bytes: usize = 0;
    let mut i: usize = 0;
    while i < v.len() && bytes < l
        invariant
            length == Some(l),
            v@ == prefix@,
            i <= v@.len(),
            bytes == utf8_len(v@.subrange(0, i as int)),
            bytes <= l,
            forall|k: int| 0 <= k < i ==> utf8_len(#[trigger] v@.subrange(0, k)) < l,
        decreases v@.len() - i,
    {
        let w = char_width(v[i]);
        proof {
            assert(v@.subrange(0, i + 1).drop_last() =~= v@.subrange(0, i as int));
        }
        if w > l - bytes {
            proof {
                lemma_utf8_prefix_mono(v@, i + 1, v@.len() as int);
                assert(v@.subrange(0, v@.len() as int) =~= v@);
                assert(utf8_len(v@.subrange(0, i + 1)) == bytes + w);
                assert(utf8_len(prefix@) > l);
                assert forall|k: int| 0 <= k <= v@.len() implies utf8_len(#[trigger] v@.subrange(0, k)) != l by {
                    if k < i {
                    } else if k == i {
                    } else {
                        lemma_utf8_prefix_mono(v@, i + 1, k);
                    }
                }
            }
            assert(!byte_boundary(prefix@, l as nat));
            return false;
        }
        bytes = bytes + w;
        i += 1;
    }
    proof {
        assert(v@.subrange(0, v@.len() as int) =~= v@);
        if bytes == l {
            assert(utf8_len(v@.subrange(0, i as int)) == l);
        } else {
            assert(i == v@.len());
        }
    }
    true
}

} // verus!
