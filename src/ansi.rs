//! Parameters of ANSI SGR escape sequences, as the log view reads them.

use vstd::prelude::*;

use crate::text::chars_of;
use crate::version::{parse_u64, parsed_u64};

verus! {

/// The pieces of `s` between separators `sep` (always at least one).
pub open spec fn pieces(s: Seq<char>, sep: char) -> Seq<Seq<char>>
    decreases s.len(),
{
    if s.len() == 0 {
        seq![seq![]]
    } else {
        let p = pieces(s.drop_last(), sep);
        if s.last() == sep {
            p.push(seq![])
        } else {
            p.update(p.len() - 1, p.last().push(s.last()))
        }
    }
}

/// What Rust's `i32` parsing makes of `s`: an optional sign, then digits.
pub open spec fn parsed_i32(s: Seq<char>) -> Option<i32> {
    if s.len() > 0 && s[0] == '-' {
        match parsed_u64(s.subrange(1, s.len() as int)) {
            Some(v) => if v <= 2147483648 {
                Some((-(v as int)) as i32)
            } else {
                None
            },
            None => None,
        }
    } else {
        let digits = if s.len() > 0 && s[0] == '+' {
            s.subrange(1, s.len() as int)
        } else {
            s
        };
        match parsed_u64(digits) {
            Some(v) => if v <= 2147483647 {
                Some(v as i32)
            } else {
                None
            },
            None => None,
        }
    }
}

/// The values of the first `k` pieces: an empty piece reads as 0, a number as
/// itself; anything else is skipped.
pub open spec fn param_values(p: Seq<Seq<char>>, k: int) -> Seq<i32>
    decreases k,
{
    if k <= 0 {
        seq![]
    } else {
        let rest = param_values(p, k - 1);
        if p[k - 1].len() == 0 {
            rest.push(0)
        } else {
            match parsed_i32(p[k - 1]) {
                Some(v) => rest.push(v),
                None => rest,
            }
        }
    }
}

/// The parameters of an SGR sequence; no parameter at all means reset, 0.
pub open spec fn sgr_params(s: Seq<char>) -> Seq<i32> {
    let v = param_values(pieces(s, ';'), pieces(s, ';').len() as int);
    if s.len() == 0 || v.len() == 0 {
        seq![0]
    } else {
        v
    }
}

fn parse_i32_range(v: &Vec<char>, from: usize, to: usize) -> (r: Option<i32>)
    requires
        from <= to <= v@.len(),
    ensures
        r == parsed_i32(v@.subrange(from as int, to as int)),
{
    let ghost s = v@.subrange(from as int, to as int);
    if from < to && v[from] == '-' {
        assert(s.subrange(1, s.len() as int) =~= v@.subrange(from + 1, to as int));
        match parse_u64(v, from + 1, to) {
            Some(x) => {
                if x <= 2147483648 {
                    Some((0i64 - x as i64) as i32)
                } else {
                    None
                }
            },
            None => None,
        }
    } else {
        let start = if from < to && v[from] == '+' { from + 1 } else { from };
        assert(start > from ==> s.subrange(1, s.len() as int) =~= v@.subrange(start as int, to as int));
        match parse_u64(v, start, to) {
            Some(x) => {
                if x <= 2147483647 {
                    Some(x as i32)
                } else {
                    None
                }
            },
            None => None,
        }
    }
}

/// Reads the `;`-separated parameters of an SGR sequence.
pub fn parse_params(params: &str) -> (r: Vec<i32>)
    ensures
        r@ == sgr_params(params@),
{
    let v = chars_of(params);
    if v.len() == 0 {
        let mut r: Vec<i32> = Vec::new();
        r.push(0);
        assert(r@ =~= seq![0i32]);
        return r;
    }
    let mut bounds: Vec<(usize, usize)> = Vec::new();
    let mut start: usize = 0;
    let mut k: usize = 0;
    while k < v.len()
        invariant
            start <= k <= v@.len(),
            pieces(v@.subrange(0, k as int), ';').len() == bounds@.len() + 1,
            pieces(v@.subrange(0, k as int), ';').last() == v@.subrange(start as int, k as int),
            forall|i: int| 0 <= i < bounds@.len() ==> {
                let (a, b) = #[trigger] bounds@[i];
                a <= b <= k && v@.subrange(a as int, b as int) == pieces(v@.subrange(0, k as int), ';')[i]
            },
        decreases v@.len() - k,
    {
        proof {
            assert(v@.subrange(0, k + 1).drop_last() =~= v@.subrange(0, k as int));
            lemma_pieces_len(v@.subrange(0, k as int), ';');
        }
        if v[k] == ';' {
            bounds.push((start, k));
            start = k + 1;
            assert(v@.subrange(start as int, k + 1) =~= seq![]);
        } else {
            assert(v@.subrange(start as int, k + 1) =~= v@.subrange(start as int, k as int).push(v@[k as int]));
        }
        k += 1;
    }
    assert(v@.subrange(0, v@.len() as int) =~= v@);
    bounds.push((start, v.len()));
    let ghost p = pieces(v@, ';');
    let mut values: Vec<i32> = Vec::new();
    let mut i: usize = 0;
    while i < bounds.len()
        invariant
            p == pieces(v@, ';'),
            bounds@.len() == p.len(),
            forall|j: int| 0 <= j < bounds@.len() ==> {
                let (a, b) = #[trigger] bounds@[j];
                a <= b <= v@.len() && v@.subrange(a as int, b as int) == p[j]
            },
            i <= bounds@.len(),
            values@ == param_values(p, i as int),
        decreases bounds@.len() - i,
    {
        let (a, b) = bounds[i];
        if a == b {
            values.push(0);
        } else {
            match parse_i32_range(&v, a, b) {
                Some(x) => values.push(x),
                None => {},
            }
        }
        i += 1;
    }
    if values.len() == 0 {
        values.push(0);
        assert(values@ =~= seq![0i32]);
    }
    values
}

proof fn lemma_pieces_len(s: Seq<char>, sep: char)
    ensures
        pieces(s, sep).len() >= 1,
    decreases s.len(),
{
    if s.len() > 0 {
        lemma_pieces_len(s.drop_last(), sep);
    }
}

} // verus!
