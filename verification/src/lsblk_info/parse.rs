use vstd::prelude::*;
use crate::defs::{MigError, MigErrorKind};
use crate::lsblk_info::result_params::{pairs_view, ResultParams};
use crate::text::{chars_of, is_ws, string_from_chars, ws_char};

verus! {

// `lsblk -P` output is a list of `NAME="value"` parameters separated by whitespace (line feeds
// included, so that the output of several devices reads as one list). The name of a parameter
// is the longest run of non-whitespace characters that is followed by `="`, a quoted value and
// then either the end of the text, or whitespace; whitespace at the very end closes the list.

/// End of the run of non-whitespace characters that starts at `i`.
pub open spec fn run_nonws(s: Seq<char>, i: int) -> int
    decreases s.len() - i,
{
    if i < 0 || i >= s.len() || is_ws(s[i]) {
        i
    } else {
        run_nonws(s, i + 1)
    }
}

/// End of the run of whitespace characters that starts at `i`.
pub open spec fn run_ws(s: Seq<char>, i: int) -> int
    decreases s.len() - i,
{
    if i < 0 || i >= s.len() || !is_ws(s[i]) {
        i
    } else {
        run_ws(s, i + 1)
    }
}

/// Position of the first `"` at or after `i`, or the length of `s` if there is none.
pub open spec fn next_quote(s: Seq<char>, i: int) -> int
    decreases s.len() - i,
{
    if i < 0 || i >= s.len() || s[i] == '"' {
        i
    } else {
        next_quote(s, i + 1)
    }
}

/// With the parameter name ending at `e`: the position of the closing quote of the value, and
/// whether a rest follows.
pub open spec fn match_at(s: Seq<char>, e: int) -> Option<(int, bool)> {
    if 0 <= e && e + 1 < s.len() && s[e] == '=' && s[e + 1] == '"' {
        let q = next_quote(s, e + 2);
        if q < s.len() {
            if q + 1 == s.len() {
                Some((q, false))
            } else if is_ws(s[q + 1]) {
                Some((q, run_ws(s, q + 1) < s.len()))
            } else {
                None
            }
        } else {
            None
        }
    } else {
        None
    }
}

/// The longest name ending at or before `e` (and after `i`) that gives a match.
pub open spec fn match_from(s: Seq<char>, i: int, e: int) -> Option<(int, int, bool)>
    decreases e - i,
{
    if e <= i {
        None
    } else {
        match match_at(s, e) {
            Some((q, r)) => Some((e, q, r)),
            None => match_from(s, i, e - 1),
        }
    }
}

/// The parameter that starts at `i`: end of its name, position of the closing quote, and
/// whether a rest follows.
pub open spec fn param_match(s: Seq<char>, i: int) -> Option<(int, int, bool)> {
    match_from(s, i, run_nonws(s, i))
}

/// The parameters of `s` from position `i` on, in order; a parameter with an empty value is
/// left out. `None` when the text does not have the expected shape.
pub open spec fn parse_params(s: Seq<char>, i: int) -> Option<Seq<(Seq<char>, Seq<char>)>>
    decreases s.len() - i,
{
    if i < 0 || i > s.len() {
        None
    } else {
        match param_match(s, i) {
            None => None,
            Some((e, q, rest)) => {
                let here = if q > e + 2 {
                    seq![(s.subrange(i, e), s.subrange(e + 2, q))]
                } else {
                    Seq::empty()
                };
                if rest {
                    let j = run_ws(s, q + 1);
                    // the rest always starts after `i`
                    if i < j <= s.len() {
                        match parse_params(s, j) {
                            None => None,
                            Some(ps) => Some(here + ps),
                        }
                    } else {
                        None
                    }
                } else {
                    Some(here)
                }
            },
        }
    }
}

pub proof fn lemma_run_nonws(s: Seq<char>, i: int)
    requires
        0 <= i <= s.len(),
    ensures
        i <= run_nonws(s, i) <= s.len(),
        forall|k: int| i <= k < run_nonws(s, i) ==> !is_ws(#[trigger] s[k]),
    decreases s.len() - i,
{
    if i < s.len() && !is_ws(s[i]) {
        lemma_run_nonws(s, i + 1);
    }
}

pub proof fn lemma_run_ws(s: Seq<char>, i: int)
    requires
        0 <= i <= s.len(),
    ensures
        i <= run_ws(s, i) <= s.len(),
        run_ws(s, i) < s.len() ==> !is_ws(s[run_ws(s, i)]),
    decreases s.len() - i,
{
    if i < s.len() && is_ws(s[i]) {
        lemma_run_ws(s, i + 1);
    }
}

pub proof fn lemma_next_quote(s: Seq<char>, i: int)
    requires
        0 <= i <= s.len(),
    ensures
        i <= next_quote(s, i) <= s.len(),
    decreases s.len() - i,
{
    if i < s.len() && s[i] != '"' {
        lemma_next_quote(s, i + 1);
    }
}

pub fn run_nonws_exec(v: &[char], i: usize) -> (r: usize)
    requires
        i <= v@.len(),
    ensures
        r == run_nonws(v@, i as int),
{
    let mut j = i;
    while j < v.len() && !ws_char(v[j])
        invariant
            i <= j <= v@.len(),
            run_nonws(v@, j as int) == run_nonws(v@, i as int),
        decreases v.len() - j,
    {
        j = j + 1;
    }
    j
}

pub fn run_ws_exec(v: &[char], i: usize) -> (r: usize)
    requires
        i <= v@.len(),
    ensures
        r == run_ws(v@, i as int),
{
    let mut j = i;
    while j < v.len() && ws_char(v[j])
        invariant
            i <= j <= v@.len(),
            run_ws(v@, j as int) == run_ws(v@, i as int),
        decreases v.len() - j,
    {
        j = j + 1;
    }
    j
}

pub fn next_quote_exec(v: &[char], i: usize) -> (r: usize)
    requires
        i <= v@.len(),
    ensures
        r == next_quote(v@, i as int),
{
    let mut j = i;
    while j < v.len() && v[j] != '"'
        invariant
            i <= j <= v@.len(),
            next_quote(v@, j as int) == next_quote(v@, i as int),
        decreases v.len() - j,
    {
        j = j + 1;
    }
    j
}

fn match_at_exec(v: &[char], e: usize) -> (r: Option<(usize, bool)>)
    requires
        e <= v@.len(),
    ensures
        match r {
            Some((q, rest)) => match_at(v@, e as int) == Some((q as int, rest)),
            None => match_at(v@, e as int).is_none(),
        },
{
    if e < v.len() && e + 1 < v.len() && v[e] == '=' && v[e + 1] == '"' {
        let q = next_quote_exec(v, e + 2);
        proof {
            lemma_next_quote(v@, e + 2);
        }
        if q < v.len() {
            if q + 1 == v.len() {
                Some((q, false))
            } else if ws_char(v[q + 1]) {
                let w = run_ws_exec(v, q + 1);
                proof {
                    lemma_run_ws(v@, q + 1);
                }
                Some((q, w < v.len()))
            } else {
                None
            }
        } else {
            None
        }
    } else {
        None
    }
}

fn param_match_exec(v: &[char], i: usize) -> (r: Option<(usize, usize, bool)>)
    requires
        i <= v@.len(),
    ensures
        match r {
            Some((e, q, rest)) => param_match(v@, i as int) == Some((e as int, q as int, rest)),
            None => param_match(v@, i as int).is_none(),
        },
{
    let top = run_nonws_exec(v, i);
    proof {
        lemma_run_nonws(v@, i as int);
    }
    let mut e = top;
    while e > i
        invariant
            i <= e <= top <= v@.len(),
            top == run_nonws(v@, i as int),
            match_from(v@, i as int, top as int) == match_from(v@, i as int, e as int),
        decreases e - i,
    {
        match match_at_exec(v, e) {
            Some((q, rest)) => {
                return Some((e, q, rest));
            },
            None => {},
        }
        e = e - 1;
    }
    None
}

/// Parses one line of `lsblk -P` output into its parameters.
pub fn parse_lsblk_line(line: &str) -> (r: Result<ResultParams, MigError>)
    ensures
        match r {
            Ok(p) => parse_params(line@, 0) == Some(p@),
            Err(e) => parse_params(line@, 0).is_none() && e.kind == MigErrorKind::Displayed,
        },
{
    let v = chars_of(line);
    let ghost s = v@;
    let mut result: Vec<(String, String)> = Vec::new();
    let mut pos: usize = 0;
    loop
        invariant
            s == v@,
            s == line@,
            pos <= s.len(),
            parse_params(s, 0) == match parse_params(s, pos as int) {
                None => None,
                Some(ps) => Some(pairs_view(result@) + ps),
            },
        decreases s.len() - pos,
    {
        match param_match_exec(v.as_slice(), pos) {
            None => {
                return Err(MigError::displayed());
            },
            Some((e, q, rest)) => {
                proof {
                    lemma_run_nonws(s, pos as int);
                    assert(pos < e && e + 2 <= q && q < s.len()) by {
                        lemma_match_from_bounds(s, pos as int, run_nonws(s, pos as int));
                    }
                }
                let ghost old_result = result@;
                if q > e + 2 {
                    let name = string_from_chars(v.as_slice(), pos, e);
                    let value = string_from_chars(v.as_slice(), e + 2, q);
                    result.push((name, value));
                }
                let ghost here = if q > e + 2 {
                    seq![(s.subrange(pos as int, e as int), s.subrange(e + 2, q as int))]
                } else {
                    Seq::<(Seq<char>, Seq<char>)>::empty()
                };
                assert(pairs_view(result@) =~= pairs_view(old_result) + here);
                if rest {
                    let j = run_ws_exec(v.as_slice(), q + 1);
                    proof {
                        lemma_run_ws(s, q + 1);
                        match parse_params(s, j as int) {
                            None => {},
                            Some(ps) => {
                                assert(pairs_view(old_result) + (here + ps) =~= pairs_view(result@) + ps);
                            },
                        }
                    }
                    pos = j;
                } else {
                    assert(pairs_view(old_result) + here =~= pairs_view(result@));
                    return Ok(ResultParams::new(result));
                }
            },
        }
    }
}

proof fn lemma_match_from_bounds(s: Seq<char>, i: int, e: int)
    requires
        0 <= i,
        e <= s.len(),
        match_from(s, i, e).is_some(),
    ensures
        ({
            let (e1, q, _r) = match_from(s, i, e).unwrap();
            i < e1 <= e && e1 + 2 <= q < s.len() && match_at(s, e1).is_some()
        }),
    decreases e - i,
{
    if e > i {
        match match_at(s, e) {
            Some((q, r)) => {
                lemma_next_quote(s, e + 2);
            },
            None => {
                lemma_match_from_bounds(s, i, e - 1);
            },
        }
    }
}

} // verus!
