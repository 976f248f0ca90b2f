use vstd::prelude::*;
use crate::lsblk_info::parse::{match_at, match_from, next_quote, param_match, parse_params, run_nonws, run_ws};
use crate::text::is_ws;

verus! {

// How `lsblk -P` prints parameters, and the law that reading a printed line gives the
// parameters back.

/// One parameter as `lsblk -P` prints it: `NAME="value"`.
pub open spec fn render_param(p: (Seq<char>, Seq<char>)) -> Seq<char> {
    p.0 + seq!['=', '"'] + p.1 + seq!['"']
}

/// Parameters printed on one line, separated by a space.
pub open spec fn render_params(ps: Seq<(Seq<char>, Seq<char>)>) -> Seq<char>
    decreases ps.len(),
{
    if ps.len() == 0 {
        Seq::empty()
    } else if ps.len() == 1 {
        render_param(ps[0])
    } else {
        render_param(ps[0]) + seq![' '] + render_params(ps.skip(1))
    }
}

/// The parameters with a non-empty value, in order.
pub open spec fn with_values(ps: Seq<(Seq<char>, Seq<char>)>) -> Seq<(Seq<char>, Seq<char>)>
    decreases ps.len(),
{
    if ps.len() == 0 {
        Seq::empty()
    } else {
        (if ps[0].1.len() > 0 {
            seq![ps[0]]
        } else {
            Seq::empty()
        }) + with_values(ps.skip(1))
    }
}

/// A parameter that reads back as printed: a non-empty name without whitespace or quotes, and a
/// value without quotes or `=`.
pub open spec fn printable(p: (Seq<char>, Seq<char>)) -> bool {
    &&& p.0.len() > 0
    &&& forall|k: int| 0 <= k < p.0.len() ==> !is_ws(#[trigger] p.0[k]) && p.0[k] != '"'
    &&& forall|k: int| 0 <= k < p.1.len() ==> #[trigger] p.1[k] != '"' && p.1[k] != '='
}

proof fn lemma_shift_run_nonws(s: Seq<char>, k: int, i: int)
    requires
        0 <= k <= s.len(),
        0 <= i <= s.len() - k,
    ensures
        run_nonws(s, k + i) == k + run_nonws(s.skip(k), i),
    decreases s.len() - k - i,
{
    if i < s.len() - k && !is_ws(s[k + i]) {
        assert(s.skip(k)[i] == s[k + i]);
        lemma_shift_run_nonws(s, k, i + 1);
    } else if i < s.len() - k {
        assert(s.skip(k)[i] == s[k + i]);
    }
}

proof fn lemma_shift_run_ws(s: Seq<char>, k: int, i: int)
    requires
        0 <= k <= s.len(),
        0 <= i <= s.len() - k,
    ensures
        run_ws(s, k + i) == k + run_ws(s.skip(k), i),
    decreases s.len() - k - i,
{
    if i < s.len() - k && is_ws(s[k + i]) {
        assert(s.skip(k)[i] == s[k + i]);
        lemma_shift_run_ws(s, k, i + 1);
    } else if i < s.len() - k {
        assert(s.skip(k)[i] == s[k + i]);
    }
}

proof fn lemma_shift_next_quote(s: Seq<char>, k: int, i: int)
    requires
        0 <= k <= s.len(),
        0 <= i <= s.len() - k,
    ensures
        next_quote(s, k + i) == k + next_quote(s.skip(k), i),
    decreases s.len() - k - i,
{
    if i < s.len() - k && s[k + i] != '"' {
        assert(s.skip(k)[i] == s[k + i]);
        lemma_shift_next_quote(s, k, i + 1);
    } else if i < s.len() - k {
        assert(s.skip(k)[i] == s[k + i]);
    }
}

/// Two matches agree up to a shift of `k`.
pub open spec fn shifted_match(a: Option<(int, bool)>, b: Option<(int, bool)>, k: int) -> bool {
    match (a, b) {
        (Some((q1, r1)), Some((q2, r2))) => q1 == q2 + k && r1 == r2,
        (None, None) => true,
        _ => false,
    }
}

/// Two parameter matches agree up to a shift of `k`.
pub open spec fn shifted_param(a: Option<(int, int, bool)>, b: Option<(int, int, bool)>, k: int) -> bool {
    match (a, b) {
        (Some((e1, q1, r1)), Some((e2, q2, r2))) => e1 == e2 + k && q1 == q2 + k && r1 == r2,
        (None, None) => true,
        _ => false,
    }
}

proof fn lemma_shift_match_at(s: Seq<char>, k: int, e: int)
    requires
        0 <= k <= s.len(),
        0 <= e <= s.len() - k,
    ensures
        shifted_match(match_at(s, k + e), match_at(s.skip(k), e), k),
{
    let t = s.skip(k);
    if e + 1 < t.len() {
        assert(t[e] == s[k + e] && t[e + 1] == s[k + e + 1]);
        if s[k + e] == '=' && s[k + e + 1] == '"' {
            lemma_shift_next_quote(s, k, e + 2);
            let q = next_quote(t, e + 2);
            crate::lsblk_info::parse::lemma_next_quote(t, e + 2);
            if q + 1 < t.len() {
                assert(t[q + 1] == s[k + q + 1]);
                lemma_shift_run_ws(s, k, q + 1);
            }
        }
    }
}

proof fn lemma_shift_match_from(s: Seq<char>, k: int, i: int, e: int)
    requires
        0 <= k <= s.len(),
        0 <= i,
        e <= s.len() - k,
    ensures
        shifted_param(match_from(s, k + i, k + e), match_from(s.skip(k), i, e), k),
    decreases e - i,
{
    if e > i {
        lemma_shift_match_at(s, k, e);
        match match_at(s.skip(k), e) {
            Some(_) => {},
            None => {
                lemma_shift_match_from(s, k, i, e - 1);
            },
        }
    }
}

/// Reading parameters from position `k + i` of `s` is reading them from position `i` of the
/// rest of `s` after `k`.
proof fn lemma_shift_parse(s: Seq<char>, k: int, i: int)
    requires
        0 <= k <= s.len(),
        0 <= i <= s.len() - k,
    ensures
        parse_params(s, k + i) == parse_params(s.skip(k), i),
    decreases s.len() - k - i,
{
    let t = s.skip(k);
    lemma_shift_run_nonws(s, k, i);
    crate::lsblk_info::parse::lemma_run_nonws(t, i);
    lemma_shift_match_from(s, k, i, run_nonws(t, i));
    assert(shifted_param(param_match(s, k + i), param_match(t, i), k));
    match param_match(t, i) {
        None => {},
        Some((e, q, rest)) => {
            lemma_match_from_range(t, i, run_nonws(t, i));
            assert(s.subrange(k + i, k + e) =~= t.subrange(i, e));
            assert(s.subrange(k + e + 2, k + q) =~= t.subrange(e + 2, q));
            if rest {
                lemma_shift_run_ws(s, k, q + 1);
                let j = run_ws(t, q + 1);
                crate::lsblk_info::parse::lemma_run_ws(t, q + 1);
                if i < j <= t.len() {
                    lemma_shift_parse(s, k, j);
                }
            }
        },
    }
}

proof fn lemma_match_from_range(s: Seq<char>, i: int, e: int)
    requires
        0 <= i,
        e <= s.len(),
        match_from(s, i, e) is Some,
    ensures
        ({
            let (e1, q, _r) = match_from(s, i, e)->0;
            i < e1 <= e && e1 + 2 <= q < s.len()
        }),
    decreases e - i,
{
    if e > i {
        match match_at(s, e) {
            Some(_) => {
                crate::lsblk_info::parse::lemma_next_quote(s, e + 2);
            },
            None => {
                lemma_match_from_range(s, i, e - 1);
            },
        }
    }
}

proof fn lemma_run_nonws_stops(s: Seq<char>, i: int)
    requires
        0 <= i <= s.len(),
    ensures
        run_nonws(s, i) < s.len() ==> is_ws(s[run_nonws(s, i)]),
    decreases s.len() - i,
{
    if i < s.len() && !is_ws(s[i]) {
        lemma_run_nonws_stops(s, i + 1);
    }
}

proof fn lemma_next_quote_at(s: Seq<char>, i: int, q: int)
    requires
        0 <= i <= q < s.len(),
        s[q] == '"',
        forall|k: int| i <= k < q ==> s[k] != '"',
    ensures
        next_quote(s, i) == q,
    decreases q - i,
{
    if i < q {
        lemma_next_quote_at(s, i + 1, q);
    }
}

proof fn lemma_match_from_down(s: Seq<char>, i: int, e: int, n: int)
    requires
        i <= n <= e,
        forall|x: int| n < x <= e ==> match_at(s, x) is None,
    ensures
        match_from(s, i, e) == match_from(s, i, n),
    decreases e - n,
{
    if e > n {
        lemma_match_from_down(s, i, e - 1, n);
    }
}

proof fn lemma_render_starts(ps: Seq<(Seq<char>, Seq<char>)>)
    requires
        ps.len() > 0,
    ensures
        render_params(ps).len() >= render_param(ps[0]).len(),
        render_params(ps).take(render_param(ps[0]).len() as int) == render_param(ps[0]),
{
    let r = render_params(ps);
    let p0 = render_param(ps[0]);
    if ps.len() == 1 {
        assert(r.take(p0.len() as int) =~= p0);
    } else {
        assert(r.take(p0.len() as int) =~= p0);
    }
}

/// Printing parameters on a line as `lsblk -P` does and reading the line back gives the
/// parameters with a value, in order, where every name is non-empty without whitespace or
/// quotes and no value holds a quote or `=`.
pub proof fn lemma_render_parse(ps: Seq<(Seq<char>, Seq<char>)>)
    requires
        ps.len() > 0,
        forall|i: int| 0 <= i < ps.len() ==> printable(#[trigger] ps[i]),
    ensures
        parse_params(render_params(ps), 0) == Some(with_values(ps)),
    decreases ps.len(),
{
    let p = ps[0];
    assert(printable(p));
    let name = p.0;
    let value = p.1;
    let n = name.len() as int;
    let v = value.len() as int;
    let p0 = render_param(p);
    let s = render_params(ps);
    assert(p0.len() == n + v + 3);
    lemma_render_starts(ps);
    assert forall|k: int| 0 <= k < p0.len() implies s[k] == p0[k] by {
        assert(s.take(p0.len() as int)[k] == s[k]);
    }
    assert forall|k: int| 0 <= k < n implies s[k] == name[k] && !is_ws(s[k]) by {
        assert(p0[k] == name[k]);
    }
    assert(s[n] == '=' && s[n + 1] == '"') by {
        assert(p0[n] == '=' && p0[n + 1] == '"');
    }
    assert forall|j: int| 0 <= j < v implies s[n + 2 + j] == value[j] by {
        assert(p0[n + 2 + j] == value[j]);
    }
    assert(s[n + v + 2] == '"') by {
        assert(p0[n + v + 2] == '"');
    }
    // the run of non-whitespace from the start covers the name, `="` and no more than the
    // closing quote
    let r = run_nonws(s, 0);
    crate::lsblk_info::parse::lemma_run_nonws(s, 0);
    lemma_run_nonws_stops(s, 0);
    if r < n + 2 {
        assert(!is_ws(s[r]));
    }
    if ps.len() > 1 {
        assert(s[n + v + 3] == ' ');
        assert(is_ws(' '));
        if r > n + v + 3 {
            assert(!is_ws(s[n + v + 3]));
        }
    }
    assert(r <= n + v + 3);
    // no place after the name's end makes a match
    assert forall|x: int| n < x <= r implies match_at(s, x) is None by {
        if x == n + 1 || x == n + v + 2 {
        } else if n + 2 <= x < n + v + 2 {
            assert(s[x] == value[x - n - 2]);
            assert(value[x - n - 2] != '=');
        } else if x == n + v + 3 && x + 1 < s.len() {
            assert(s[x] == ' ');
        }
    }
    lemma_match_from_down(s, 0, r, n);
    lemma_next_quote_at(s, n + 2, n + v + 2);
    let q = n + v + 2;
    assert(s.subrange(0, n) =~= name);
    assert(s.subrange(n + 2, q) =~= value);
    if ps.len() == 1 {
        assert(s.len() == n + v + 3);
        assert(param_match(s, 0) == Some((n, q, false)));
        assert(with_values(ps.skip(1)) =~= Seq::<(Seq<char>, Seq<char>)>::empty());
        assert(with_values(ps) =~= (if v > 0 { seq![p] } else { Seq::empty() }));
        if v > 0 {
            assert(seq![(s.subrange(0, n), s.subrange(n + 2, q))] =~= seq![p]);
        }
    } else {
        let rest = ps.skip(1);
        let rs = render_params(rest);
        assert(s == p0 + seq![' '] + rs);
        assert(s.skip(n + v + 4) =~= rs);
        assert forall|i: int| 0 <= i < rest.len() implies printable(#[trigger] rest[i]) by {
            assert(rest[i] == ps[i + 1]);
        }
        lemma_render_starts(rest);
        assert(printable(rest[0]));
        assert(rest[0].0.len() > 0);
        assert(rs[0] == render_param(rest[0])[0]) by {
            assert(rs.take(render_param(rest[0]).len() as int)[0] == rs[0]);
        }
        assert(render_param(rest[0])[0] == rest[0].0[0]);
        assert(!is_ws(rest[0].0[0]));
        assert(s[n + v + 4] == rs[0]);
        assert(run_ws(s, n + v + 4) == n + v + 4);
        assert(run_ws(s, n + v + 3) == n + v + 4);
        assert(param_match(s, 0) == Some((n, q, true)));
        lemma_shift_parse(s, n + v + 4, 0);
        lemma_render_parse(rest);
        let here = if q > n + 2 {
            seq![(s.subrange(0, n), s.subrange(n + 2, q))]
        } else {
            Seq::<(Seq<char>, Seq<char>)>::empty()
        };
        assert(parse_params(s, 0) == Some(here + with_values(rest)));
        if v > 0 {
            assert(here =~= seq![p]);
        } else {
            assert(here =~= Seq::<(Seq<char>, Seq<char>)>::empty());
        }
    }
}

} // verus!
