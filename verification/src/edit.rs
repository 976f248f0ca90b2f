use vstd::prelude::*;
use crate::lsblk_info::parse::{
    lemma_run_nonws, lemma_run_ws, run_nonws, run_nonws_exec, run_ws, run_ws_exec,
};
use crate::defs::BALENA_FILE_TAG;
use crate::text::{
    chars_of, is_ws, lines, push_char, push_str, starts_at, starts_at_exec, str_eq, string_from_chars,
    strings_view, text_lines, ws_char,
};

verus! {

// Text edits that the boot configuration files are written with: substring search, `str::replace`,
// `str::trim_end`, and the replacement of `key=value` kernel parameters.

/// `p` occurs in `s`.
pub open spec fn occurs_in(s: Seq<char>, p: Seq<char>) -> bool {
    exists|i: int| #[trigger] starts_at(s, i, p)
}

/// Decides `occurs_in`.
pub fn contains(s: &[char], p: &[char]) -> (r: bool)
    ensures
        r == occurs_in(s@, p@),
{
    if p.len() > s.len() {
        assert forall|i: int| !#[trigger] starts_at(s@, i, p@) by {}
        return false;
    }
    let last = s.len() - p.len();
    let mut i: usize = 0;
    while i < last
        invariant
            i <= last,
            last + p@.len() == s@.len(),
            forall|j: int| 0 <= j < i ==> !#[trigger] starts_at(s@, j, p@),
        decreases last - i,
    {
        if starts_at_exec(s, i, p) {
            return true;
        }
        i = i + 1;
    }
    if starts_at_exec(s, last, p) {
        return true;
    }
    assert forall|j: int| !#[trigger] starts_at(s@, j, p@) by {
        if 0 <= j < i {
        }
    }
    false
}

/// `s[i..]` with every occurrence of `f` replaced by `t`, scanning from the left and going on
/// after each replaced occurrence (what `str::replace` does for a non-empty pattern).
pub open spec fn replaced_from(s: Seq<char>, i: int, f: Seq<char>, t: Seq<char>) -> Seq<char>
    decreases s.len() - i,
{
    if 0 <= i < s.len() && f.len() > 0 {
        if starts_at(s, i, f) {
            t + replaced_from(s, i + f.len(), f, t)
        } else {
            seq![s[i]] + replaced_from(s, i + 1, f, t)
        }
    } else if 0 <= i <= s.len() {
        s.subrange(i, s.len() as int)
    } else {
        Seq::empty()
    }
}

/// `s` with every occurrence of `f` replaced by `t`.
pub open spec fn replaced(s: Seq<char>, f: Seq<char>, t: Seq<char>) -> Seq<char> {
    replaced_from(s, 0, f, t)
}

/// `str::replace` for a non-empty pattern.
pub fn replace_all(s: &str, f: &str, t: &str) -> (r: String)
    requires
        f@.len() > 0,
    ensures
        r@ == replaced(s@, f@, t@),
{
    let v = chars_of(s);
    let fv = chars_of(f);
    let mut r = String::new();
    let mut i: usize = 0;
    while i < v.len()
        invariant
            i <= v@.len(),
            v@ == s@,
            fv@ == f@,
            fv@.len() > 0,
            r@ + replaced_from(v@, i as int, fv@, t@) == replaced_from(v@, 0, fv@, t@),
        decreases v.len() - i,
    {
        let ghost before = r@;
        if starts_at_exec(&v, i, &fv) {
            push_str(&mut r, t);
            assert(before + (t@ + replaced_from(v@, i + fv@.len(), fv@, t@)) =~= r@
                + replaced_from(v@, i + fv@.len(), fv@, t@));
            i = i + fv.len();
        } else {
            push_char(&mut r, v[i]);
            assert(before + (seq![v@[i as int]] + replaced_from(v@, i + 1, fv@, t@)) =~= r@
                + replaced_from(v@, i + 1, fv@, t@));
            i = i + 1;
        }
    }
    assert(v@.subrange(i as int, v@.len() as int) =~= Seq::<char>::empty());
    assert(r@ + Seq::<char>::empty() =~= r@);
    r
}

/// `s` without its trailing whitespace (`str::trim_end`).
pub open spec fn trimmed_end(s: Seq<char>) -> Seq<char>
    decreases s.len(),
{
    if s.len() > 0 && is_ws(s.last()) {
        trimmed_end(s.drop_last())
    } else {
        s
    }
}

/// The length of `v` without its trailing whitespace.
pub fn trim_end_len(v: &[char]) -> (n: usize)
    ensures
        n <= v@.len(),
        v@.take(n as int) == trimmed_end(v@),
{
    let mut n = v.len();
    assert(v@.take(n as int) =~= v@);
    while n > 0 && ws_char(v[n - 1])
        invariant
            n <= v@.len(),
            trimmed_end(v@.take(n as int)) == trimmed_end(v@),
        decreases n,
    {
        assert(v@.take(n as int).drop_last() =~= v@.take(n - 1));
        n = n - 1;
    }
    n
}

/// A kernel parameter `key` followed by a non-empty value starts at `i` (the pattern
/// `key\S+(\s+|$)` matches there).
pub open spec fn kv_at(s: Seq<char>, i: int, key: Seq<char>) -> bool {
    starts_at(s, i, key) && i + key.len() < s.len() && !is_ws(s[i + key.len()])
}

/// Where the match of a parameter that starts at `i` ends: after its value and the whitespace
/// that follows it.
pub open spec fn kv_end(s: Seq<char>, i: int, key: Seq<char>) -> int {
    run_ws(s, run_nonws(s, i + key.len()))
}

/// The first position at or after `i` where a parameter `key` starts, or the length of `s`.
pub open spec fn first_kv(s: Seq<char>, i: int, key: Seq<char>) -> int
    decreases s.len() - i,
{
    if i < 0 || i >= s.len() {
        s.len() as int
    } else if kv_at(s, i, key) {
        i
    } else {
        first_kv(s, i + 1, key)
    }
}

/// `s` with its first parameter `key` (value and following whitespace included) replaced by
/// `rep` (`Regex::replace` with the pattern `key\S+(\s+|$)`).
pub open spec fn kv_replaced_first(s: Seq<char>, key: Seq<char>, rep: Seq<char>) -> Seq<char> {
    let p = first_kv(s, 0, key);
    if p < s.len() {
        s.take(p) + rep + s.skip(kv_end(s, p, key))
    } else {
        s
    }
}

/// `s[i..]` with every parameter `key` replaced by `rep` (`Regex::replace_all` with the pattern
/// `key\S+(\s+|$)`).
pub open spec fn kv_replaced_from(s: Seq<char>, i: int, key: Seq<char>, rep: Seq<char>) -> Seq<
    char,
>
    decreases s.len() - i,
{
    if 0 <= i < s.len() {
        if kv_at(s, i, key) {
            proof {
                lemma_kv_end(s, i, key);
            }
            rep + kv_replaced_from(s, kv_end(s, i, key), key, rep)
        } else {
            seq![s[i]] + kv_replaced_from(s, i + 1, key, rep)
        }
    } else {
        Seq::empty()
    }
}

/// A parameter match ends after its start and within the text.
pub proof fn lemma_kv_end(s: Seq<char>, i: int, key: Seq<char>)
    requires
        0 <= i,
        kv_at(s, i, key),
    ensures
        i + key.len() < kv_end(s, i, key) <= s.len(),
{
    let j = i + key.len();
    lemma_run_nonws(s, j);
    lemma_run_nonws(s, j + 1);
    lemma_run_ws(s, run_nonws(s, j));
}

fn kv_at_exec(s: &[char], i: usize, key: &[char]) -> (r: bool)
    requires
        i <= s@.len(),
    ensures
        r == kv_at(s@, i as int, key@),
{
    if !starts_at_exec(s, i, key) {
        return false;
    }
    let n = s.len();
    assert(i + key@.len() <= n);
    let j = i + key.len();
    j < s.len() && !ws_char(s[j])
}

fn kv_end_exec(s: &[char], i: usize, key: &[char]) -> (r: usize)
    requires
        kv_at(s@, i as int, key@),
    ensures
        r == kv_end(s@, i as int, key@),
        i + key@.len() < r <= s@.len(),
{
    proof {
        lemma_kv_end(s@, i as int, key@);
        lemma_run_nonws(s@, i + key@.len());
    }
    let n = s.len();
    assert(i + key@.len() <= n);
    let e = run_nonws_exec(s, i + key.len());
    run_ws_exec(s, e)
}

pub fn append_range(r: &mut Vec<char>, s: &[char], from: usize, to: usize)
    requires
        from <= to <= s@.len(),
    ensures
        final(r)@ == old(r)@ + s@.subrange(from as int, to as int),
{
    let mut k = from;
    while k < to
        invariant
            from <= k <= to <= s@.len(),
            r@ == old(r)@ + s@.subrange(from as int, k as int),
        decreases to - k,
    {
        r.push(s[k]);
        assert(old(r)@ + s@.subrange(from as int, k + 1) =~= old(r)@ + s@.subrange(
            from as int,
            k as int,
        ) + seq![s@[k as int]]);
        k = k + 1;
    }
}

fn first_kv_exec(s: &[char], key: &[char]) -> (p: usize)
    ensures
        p == first_kv(s@, 0, key@),
        p <= s@.len(),
{
    let mut i: usize = 0;
    while i < s.len()
        invariant
            i <= s@.len(),
            first_kv(s@, i as int, key@) == first_kv(s@, 0, key@),
        decreases s.len() - i,
    {
        if kv_at_exec(s, i, key) {
            return i;
        }
        i = i + 1;
    }
    i
}

/// Replaces the first parameter `key` of `s` by `rep`.
pub fn kv_replace_first(s: &[char], key: &[char], rep: &[char]) -> (r: Vec<char>)
    ensures
        r@ == kv_replaced_first(s@, key@, rep@),
{
    let p = first_kv_exec(s, key);
    let mut r: Vec<char> = Vec::new();
    if p < s.len() {
        proof {
            lemma_first_kv(s@, 0, key@);
        }
        let e = kv_end_exec(s, p, key);
        append_range(&mut r, s, 0, p);
        append_range(&mut r, rep, 0, rep.len());
        append_range(&mut r, s, e, s.len());
        assert(r@ =~= s@.take(p as int) + rep@ + s@.skip(e as int));
    } else {
        append_range(&mut r, s, 0, s.len());
        assert(r@ =~= s@);
    }
    r
}

proof fn lemma_first_kv(s: Seq<char>, i: int, key: Seq<char>)
    requires
        0 <= i,
    ensures
        first_kv(s, i, key) < s.len() ==> kv_at(s, first_kv(s, i, key), key),
        first_kv(s, i, key) <= s.len() || i > s.len(),
    decreases s.len() - i,
{
    if i < s.len() && !kv_at(s, i, key) {
        lemma_first_kv(s, i + 1, key);
    }
}

/// Replaces every parameter `key` of `s` by `rep`.
pub fn kv_replace_all(s: &[char], key: &[char], rep: &[char]) -> (r: Vec<char>)
    ensures
        r@ == kv_replaced_from(s@, 0, key@, rep@),
{
    let mut r: Vec<char> = Vec::new();
    let mut i: usize = 0;
    while i < s.len()
        invariant
            i <= s@.len(),
            r@ + kv_replaced_from(s@, i as int, key@, rep@) == kv_replaced_from(s@, 0, key@, rep@),
        decreases s.len() - i,
    {
        let ghost before = r@;
        if kv_at_exec(s, i, key) {
            let e = kv_end_exec(s, i, key);
            append_range(&mut r, rep, 0, rep.len());
            assert(rep@.subrange(0, rep@.len() as int) =~= rep@);
            assert(before + (rep@ + kv_replaced_from(s@, e as int, key@, rep@)) =~= r@
                + kv_replaced_from(s@, e as int, key@, rep@));
            i = e;
        } else {
            r.push(s[i]);
            assert(before + (seq![s@[i as int]] + kv_replaced_from(s@, i + 1, key@, rep@)) =~= r@
                + kv_replaced_from(s@, i + 1, key@, rep@));
            i = i + 1;
        }
    }
    assert(r@ + Seq::<char>::empty() =~= r@);
    r
}

/// The concatenation of two runs of characters.
pub fn cat(a: &[char], b: &[char]) -> (r: Vec<char>)
    ensures
        r@ == a@ + b@,
{
    let mut r: Vec<char> = Vec::new();
    append_range(&mut r, a, 0, a.len());
    append_range(&mut r, b, 0, b.len());
    assert(r@ =~= a@ + b@);
    r
}

/// The string that holds the characters of `v`.
pub fn string_of(v: &[char]) -> (r: String)
    ensures
        r@ == v@,
{
    let r = string_from_chars(v, 0, v.len());
    assert(v@.subrange(0, v@.len() as int) =~= v@);
    r
}

/// After leading whitespace, `s` starts with `w` (the pattern `^\s*w`).
pub open spec fn leads_with(s: Seq<char>, w: Seq<char>) -> bool {
    starts_at(s, run_ws(s, 0), w)
}

/// Decides `leads_with`.
pub fn leads_with_exec(s: &[char], w: &[char]) -> (r: bool)
    ensures
        r == leads_with(s@, w@),
{
    let i = run_ws_exec(s, 0);
    starts_at_exec(s, i, w)
}

proof fn lemma_replaced_from_absent(s: Seq<char>, i: int, f: Seq<char>, t: Seq<char>)
    requires
        0 <= i <= s.len(),
        f.len() > 0,
        !occurs_in(s, f),
    ensures
        replaced_from(s, i, f, t) == s.subrange(i, s.len() as int),
    decreases s.len() - i,
{
    if i < s.len() {
        assert(!starts_at(s, i, f));
        lemma_replaced_from_absent(s, i + 1, f, t);
        assert(seq![s[i]] + s.subrange(i + 1, s.len() as int) =~= s.subrange(i, s.len() as int));
    }
}

/// Replacing a pattern that does not occur leaves the text as it is.
pub proof fn lemma_replaced_absent(s: Seq<char>, f: Seq<char>, t: Seq<char>)
    requires
        f.len() > 0,
        !occurs_in(s, f),
    ensures
        replaced(s, f, t) == s,
{
    lemma_replaced_from_absent(s, 0, f, t);
    assert(s.subrange(0, s.len() as int) =~= s);
}

proof fn lemma_trimmed_end_shape(s: Seq<char>)
    ensures
        trimmed_end(s).len() == 0 || !is_ws(trimmed_end(s).last()),
    decreases s.len(),
{
    if s.len() > 0 && is_ws(s.last()) {
        lemma_trimmed_end_shape(s.drop_last());
    }
}

/// Trimming trailing whitespace twice trims no more than once.
pub proof fn lemma_trim_end_idempotent(s: Seq<char>)
    ensures
        trimmed_end(trimmed_end(s)) == trimmed_end(s),
{
    lemma_trimmed_end_shape(s);
}

proof fn lemma_replaced_from_shift(x: Seq<char>, y: Seq<char>, j: int, f: Seq<char>, t: Seq<char>)
    requires
        0 <= j <= y.len(),
        f.len() > 0,
    ensures
        replaced_from(x + y, x.len() + j, f, t) == replaced_from(y, j, f, t),
    decreases y.len() - j,
{
    let s = x + y;
    let i = x.len() + j;
    if j < y.len() {
        if i + f.len() <= s.len() {
            assert(s.subrange(i, i + f.len()) =~= y.subrange(j, j + f.len()));
        }
        assert(s[i] == y[j]);
        if starts_at(y, j, f) {
            lemma_replaced_from_shift(x, y, j + f.len(), f, t);
        } else {
            lemma_replaced_from_shift(x, y, j + 1, f, t);
        }
    } else {
        assert(s.subrange(i, s.len() as int) =~= y.subrange(j, y.len() as int));
    }
}

/// No occurrence of `f` in `x + y` crosses from `x` into `y`: the character on one side of the
/// seam does not occur in `f`.
pub open spec fn seam_free(x: Seq<char>, y: Seq<char>, f: Seq<char>) -> bool {
    ||| (y.len() > 0 && !f.contains(y[0]))
    ||| (x.len() > 0 && !f.contains(x.last()))
}

proof fn lemma_replaced_from_concat(x: Seq<char>, y: Seq<char>, i: int, f: Seq<char>, t: Seq<char>)
    requires
        0 <= i <= x.len(),
        f.len() > 0,
        seam_free(x, y, f),
    ensures
        replaced_from(x + y, i, f, t) == replaced_from(x, i, f, t) + replaced(y, f, t),
    decreases x.len() - i,
{
    let s = x + y;
    if i == x.len() {
        lemma_replaced_from_shift(x, y, 0, f, t);
        assert(x.subrange(i, x.len() as int) =~= Seq::<char>::empty());
        assert(replaced_from(x, i, f, t) + replaced(y, f, t) =~= replaced(y, f, t));
    } else {
        assert(s[i] == x[i]);
        if i + f.len() <= x.len() {
            assert(s.subrange(i, i + f.len()) =~= x.subrange(i, i + f.len()));
        } else if starts_at(s, i, f) {
            if y.len() > 0 && !f.contains(y[0]) {
                assert(s.subrange(i, i + f.len())[x.len() - i] == s[x.len() as int]);
                assert(f[x.len() - i] == y[0]);
            } else {
                assert(s.subrange(i, i + f.len())[x.len() - 1 - i] == s[x.len() - 1]);
                assert(f[x.len() - 1 - i] == x.last());
            }
        }
        if starts_at(x, i, f) {
            lemma_replaced_from_concat(x, y, i + f.len(), f, t);
            assert(t + (replaced_from(x, i + f.len(), f, t) + replaced(y, f, t)) =~= (t
                + replaced_from(x, i + f.len(), f, t)) + replaced(y, f, t));
        } else {
            lemma_replaced_from_concat(x, y, i + 1, f, t);
            assert(seq![s[i]] + (replaced_from(x, i + 1, f, t) + replaced(y, f, t)) =~= (seq![x[i]]
                + replaced_from(x, i + 1, f, t)) + replaced(y, f, t));
        }
    }
}

/// Where no occurrence of `f` crosses the seam, replacing in a concatenation replaces in each
/// part.
pub proof fn lemma_replaced_concat(x: Seq<char>, y: Seq<char>, f: Seq<char>, t: Seq<char>)
    requires
        f.len() > 0,
        seam_free(x, y, f),
    ensures
        replaced(x + y, f, t) == replaced(x, f, t) + replaced(y, f, t),
{
    lemma_replaced_from_concat(x, y, 0, f, t);
}

/// Replacing `f` in `f` itself gives the replacement.
pub proof fn lemma_replaced_whole(f: Seq<char>, t: Seq<char>)
    requires
        f.len() > 0,
    ensures
        replaced(f, f, t) == t,
{
    assert(f.subrange(0, f.len() as int) =~= f);
    assert(starts_at(f, 0, f));
    assert(replaced_from(f, f.len() as int, f, t) =~= Seq::<char>::empty());
    assert(replaced_from(f, 0, f, t) == t + replaced_from(f, f.len() as int, f, t));
    assert(t + Seq::<char>::empty() =~= t);
}

/// A text without the first character of `f` is left as it is by replacing `f`.
pub proof fn lemma_replaced_without_lead(w: Seq<char>, f: Seq<char>, t: Seq<char>)
    requires
        f.len() > 0,
        !w.contains(f[0]),
    ensures
        replaced(w, f, t) == w,
{
    assert forall|i: int| !#[trigger] starts_at(w, i, f) by {
        if starts_at(w, i, f) {
            assert(w.subrange(i, i + f.len())[0] == w[i]);
        }
    }
    lemma_replaced_absent(w, f, t);
}

/// Replacing `f` in a text with a fixed part `l + m + r` in it, whose outer parts `l` and `r` no
/// occurrence of `f` touches, replaces in the three pieces around and in the middle only.
pub proof fn lemma_replaced_frame(
    a: Seq<char>,
    l: Seq<char>,
    m: Seq<char>,
    r: Seq<char>,
    b: Seq<char>,
    f: Seq<char>,
    t: Seq<char>,
)
    requires
        f.len() > 0,
        l.len() > 0,
        r.len() > 0,
        !f.contains(l[0]),
        !f.contains(l.last()),
        !f.contains(r[0]),
        !f.contains(r.last()),
        replaced(l, f, t) == l,
        replaced(r, f, t) == r,
    ensures
        replaced(a + l + m + r + b, f, t) == replaced(a, f, t) + l + replaced(m, f, t) + r
            + replaced(b, f, t),
{
    let rb = r + b;
    let mrb = m + rb;
    let lmrb = l + mrb;
    assert(a + l + m + r + b =~= a + lmrb);
    lemma_replaced_concat(a, lmrb, f, t);
    lemma_replaced_concat(l, mrb, f, t);
    lemma_replaced_concat(m, rb, f, t);
    lemma_replaced_concat(r, b, f, t);
    assert(replaced(a, f, t) + (l + (replaced(m, f, t) + (r + replaced(b, f, t)))) =~= replaced(
        a,
        f,
        t,
    ) + l + replaced(m, f, t) + r + replaced(b, f, t));
}

/// Whether a text was written by the migrator: its first line is the tag.
pub fn is_balena_text(text: &str) -> (r: bool)
    ensures
        r == (text_lines(text@).len() > 0 && text_lines(text@)[0] == BALENA_FILE_TAG@),
{
    let ls = lines(text);
    if ls.len() == 0 {
        return false;
    }
    assert(strings_view(ls@)[0] == ls@[0]@);
    str_eq(ls[0].as_str(), BALENA_FILE_TAG)
}

} // verus!
