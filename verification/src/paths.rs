use vstd::prelude::*;
use crate::text::{chars_of, push_char, push_str, to_string};

verus! {

// A path is compared the way `std::path::Path` compares paths: by components. A component is
// the root (written "/"), a leading current directory (written ".") or a normal name; empty names
// and "." names between separators do not count.

/// `done` with the name `cur` added, unless `cur` is empty or ".".
pub open spec fn flush(done: Seq<Seq<char>>, cur: Seq<char>) -> Seq<Seq<char>> {
    if cur.len() > 0 && cur != seq!['.'] {
        done.push(cur)
    } else {
        done
    }
}

/// The normal names of `s` from position `i` on, given the names `done` and the partial name
/// `cur` found before `i`.
pub open spec fn fold_names(s: Seq<char>, i: int, done: Seq<Seq<char>>, cur: Seq<char>) -> Seq<Seq<char>>
    decreases s.len() - i,
{
    if i < 0 || i >= s.len() {
        flush(done, cur)
    } else if s[i] == '/' {
        fold_names(s, i + 1, flush(done, cur), Seq::empty())
    } else {
        fold_names(s, i + 1, done, cur.push(s[i]))
    }
}

/// The normal names of a path.
pub open spec fn path_names(s: Seq<char>) -> Seq<Seq<char>> {
    fold_names(s, 0, Seq::empty(), Seq::empty())
}

/// The first component of a path, when it is the root or a leading current directory.
pub open spec fn path_head(s: Seq<char>) -> Seq<Seq<char>> {
    if s.len() > 0 && s[0] == '/' {
        seq![seq!['/']]
    } else if s == seq!['.'] || (s.len() > 1 && s[0] == '.' && s[1] == '/') {
        seq![seq!['.']]
    } else {
        Seq::empty()
    }
}

/// The components of a path.
pub open spec fn path_components(s: Seq<char>) -> Seq<Seq<char>> {
    path_head(s) + path_names(s)
}

/// Two paths are equal as `Path`s.
pub open spec fn path_eq(a: Seq<char>, b: Seq<char>) -> bool {
    path_components(a) == path_components(b)
}

/// `a` starts with `base` as `Path::starts_with` decides it: the components of `base` are the
/// first components of `a`.
pub open spec fn path_starts_with(a: Seq<char>, base: Seq<char>) -> bool {
    let ca = path_components(a);
    let cb = path_components(base);
    cb.len() <= ca.len() && ca.take(cb.len() as int) == cb
}

/// The components of a path.
pub fn components(s: &[char]) -> (r: Vec<Vec<char>>)
    ensures
        r@.map_values(|c: Vec<char>| c@) == path_components(s@),
{
    let mut r: Vec<Vec<char>> = Vec::new();
    if s.len() > 0 && s[0] == '/' {
        let mut root: Vec<char> = Vec::new();
        root.push('/');
        r.push(root);
        assert(r@.map_values(|c: Vec<char>| c@) =~= path_head(s@));
    } else if (s.len() == 1 && s[0] == '.') || (s.len() > 1 && s[0] == '.' && s[1] == '/') {
        let mut dot: Vec<char> = Vec::new();
        dot.push('.');
        r.push(dot);
        proof {
            if s@.len() == 1 {
                assert(s@ =~= seq!['.']);
            }
        }
        assert(r@.map_values(|c: Vec<char>| c@) =~= path_head(s@));
    } else {
        proof {
            if s@ == seq!['.'] {
                assert(s@.len() == 1 && s@[0] == '.');
            }
        }
        assert(r@.map_values(|c: Vec<char>| c@) =~= path_head(s@));
    }
    let ghost head = path_head(s@);
    let mut cur: Vec<char> = Vec::new();
    assert(r@.map_values(|c: Vec<char>| c@).skip(head.len() as int) =~= Seq::<Seq<char>>::empty());
    assert(cur@ =~= Seq::<char>::empty());
    assert(r@.map_values(|c: Vec<char>| c@).take(head.len() as int) =~= head);
    let mut i: usize = 0;
    while i < s.len()
        invariant
            i <= s@.len(),
            head == path_head(s@),
            head + fold_names(s@, i as int, r@.map_values(|c: Vec<char>| c@).skip(head.len() as int), cur@)
                == path_components(s@),
            head.len() <= r@.len(),
            r@.map_values(|c: Vec<char>| c@).take(head.len() as int) == head,
        decreases s.len() - i,
    {
        let ghost before = r@.map_values(|c: Vec<char>| c@).skip(head.len() as int);
        if s[i] == '/' {
            if cur.len() > 0 && !(cur.len() == 1 && cur[0] == '.') {
                let ghost c = cur@;
                r.push(cur);
                proof {
                    assert(c != seq!['.']) by {
                        if c == seq!['.'] {
                            assert(c.len() == 1 && c[0] == '.');
                        }
                    }
                    assert(r@.map_values(|c: Vec<char>| c@).skip(head.len() as int) =~= before.push(c));
                    assert(r@.map_values(|c: Vec<char>| c@).take(head.len() as int) =~= head);
                }
            } else {
                proof {
                    if cur@.len() == 1 && cur@[0] == '.' {
                        assert(cur@ =~= seq!['.']);
                    }
                }
            }
            cur = Vec::new();
        } else {
            cur.push(s[i]);
        }
        i = i + 1;
    }
    let ghost before = r@.map_values(|c: Vec<char>| c@).skip(head.len() as int);
    if cur.len() > 0 && !(cur.len() == 1 && cur[0] == '.') {
        let ghost c = cur@;
        r.push(cur);
        proof {
            assert(c != seq!['.']) by {
                if c == seq!['.'] {
                    assert(c.len() == 1 && c[0] == '.');
                }
            }
            assert(r@.map_values(|c: Vec<char>| c@).skip(head.len() as int) =~= before.push(c));
            assert(r@.map_values(|c: Vec<char>| c@).take(head.len() as int) =~= head);
        }
    } else {
        proof {
            if cur@.len() == 1 && cur@[0] == '.' {
                assert(cur@ =~= seq!['.']);
            }
        }
    }
    proof {
        let m = r@.map_values(|c: Vec<char>| c@);
        assert(m =~= m.take(head.len() as int) + m.skip(head.len() as int));
    }
    r
}

fn chars_eq(a: &Vec<char>, b: &Vec<char>) -> (r: bool)
    ensures
        r == (a@ == b@),
{
    if a.len() != b.len() {
        return false;
    }
    let mut i: usize = 0;
    while i < a.len()
        invariant
            a@.len() == b@.len(),
            i <= a@.len(),
            forall|k: int| 0 <= k < i ==> a@[k] == b@[k],
        decreases a.len() - i,
    {
        if a[i] != b[i] {
            return false;
        }
        i = i + 1;
    }
    assert(a@ =~= b@);
    true
}

/// Decides whether the first `n` components of `a` are those of `b`.
fn comps_prefix(a: &Vec<Vec<char>>, b: &Vec<Vec<char>>, n: usize) -> (r: bool)
    requires
        n <= a@.len(),
        n <= b@.len(),
    ensures
        r == (a@.map_values(|c: Vec<char>| c@).take(n as int) == b@.map_values(|c: Vec<char>| c@).take(n as int)),
{
    let ghost va = a@.map_values(|c: Vec<char>| c@);
    let ghost vb = b@.map_values(|c: Vec<char>| c@);
    let mut i: usize = 0;
    while i < n
        invariant
            n <= a@.len(),
            n <= b@.len(),
            i <= n,
            va == a@.map_values(|c: Vec<char>| c@),
            vb == b@.map_values(|c: Vec<char>| c@),
            forall|k: int| 0 <= k < i ==> va[k] == vb[k],
        decreases n - i,
    {
        if !chars_eq(&a[i], &b[i]) {
            assert(va.take(n as int)[i as int] != vb.take(n as int)[i as int]);
            return false;
        }
        i = i + 1;
    }
    assert(va.take(n as int) =~= vb.take(n as int));
    true
}

/// Whether two paths are equal as `Path`s.
pub fn path_equal(a: &[char], b: &[char]) -> (r: bool)
    ensures
        r == path_eq(a@, b@),
{
    let ca = components(a);
    let cb = components(b);
    if ca.len() != cb.len() {
        proof {
            let va = ca@.map_values(|c: Vec<char>| c@);
            let vb = cb@.map_values(|c: Vec<char>| c@);
            assert(va.len() != vb.len());
        }
        return false;
    }
    let r = comps_prefix(&ca, &cb, ca.len());
    proof {
        let va = ca@.map_values(|c: Vec<char>| c@);
        let vb = cb@.map_values(|c: Vec<char>| c@);
        assert(va.take(va.len() as int) =~= va);
        assert(vb.take(vb.len() as int) =~= vb);
    }
    r
}

/// Whether `a` starts with `base`, as `Path::starts_with` decides it.
pub fn path_has_prefix(a: &[char], base: &[char]) -> (r: bool)
    ensures
        r == path_starts_with(a@, base@),
{
    let ca = components(a);
    let cb = components(base);
    if cb.len() > ca.len() {
        return false;
    }
    let r = comps_prefix(&ca, &cb, cb.len());
    proof {
        let vb = cb@.map_values(|c: Vec<char>| c@);
        assert(vb.take(vb.len() as int) =~= vb);
    }
    r
}

} // verus!

verus! {

/// The last component of a path when it is a normal name other than "..", as
/// `Path::file_name` gives it.
pub open spec fn path_file_name(s: Seq<char>) -> Option<Seq<char>> {
    let c = path_components(s);
    if c.len() > 0 && c.last() != seq!['/'] && c.last() != seq!['.'] && c.last() != seq!['.', '.'] {
        Some(c.last())
    } else {
        None
    }
}

/// The file name of a path (`Path::file_name`).
pub fn file_name(s: &[char]) -> (r: Option<Vec<char>>)
    ensures
        match r {
            Some(n) => path_file_name(s@) == Some(n@),
            None => path_file_name(s@).is_none(),
        },
{
    let mut c = components(s);
    let ghost cv = c@.map_values(|x: Vec<char>| x@);
    if c.len() == 0 {
        return None;
    }
    let last = c.pop().unwrap();
    assert(last@ == cv.last());
    let is_root = last.len() == 1 && last[0] == '/';
    let is_dot = last.len() == 1 && last[0] == '.';
    let is_dotdot = last.len() == 2 && last[0] == '.' && last[1] == '.';
    proof {
        if last@ == seq!['/'] { assert(is_root); }
        if last@ == seq!['.'] { assert(is_dot); }
        if last@ == seq!['.', '.'] { assert(is_dotdot); }
        if is_root { assert(last@ =~= seq!['/']); }
        if is_dot { assert(last@ =~= seq!['.']); }
        if is_dotdot { assert(last@ =~= seq!['.', '.']); }
    }
    if is_root || is_dot || is_dotdot {
        None
    } else {
        Some(last)
    }
}

/// `base` joined with `p` as `Path::join` does it: an absolute `p` replaces `base`, else a
/// separator is put between them where `base` does not end in one.
pub open spec fn path_join(base: Seq<char>, p: Seq<char>) -> Seq<char> {
    if p.len() > 0 && p[0] == '/' {
        p
    } else if base.len() > 0 && base.last() != '/' {
        base + seq!['/'] + p
    } else {
        base + p
    }
}

/// Joins two paths (`Path::join`).
pub fn join(base: &str, p: &str) -> (r: String)
    ensures
        r@ == path_join(base@, p@),
{
    let b = chars_of(base);
    let q = chars_of(p);
    if q.len() > 0 && q[0] == '/' {
        return to_string(p);
    }
    let mut r = to_string(base);
    if b.len() > 0 && b[b.len() - 1] != '/' {
        push_char(&mut r, '/');
    }
    push_str(&mut r, p);
    r
}

/// The position of the last `.` before `i` in `f`, or -1.
pub open spec fn last_dot(f: Seq<char>, i: int) -> int
    decreases i,
{
    if i <= 0 {
        -1
    } else if f[i - 1] == '.' {
        i - 1
    } else {
        last_dot(f, i - 1)
    }
}

/// The extension of a path as `Path::extension` gives it: what follows the last `.` of the file
/// name, where that `.` does not start the name.
pub open spec fn path_extension(s: Seq<char>) -> Option<Seq<char>> {
    match path_file_name(s) {
        Some(f) => {
            let k = last_dot(f, f.len() as int);
            if k > 0 {
                Some(f.skip(k + 1))
            } else {
                None
            }
        },
        None => None,
    }
}

proof fn lemma_last_dot(f: Seq<char>, i: int)
    requires
        0 <= i <= f.len(),
    ensures
        -1 <= last_dot(f, i) < i,
    decreases i,
{
    if i > 0 && f[i - 1] != '.' {
        lemma_last_dot(f, i - 1);
    }
}

/// The extension of a path (`Path::extension`).
pub fn extension(s: &[char]) -> (r: Option<Vec<char>>)
    ensures
        match r {
            Some(e) => path_extension(s@) == Some(e@),
            None => path_extension(s@).is_none(),
        },
{
    match file_name(s) {
        None => None,
        Some(f) => {
            let mut i = f.len();
            while i > 0 && f[i - 1] != '.'
                invariant
                    i <= f@.len(),
                    last_dot(f@, i as int) == last_dot(f@, f@.len() as int),
                decreases i,
            {
                i = i - 1;
            }
            proof {
                lemma_last_dot(f@, f@.len() as int);
            }
            if i > 1 {
                let mut e: Vec<char> = Vec::new();
                let mut k = i;
                while k < f.len()
                    invariant
                        i <= k <= f@.len(),
                        e@ == f@.subrange(i as int, k as int),
                    decreases f.len() - k,
                {
                    e.push(f[k]);
                    assert(f@.subrange(i as int, k + 1) =~= f@.subrange(i as int, k as int).push(
                        f@[k as int],
                    ));
                    k = k + 1;
                }
                assert(f@.subrange(i as int, f@.len() as int) =~= f@.skip(i as int));
                Some(e)
            } else {
                None
            }
        },
    }
}

} // verus!
