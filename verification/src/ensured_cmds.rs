use vstd::prelude::*;
use crate::defs::{MigError, MigErrorKind};
use crate::lsblk_info::result_params::{lookup, pairs_view};
use crate::text::{str_eq, to_string};

verus! {

/// The commands the migrator needs, each with the path where it was found.
#[derive(Debug)]
pub struct EnsuredCmds {
    cmd_table: Vec<(String, String)>,
}

impl View for EnsuredCmds {
    type V = Seq<(Seq<char>, Seq<char>)>;

    closed spec fn view(&self) -> Seq<(Seq<char>, Seq<char>)> {
        pairs_view(self.cmd_table@)
    }
}

/// The path recorded for `cmd`, if any.
pub open spec fn cmd_path(t: Seq<(Seq<char>, Seq<char>)>, cmd: Seq<char>) -> Option<Seq<char>> {
    lookup(t, cmd)
}

/// The table `t` after the lookups of the commands `cmds`, where `found[i]` is what the search
/// for `cmds[i]` gave; a command already in the table is not searched again.
pub open spec fn ensure_all(
    t: Seq<(Seq<char>, Seq<char>)>,
    cmds: Seq<Seq<char>>,
    found: Seq<Option<Seq<char>>>,
    n: int,
) -> Seq<(Seq<char>, Seq<char>)>
    decreases n,
{
    if n <= 0 {
        t
    } else {
        let prev = ensure_all(t, cmds, found, n - 1);
        if cmd_path(prev, cmds[n - 1]) is Some {
            prev
        } else {
            match found[n - 1] {
                Some(p) => prev.push((cmds[n - 1], p)),
                None => prev,
            }
        }
    }
}

/// Some command of `cmds` stayed unknown: it was not in the table and its search found nothing.
pub open spec fn some_missing(
    t: Seq<(Seq<char>, Seq<char>)>,
    cmds: Seq<Seq<char>>,
    found: Seq<Option<Seq<char>>>,
) -> bool {
    exists|i: int|
        0 <= i < cmds.len() && cmd_path(ensure_all(t, cmds, found, i), #[trigger] cmds[i]) is None
            && found[i] is None
}

/// The views of a list of string slices.
pub open spec fn strs_view(v: Seq<&str>) -> Seq<Seq<char>> {
    v.map_values(|x: &str| x@)
}

/// The views of a list of optional strings.
pub open spec fn opt_strings_view(v: Seq<Option<String>>) -> Seq<Option<Seq<char>>> {
    v.map_values(|x: Option<String>| match x {
        Some(s) => Some(s@),
        None => None,
    })
}

impl EnsuredCmds {
    /// An empty command table.
    pub fn new() -> (r: EnsuredCmds)
        ensures
            r@ == Seq::<(Seq<char>, Seq<char>)>::empty(),
    {
        EnsuredCmds { cmd_table: Vec::new() }
    }

    /// Records the commands `cmds`; `found[i]` is where the search for `cmds[i]` found it.
    /// Every command is recorded that can be; the result is an error when one could not.
    pub fn ensure_cmds(&mut self, cmds: &[&str], found: &[Option<String>]) -> (r: Result<(), MigError>)
        requires
            found@.len() == cmds@.len(),
        ensures
            final(self)@ == ensure_all(old(self)@, strs_view(cmds@), opt_strings_view(found@), cmds@.len() as int),
            r is Ok <==> !some_missing(old(self)@, strs_view(cmds@), opt_strings_view(found@)),
            r matches Err(e) ==> e.kind == MigErrorKind::NotFound,
    {
        let ghost t0 = self@;
        let ghost cs = strs_view(cmds@);
        let ghost fs = opt_strings_view(found@);
        let mut result: Result<(), MigError> = Ok(());
        let mut i: usize = 0;
        while i < cmds.len()
            invariant
                i <= cmds@.len(),
                found@.len() == cmds@.len(),
                cs == strs_view(cmds@),
                fs == opt_strings_view(found@),
                self@ == ensure_all(t0, cs, fs, i as int),
                result is Ok <==> !exists|k: int|
                    0 <= k < i && cmd_path(ensure_all(t0, cs, fs, k), #[trigger] cs[k]) is None && fs[k] is None,
                result matches Err(e) ==> e.kind == MigErrorKind::NotFound,
            decreases cmds.len() - i,
        {
            let cmd = cmds[i];
            assert(cs[i as int] == cmd@);
            if !self.has(cmd) {
                match &found[i] {
                    Some(path) => {
                        let ghost before = self.cmd_table@;
                        self.cmd_table.push((to_string(cmd), path.clone()));
                        assert(pairs_view(self.cmd_table@) =~= pairs_view(before).push((cmd@, path@)));
                    },
                    None => {
                        result = Err(MigError::from_kind(MigErrorKind::NotFound));
                    },
                }
            }
            i = i + 1;
        }
        result
    }

    /// Records `cmd` at `found`, the result of searching for it; the search is made whether or
    /// not the command is already known.
    pub fn ensure(&mut self, cmd: &str, found: Option<String>) -> (r: Result<String, MigError>)
        ensures
            match found {
                Some(p) => final(self)@ == old(self)@.push((cmd@, p@)) && (r matches Ok(q) && q@ == p@),
                None => final(self)@ == old(self)@ && r == Err::<String, MigError>(MigError { kind: MigErrorKind::NotFound }),
            },
    {
        match found {
            Some(path) => {
                let ghost before = self.cmd_table@;
                let result = path.clone();
                self.cmd_table.push((to_string(cmd), path));
                assert(pairs_view(self.cmd_table@) =~= pairs_view(before).push((cmd@, result@)));
                Ok(result)
            },
            None => Err(MigError::from_kind(MigErrorKind::NotFound)),
        }
    }

    /// Whether `cmd` has been recorded.
    pub fn has(&self, cmd: &str) -> (r: bool)
        ensures
            r == cmd_path(self@, cmd@) is Some,
    {
        match self.find(cmd) {
            Some(_) => true,
            None => false,
        }
    }

    /// The path recorded for `cmd`.
    pub fn get(&self, cmd: &str) -> (r: Result<&str, MigError>)
        ensures
            match r {
                Ok(p) => cmd_path(self@, cmd@) == Some(p@),
                Err(e) => cmd_path(self@, cmd@) is None && e.kind == MigErrorKind::InvParam,
            },
    {
        match self.find(cmd) {
            Some(i) => Ok(self.cmd_table[i].1.as_str()),
            None => Err(MigError::from_kind(MigErrorKind::InvParam)),
        }
    }

    /// The command line that runs the checked command `cmd` with `args`: its recorded path
    /// followed by the arguments. A command that was not checked is refused.
    pub fn call(&self, cmd: &str, args: &[&str]) -> (r: Result<Vec<String>, MigError>)
        ensures
            match cmd_path(self@, cmd@) {
                Some(p) => r matches Ok(argv) && crate::text::strings_view(argv@) == seq![p] + strs_view(args@),
                None => r == Err::<Vec<String>, MigError>(MigError { kind: MigErrorKind::InvParam }),
            },
    {
        let path = match self.get(cmd) {
            Ok(p) => p,
            Err(e) => {
                return Err(e);
            },
        };
        let mut argv: Vec<String> = Vec::new();
        argv.push(to_string(path));
        let mut i: usize = 0;
        while i < args.len()
            invariant
                i <= args@.len(),
                crate::text::strings_view(argv@) == seq![path@] + strs_view(args@).take(i as int),
            decreases args.len() - i,
        {
            let ghost before = argv@;
            let a = to_string(args[i]);
            argv.push(a);
            assert(crate::text::strings_view(argv@) =~= crate::text::strings_view(before).push(args@[i as int]@));
            assert(strs_view(args@).take(i + 1) =~= strs_view(args@).take(i as int).push(args@[i as int]@));
            assert(crate::text::strings_view(argv@) =~= seq![path@] + strs_view(args@).take(i + 1));
            i = i + 1;
        }
        assert(strs_view(args@).take(args@.len() as int) =~= strs_view(args@));
        Ok(argv)
    }

    fn find(&self, name: &str) -> (r: Option<usize>)
        ensures
            match r {
                Some(i) => i < self.cmd_table@.len() && cmd_path(self@, name@) == Some(
                    self.cmd_table@[i as int].1@,
                ),
                None => cmd_path(self@, name@).is_none(),
            },
    {
        let ghost ps = self@;
        let mut i = self.cmd_table.len();
        assert(ps.take(i as int) =~= ps);
        while i > 0
            invariant
                i <= self.cmd_table@.len(),
                ps == pairs_view(self.cmd_table@),
                lookup(ps, name@) == lookup(ps.take(i as int), name@),
            decreases i,
        {
            let same = str_eq(self.cmd_table[i - 1].0.as_str(), name);
            assert(ps.take(i as int).drop_last() =~= ps.take(i - 1));
            if same {
                return Some(i - 1);
            }
            i = i - 1;
        }
        None
    }
}

/// After `ensure` has recorded a command, `has` finds it and `get` gives the recorded path.
pub proof fn lemma_ensure_then_get(t: Seq<(Seq<char>, Seq<char>)>, cmd: Seq<char>, path: Seq<char>)
    ensures
        cmd_path(t.push((cmd, path)), cmd) == Some(path),
{
    assert(t.push((cmd, path)).last() == (cmd, path));
}

/// Recording a command leaves the paths of all other commands as they were.
pub proof fn lemma_ensure_keeps_others(t: Seq<(Seq<char>, Seq<char>)>, cmd: Seq<char>, path: Seq<char>, other: Seq<char>)
    requires
        other != cmd,
    ensures
        cmd_path(t.push((cmd, path)), other) == cmd_path(t, other),
{
    assert(t.push((cmd, path)).drop_last() =~= t);
}

/// After `ensure_cmds`, every command of the list is recorded unless the result was an error.
pub proof fn lemma_ensure_cmds_all_known(
    t: Seq<(Seq<char>, Seq<char>)>,
    cmds: Seq<Seq<char>>,
    found: Seq<Option<Seq<char>>>,
    k: int,
)
    requires
        found.len() == cmds.len(),
        0 <= k < cmds.len(),
        !some_missing(t, cmds, found),
    ensures
        cmd_path(ensure_all(t, cmds, found, cmds.len() as int), cmds[k]) is Some,
    decreases cmds.len() - k,
{
    lemma_ensure_all_keeps_known(t, cmds, found, k + 1, cmds.len() as int, cmds[k]);
}

proof fn lemma_ensure_all_keeps_known(
    t: Seq<(Seq<char>, Seq<char>)>,
    cmds: Seq<Seq<char>>,
    found: Seq<Option<Seq<char>>>,
    i: int,
    n: int,
    c: Seq<char>,
)
    requires
        found.len() == cmds.len(),
        0 < i <= n <= cmds.len(),
        !some_missing(t, cmds, found),
        c == cmds[i - 1],
    ensures
        cmd_path(ensure_all(t, cmds, found, n), c) is Some,
    decreases n - i,
{
    if n > i {
        lemma_ensure_all_keeps_known(t, cmds, found, i, n - 1, c);
        let prev = ensure_all(t, cmds, found, n - 1);
        if cmd_path(prev, cmds[n - 1]) is None {
            match found[n - 1] {
                Some(p) => {
                    if cmds[n - 1] != c {
                        lemma_ensure_keeps_others(prev, cmds[n - 1], p, c);
                    }
                },
                None => {},
            }
        }
    } else {
        let prev = ensure_all(t, cmds, found, i - 1);
        if cmd_path(prev, cmds[i - 1]) is None {
            assert(found[i - 1] is Some);
            lemma_ensure_then_get(prev, cmds[i - 1], found[i - 1]->0);
        }
    }
}

/// `cmds[k]` occurs in `cmds` for the first time at `k`.
pub open spec fn first_occurrence(cmds: Seq<Seq<char>>, k: int) -> bool {
    &&& 0 <= k < cmds.len()
    &&& forall|j: int| 0 <= j < k ==> cmds[j] != cmds[k]
}

/// A command the table knows after `m` lookups it knows with the same path after `n >= m`.
proof fn lemma_ensure_all_known_stays(
    t: Seq<(Seq<char>, Seq<char>)>,
    cmds: Seq<Seq<char>>,
    found: Seq<Option<Seq<char>>>,
    m: int,
    n: int,
    c: Seq<char>,
)
    requires
        0 <= m <= n <= cmds.len(),
        found.len() == cmds.len(),
        cmd_path(ensure_all(t, cmds, found, m), c) is Some,
    ensures
        cmd_path(ensure_all(t, cmds, found, n), c) == cmd_path(ensure_all(t, cmds, found, m), c),
    decreases n - m,
{
    if n > m {
        lemma_ensure_all_known_stays(t, cmds, found, m, n - 1, c);
        let prev = ensure_all(t, cmds, found, n - 1);
        if cmd_path(prev, cmds[n - 1]) is None {
            if let Some(p) = found[n - 1] {
                lemma_ensure_keeps_others(prev, cmds[n - 1], p, c);
            }
        }
    }
}

/// A command that none of the first `n` lookups concerns keeps the path the table had for it.
proof fn lemma_ensure_all_untouched(
    t: Seq<(Seq<char>, Seq<char>)>,
    cmds: Seq<Seq<char>>,
    found: Seq<Option<Seq<char>>>,
    n: int,
    c: Seq<char>,
)
    requires
        0 <= n <= cmds.len(),
        found.len() == cmds.len(),
        forall|j: int| 0 <= j < n ==> cmds[j] != c,
    ensures
        cmd_path(ensure_all(t, cmds, found, n), c) == cmd_path(t, c),
    decreases n,
{
    if n > 0 {
        lemma_ensure_all_untouched(t, cmds, found, n - 1, c);
        let prev = ensure_all(t, cmds, found, n - 1);
        if cmd_path(prev, cmds[n - 1]) is None {
            if let Some(p) = found[n - 1] {
                lemma_ensure_keeps_others(prev, cmds[n - 1], p, c);
            }
        }
    }
}

/// The first index at or after `j` where `cmds` holds `cmds[i]`.
spec fn first_at_or_after(cmds: Seq<Seq<char>>, j: int, i: int) -> int
    decreases i - j,
{
    if j >= i || cmds[j] == cmds[i] {
        j
    } else {
        first_at_or_after(cmds, j + 1, i)
    }
}

proof fn lemma_first_at_or_after(cmds: Seq<Seq<char>>, j: int, i: int)
    requires
        0 <= j <= i < cmds.len(),
        forall|x: int| 0 <= x < j ==> cmds[x] != cmds[i],
    ensures
        ({
            let k = first_at_or_after(cmds, j, i);
            &&& j <= k <= i
            &&& cmds[k] == cmds[i]
            &&& first_occurrence(cmds, k)
        }),
    decreases i - j,
{
    if j < i && cmds[j] != cmds[i] {
        lemma_first_at_or_after(cmds, j + 1, i);
    }
}

/// What `ensure_cmds` does to the table, in full: every command the table knew keeps its path,
/// and so does every command the list does not name; a command of the list that the table did
/// not know gets the path of its (first) search where that search found it; and the result is
/// an error exactly when some command of the list was neither known nor found.
pub proof fn lemma_ensure_cmds_law(
    t: Seq<(Seq<char>, Seq<char>)>,
    cmds: Seq<Seq<char>>,
    found: Seq<Option<Seq<char>>>,
)
    requires
        found.len() == cmds.len(),
    ensures
        ({
            let after = ensure_all(t, cmds, found, cmds.len() as int);
            &&& forall|c: Seq<char>| #[trigger] cmd_path(t, c) is Some ==> cmd_path(after, c) == cmd_path(t, c)
            &&& forall|c: Seq<char>| (forall|j: int| 0 <= j < cmds.len() ==> cmds[j] != c) ==> #[trigger] cmd_path(after, c) == cmd_path(t, c)
            &&& forall|k: int| first_occurrence(cmds, k) && cmd_path(t, cmds[k]) is None && #[trigger] found[k] is Some
                ==> cmd_path(after, cmds[k]) == found[k]
            &&& some_missing(t, cmds, found) <==> exists|k: int|
                first_occurrence(cmds, k) && cmd_path(t, cmds[k]) is None && #[trigger] found[k] is None
        }),
{
    let n = cmds.len() as int;
    let after = ensure_all(t, cmds, found, n);
    assert forall|c: Seq<char>| #[trigger] cmd_path(t, c) is Some implies cmd_path(after, c) == cmd_path(t, c) by {
        lemma_ensure_all_known_stays(t, cmds, found, 0, n, c);
    }
    assert forall|c: Seq<char>| (forall|j: int| 0 <= j < cmds.len() ==> cmds[j] != c) implies #[trigger] cmd_path(after, c)
        == cmd_path(t, c) by {
        lemma_ensure_all_untouched(t, cmds, found, n, c);
    }
    assert forall|k: int| first_occurrence(cmds, k) && cmd_path(t, cmds[k]) is None && #[trigger] found[k] is Some
        implies cmd_path(after, cmds[k]) == found[k] by {
        let c = cmds[k];
        lemma_ensure_all_untouched(t, cmds, found, k, c);
        let prev = ensure_all(t, cmds, found, k);
        lemma_ensure_then_get(prev, c, found[k]->0);
        lemma_ensure_all_known_stays(t, cmds, found, k + 1, n, c);
    }
    if some_missing(t, cmds, found) {
        let i = choose|i: int|
            0 <= i < cmds.len() && cmd_path(ensure_all(t, cmds, found, i), #[trigger] cmds[i]) is None && found[i] is None;
        let c = cmds[i];
        lemma_first_at_or_after(cmds, 0, i);
        let k = first_at_or_after(cmds, 0, i);
        if cmd_path(t, c) is Some {
            lemma_ensure_all_known_stays(t, cmds, found, 0, i, c);
        }
        if k < i && found[k] is Some {
            lemma_ensure_all_untouched(t, cmds, found, k, c);
            lemma_ensure_then_get(ensure_all(t, cmds, found, k), c, found[k]->0);
            lemma_ensure_all_known_stays(t, cmds, found, k + 1, i, c);
        }
        assert(first_occurrence(cmds, k) && cmd_path(t, cmds[k]) is None && found[k] is None);
    }
    if exists|k: int| first_occurrence(cmds, k) && cmd_path(t, cmds[k]) is None && #[trigger] found[k] is None {
        let k = choose|k: int| first_occurrence(cmds, k) && cmd_path(t, cmds[k]) is None && #[trigger] found[k] is None;
        lemma_ensure_all_untouched(t, cmds, found, k, cmds[k]);
        assert(cmd_path(ensure_all(t, cmds, found, k), cmds[k]) is None);
        assert(some_missing(t, cmds, found));
    }
}

} // verus!
