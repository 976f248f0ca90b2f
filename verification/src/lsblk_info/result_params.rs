use vstd::prelude::*;
use crate::defs::{MigError, MigErrorKind};
use crate::num::{parse_u16, parse_u64, parse_uint};
use crate::text::{str_eq, to_string};

verus! {

/// The value stored last under `k` in a list of (name, value) pairs: a later pair with the
/// same name replaces an earlier one, as inserting them one by one into a map would.
pub open spec fn lookup(ps: Seq<(Seq<char>, Seq<char>)>, k: Seq<char>) -> Option<Seq<char>>
    decreases ps.len(),
{
    if ps.len() == 0 {
        None
    } else if ps.last().0 == k {
        Some(ps.last().1)
    } else {
        lookup(ps.drop_last(), k)
    }
}

/// A mandatory string parameter: its value, or `NotFound`.
pub open spec fn field_str(ps: Seq<(Seq<char>, Seq<char>)>, k: Seq<char>) -> Result<Seq<char>, MigErrorKind> {
    match lookup(ps, k) {
        Some(v) => Ok(v),
        None => Err(MigErrorKind::NotFound),
    }
}

/// A mandatory unsigned parameter whose largest value is `max`: its value, `NotFound` when it is
/// missing, `Upstream` when it is not a number in range.
pub open spec fn field_uint(ps: Seq<(Seq<char>, Seq<char>)>, k: Seq<char>, max: nat) -> Result<nat, MigErrorKind> {
    match lookup(ps, k) {
        None => Err(MigErrorKind::NotFound),
        Some(v) => match parse_uint(v, max) {
            Some(n) => Ok(n),
            None => Err(MigErrorKind::Upstream),
        },
    }
}

/// An optional path parameter: absent when missing or empty.
pub open spec fn field_opt_path(ps: Seq<(Seq<char>, Seq<char>)>, k: Seq<char>) -> Option<Seq<char>> {
    match lookup(ps, k) {
        Some(v) => if v.len() == 0 { None } else { Some(v) },
        None => None,
    }
}

/// The view of an optional string.
pub open spec fn opt_view(o: Option<String>) -> Option<Seq<char>> {
    match o {
        Some(s) => Some(s@),
        None => None,
    }
}

/// The view of a list of (name, value) string pairs.
pub open spec fn pairs_view(v: Seq<(String, String)>) -> Seq<(Seq<char>, Seq<char>)> {
    v.map_values(|p: (String, String)| (p.0@, p.1@))
}

/// The named parameters of one line of `lsblk` or `udevadm` output.
#[derive(Debug)]
pub struct ResultParams {
    param_map: Vec<(String, String)>,
}

impl View for ResultParams {
    type V = Seq<(Seq<char>, Seq<char>)>;

    closed spec fn view(&self) -> Seq<(Seq<char>, Seq<char>)> {
        pairs_view(self.param_map@)
    }
}

impl ResultParams {
    /// Parameters from (name, value) pairs; a later pair overrides an earlier one of the same name.
    pub fn new(param_map: Vec<(String, String)>) -> (r: ResultParams)
        ensures
            r@ == pairs_view(param_map@),
    {
        ResultParams { param_map }
    }

    fn find(&self, name: &str) -> (r: Option<usize>)
        ensures
            match r {
                Some(i) => i < self.param_map@.len() && lookup(self@, name@) == Some(
                    self.param_map@[i as int].1@,
                ),
                None => lookup(self@, name@).is_none(),
            },
    {
        let ghost ps = self@;
        let mut i = self.param_map.len();
        assert(ps.take(i as int) =~= ps);
        while i > 0
            invariant
                i <= self.param_map@.len(),
                ps == pairs_view(self.param_map@),
                lookup(ps, name@) == lookup(ps.take(i as int), name@),
            decreases i,
        {
            let same = str_eq(self.param_map[i - 1].0.as_str(), name);
            assert(ps.take(i as int).drop_last() =~= ps.take(i - 1));
            assert(ps.take(i as int).last() == (self.param_map@[i - 1].0@, self.param_map@[i - 1].1@));
            if same {
                return Some(i - 1);
            }
            i = i - 1;
        }
        assert(ps.take(0).len() == 0);
        None
    }

    /// A mandatory string parameter.
    pub fn get_str(&self, name: &str) -> (r: Result<&str, MigError>)
        ensures
            match r {
                Ok(v) => field_str(self@, name@) == Ok::<Seq<char>, MigErrorKind>(v@),
                Err(e) => field_str(self@, name@) == Err::<Seq<char>, MigErrorKind>(e.kind),
            },
    {
        match self.find(name) {
            Some(i) => Ok(self.param_map[i].1.as_str()),
            None => Err(MigError::from_kind(MigErrorKind::NotFound)),
        }
    }

    /// An optional string parameter.
    pub fn get_opt_str(&self, name: &str) -> (r: Option<String>)
        ensures
            opt_view(r) == lookup(self@, name@),
    {
        match self.find(name) {
            Some(i) => Some(self.param_map[i].1.clone()),
            None => None,
        }
    }

    /// A mandatory unsigned 64-bit parameter.
    pub fn get_u64(&self, name: &str) -> (r: Result<u64, MigError>)
        ensures
            match r {
                Ok(n) => field_uint(self@, name@, u64::MAX as nat) == Ok::<nat, MigErrorKind>(n as nat),
                Err(e) => field_uint(self@, name@, u64::MAX as nat) == Err::<nat, MigErrorKind>(e.kind),
            },
    {
        match self.find(name) {
            Some(i) => match parse_u64(self.param_map[i].1.as_str()) {
                Some(n) => Ok(n),
                None => Err(MigError::from_kind(MigErrorKind::Upstream)),
            },
            None => Err(MigError::from_kind(MigErrorKind::NotFound)),
        }
    }

    /// An optional unsigned 64-bit parameter: absent, or present and a number.
    pub fn get_opt_u64(&self, name: &str) -> (r: Result<Option<u64>, MigError>)
        ensures
            match r {
                Ok(Some(n)) => field_uint(self@, name@, u64::MAX as nat) == Ok::<nat, MigErrorKind>(n as nat),
                Ok(None) => lookup(self@, name@).is_none(),
                Err(e) => e.kind == MigErrorKind::Upstream && lookup(self@, name@).is_some()
                    && field_uint(self@, name@, u64::MAX as nat) == Err::<nat, MigErrorKind>(e.kind),
            },
    {
        match self.find(name) {
            Some(i) => match parse_u64(self.param_map[i].1.as_str()) {
                Some(n) => Ok(Some(n)),
                None => Err(MigError::from_kind(MigErrorKind::Upstream)),
            },
            None => Ok(None),
        }
    }

    /// A mandatory unsigned 16-bit parameter.
    pub fn get_u16(&self, name: &str) -> (r: Result<u16, MigError>)
        ensures
            match r {
                Ok(n) => field_uint(self@, name@, u16::MAX as nat) == Ok::<nat, MigErrorKind>(n as nat),
                Err(e) => field_uint(self@, name@, u16::MAX as nat) == Err::<nat, MigErrorKind>(e.kind),
            },
    {
        match self.find(name) {
            Some(i) => match parse_u16(self.param_map[i].1.as_str()) {
                Some(n) => Ok(n),
                None => Err(MigError::from_kind(MigErrorKind::Upstream)),
            },
            None => Err(MigError::from_kind(MigErrorKind::NotFound)),
        }
    }

    /// An optional path parameter; an empty value counts as absent.
    pub fn get_opt_pathbuf(&self, name: &str) -> (r: Option<String>)
        ensures
            opt_view(r) == field_opt_path(self@, name@),
    {
        match self.find(name) {
            Some(i) => {
                if self.param_map[i].1.as_str().is_empty() {
                    None
                } else {
                    Some(to_string(self.param_map[i].1.as_str()))
                }
            },
            None => None,
        }
    }
}

/// A parameter added last is what a lookup of its name gives, and it leaves the other names as
/// they were (what inserting into a map does).
pub proof fn lemma_last_value_wins(ps: Seq<(Seq<char>, Seq<char>)>, k: Seq<char>, v: Seq<char>)
    ensures
        lookup(ps.push((k, v)), k) == Some(v),
        forall|k2: Seq<char>| k2 != k ==> lookup(ps.push((k, v)), k2) == #[trigger] lookup(ps, k2),
{
    assert(ps.push((k, v)).drop_last() =~= ps);
}

/// A mandatory string parameter is there exactly when the optional lookup finds it, with the
/// same value.
pub proof fn lemma_str_and_opt_str_agree(ps: Seq<(Seq<char>, Seq<char>)>, k: Seq<char>)
    ensures
        field_str(ps, k) is Ok <==> lookup(ps, k) is Some,
        field_str(ps, k) is Ok ==> lookup(ps, k) == Some(field_str(ps, k)->Ok_0),
{
}

} // verus!
