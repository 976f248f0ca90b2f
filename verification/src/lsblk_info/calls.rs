use vstd::prelude::*;
use crate::defs::{MigError, MigErrorKind};
use crate::disk_info::lsblk_list::first_eq;
use crate::lsblk_info::block_device::params_view;
use crate::lsblk_info::parse::{parse_lsblk_line, parse_params};
use crate::lsblk_info::result_params::{pairs_view, ResultParams};
use crate::text::{chars_of, lines, string_from_chars, strings_view, text_lines};

verus! {

// The outputs of `lsblk -b -P` and `udevadm info -q property` read into parameters.

/// The parameters of each line of `lsblk -P` output; `None` when a line does not read.
pub open spec fn lsblk_lines(ls: Seq<Seq<char>>) -> Option<Seq<Seq<(Seq<char>, Seq<char>)>>>
    decreases ls.len(),
{
    if ls.len() == 0 {
        Some(Seq::empty())
    } else {
        match (lsblk_lines(ls.drop_last()), parse_params(ls.last(), 0)) {
            (Some(a), Some(p)) => Some(a.push(p)),
            _ => None,
        }
    }
}

/// A line `NAME=value` of `udevadm` output (the pattern `^([^=]+)=(.*)$`): the name is all
/// before the first `=`, and must not be empty.
pub open spec fn udev_line(l: Seq<char>) -> Option<(Seq<char>, Seq<char>)> {
    let k = first_eq(l, 0);
    if 0 < k && k < l.len() {
        Some((l.take(k), l.skip(k + 1)))
    } else {
        None
    }
}

/// The parameters of the lines of `udevadm` output, in order; `None` when a line does not read.
pub open spec fn udev_lines(ls: Seq<Seq<char>>) -> Option<Seq<(Seq<char>, Seq<char>)>>
    decreases ls.len(),
{
    if ls.len() == 0 {
        Some(Seq::empty())
    } else {
        match (udev_lines(ls.drop_last()), udev_line(ls.last())) {
            (Some(a), Some(p)) => Some(a.push(p)),
            _ => None,
        }
    }
}

proof fn lemma_first_eq(w: Seq<char>, i: int)
    requires
        0 <= i <= w.len(),
    ensures
        i <= first_eq(w, i) <= w.len(),
        first_eq(w, i) < w.len() ==> w[first_eq(w, i)] == '=',
    decreases w.len() - i,
{
    if i < w.len() && w[i] != '=' {
        lemma_first_eq(w, i + 1);
    }
}

/// The parameters of every line of `lsblk -b -P` output, from its success and its output.
pub fn lsblk_results(success: bool, stdout: &str) -> (r: Result<Vec<ResultParams>, MigError>)
    ensures
        !success ==> r == Err::<Vec<ResultParams>, MigError>(MigError { kind: MigErrorKind::Upstream }),
        success ==> match lsblk_lines(text_lines(stdout@)) {
            Some(ps) => r matches Ok(v) && params_view(v@) == ps,
            None => r == Err::<Vec<ResultParams>, MigError>(MigError { kind: MigErrorKind::Displayed }),
        },
{
    if !success {
        return Err(MigError::from_kind(MigErrorKind::Upstream));
    }
    let ls = lines(stdout);
    let ghost lv = strings_view(ls@);
    let mut results: Vec<ResultParams> = Vec::new();
    let mut i: usize = 0;
    while i < ls.len()
        invariant
            success,
            lv == strings_view(ls@),
            lv == text_lines(stdout@),
            i <= ls@.len(),
            results@.len() == i,
            lsblk_lines(lv.take(i as int)) == Some(params_view(results@)),
        decreases ls.len() - i,
    {
        assert(lv.take(i + 1).drop_last() =~= lv.take(i as int));
        assert(lv[i as int] == ls@[i as int]@);
        match parse_lsblk_line(ls[i].as_str()) {
            Ok(p) => {
                let ghost before = results@;
                results.push(p);
                assert(params_view(results@) =~= params_view(before).push(results@[i as int]@));
            },
            Err(e) => {
                proof {
                    lemma_lsblk_lines_none(lv, i as int);
                }
                return Err(e);
            },
        }
        i = i + 1;
    }
    assert(lv.take(ls@.len() as int) =~= lv);
    Ok(results)
}

proof fn lemma_lsblk_lines_none(ls: Seq<Seq<char>>, i: int)
    requires
        0 <= i < ls.len(),
        parse_params(ls[i], 0) is None,
    ensures
        lsblk_lines(ls) is None,
    decreases ls.len(),
{
    if i < ls.len() - 1 {
        lemma_lsblk_lines_none(ls.drop_last(), i);
    }
}

proof fn lemma_udev_lines_none(ls: Seq<Seq<char>>, i: int)
    requires
        0 <= i < ls.len(),
        udev_line(ls[i]) is None,
    ensures
        udev_lines(ls) is None,
    decreases ls.len(),
{
    if i < ls.len() - 1 {
        lemma_udev_lines_none(ls.drop_last(), i);
    }
}

/// The properties that `udevadm info -q property <device>` lists, from its success and its
/// output.
pub fn udev_params(success: bool, stdout: &str) -> (r: Result<ResultParams, MigError>)
    ensures
        !success ==> r == Err::<ResultParams, MigError>(MigError { kind: MigErrorKind::Upstream }),
        success ==> match udev_lines(text_lines(stdout@)) {
            Some(ps) => r matches Ok(p) && p@ == ps,
            None => r == Err::<ResultParams, MigError>(MigError { kind: MigErrorKind::Displayed }),
        },
{
    if !success {
        return Err(MigError::from_kind(MigErrorKind::Upstream));
    }
    let ls = lines(stdout);
    let ghost lv = strings_view(ls@);
    let mut pairs: Vec<(String, String)> = Vec::new();
    let mut i: usize = 0;
    while i < ls.len()
        invariant
            success,
            lv == strings_view(ls@),
            lv == text_lines(stdout@),
            i <= ls@.len(),
            pairs@.len() == i,
            udev_lines(lv.take(i as int)) == Some(pairs_view(pairs@)),
        decreases ls.len() - i,
    {
        assert(lv.take(i + 1).drop_last() =~= lv.take(i as int));
        assert(lv[i as int] == ls@[i as int]@);
        let v = chars_of(ls[i].as_str());
        let mut k: usize = 0;
        while k < v.len() && v[k] != '='
            invariant
                k <= v@.len(),
                first_eq(v@, k as int) == first_eq(v@, 0),
            decreases v.len() - k,
        {
            k = k + 1;
        }
        if 0 < k && k < v.len() {
            let name = string_from_chars(v.as_slice(), 0, k);
            let value = string_from_chars(v.as_slice(), k + 1, v.len());
            assert(v@.subrange(0, k as int) =~= v@.take(k as int));
            assert(v@.subrange(k + 1, v@.len() as int) =~= v@.skip(k + 1));
            let ghost before = pairs@;
            pairs.push((name, value));
            assert(pairs_view(pairs@) =~= pairs_view(before).push((v@.take(k as int), v@.skip(k + 1))));
        } else {
            proof {
                lemma_udev_lines_none(lv, i as int);
            }
            return Err(MigError::displayed());
        }
        i = i + 1;
    }
    assert(lv.take(ls@.len() as int) =~= lv);
    Ok(ResultParams::new(pairs))
}

} // verus!
