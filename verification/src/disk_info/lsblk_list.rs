use vstd::prelude::*;
use crate::defs::{MigError, MigErrorKind};
use crate::disk_info::{devs_view, parts_view, LsblkDevice, LsblkDeviceView, LsblkInfo, LsblkPartition, LsblkPartitionView};
use crate::lsblk_info::{is_supported_maj_min, supported_maj_min};
use crate::num::{parse_u64, parse_uint};
use crate::text::{chars_of, lines, split_ws, str_eq, string_from_chars, strings_view, text_lines, text_words};

verus! {

// `lsblk -b -P -o NAME,KNAME,MAJ:MIN,FSTYPE,MOUNTPOINT,LABEL,UUID,RO,SIZE,TYPE` prints one line
// per device: ten words `NAME="value"` in this order. A `disk` line starts a disk; the `part`
// lines that follow are its partitions, numbered from 1.

/// The position of the first `=` of `w` at or after `i`, or the length of `w`.
pub open spec fn first_eq(w: Seq<char>, i: int) -> int
    decreases w.len() - i,
{
    if i < 0 || i >= w.len() || w[i] == '=' {
        i
    } else {
        first_eq(w, i + 1)
    }
}

/// The name and value of a word `NAME="value"` (the pattern `^([^=]+)="([^"]*)"$`).
pub open spec fn word_param(w: Seq<char>) -> Option<(Seq<char>, Seq<char>)> {
    let k = first_eq(w, 0);
    if 0 < k && k + 3 <= w.len() && w[k + 1] == '"' && w.last() == '"' && (forall|i: int|
        k + 2 <= i < w.len() - 1 ==> w[i] != '"') {
        Some((w.take(k), w.subrange(k + 2, w.len() - 1)))
    } else {
        None
    }
}

/// The value of a word that must name the parameter `expect`.
pub open spec fn param_value(w: Seq<char>, expect: Seq<char>) -> Result<Seq<char>, MigErrorKind> {
    match word_param(w) {
        Some((n, v)) => if n == expect {
            Ok(v)
        } else {
            Err(MigErrorKind::InvParam)
        },
        None => Err(MigErrorKind::InvParam),
    }
}

/// An optional size: none when empty, else a decimal number.
pub open spec fn opt_size_of(v: Seq<char>) -> Result<Option<u64>, MigErrorKind> {
    if v.len() == 0 {
        Ok(None)
    } else {
        match parse_uint(v, u64::MAX as nat) {
            Some(n) => Ok(Some(n as u64)),
            None => Err(MigErrorKind::Upstream),
        }
    }
}

/// An optional text: none when empty.
pub open spec fn nonempty(v: Seq<char>) -> Option<Seq<char>> {
    if v.len() == 0 {
        None
    } else {
        Some(v)
    }
}

/// Word `i` names the parameter `name`.
pub open spec fn pv_ok(ws: Seq<Seq<char>>, i: int, name: Seq<char>) -> bool {
    param_value(ws[i], name) is Ok
}

/// The value of word `i`.
pub open spec fn pv(ws: Seq<Seq<char>>, i: int, name: Seq<char>) -> Seq<char> {
    param_value(ws[i], name)->Ok_0
}

/// The disk of a `disk` line's words.
pub open spec fn disk_of(ws: Seq<Seq<char>>) -> Result<LsblkDeviceView, MigErrorKind> {
    if !(pv_ok(ws, 0, "NAME"@) && pv_ok(ws, 1, "KNAME"@) && pv_ok(ws, 2, "MAJ:MIN"@) && pv_ok(
        ws,
        6,
        "UUID"@,
    ) && pv_ok(ws, 8, "SIZE"@)) {
        Err(MigErrorKind::InvParam)
    } else {
        match opt_size_of(pv(ws, 8, "SIZE"@)) {
            Err(e) => Err(e),
            Ok(size) => Ok(
                LsblkDeviceView {
                    name: pv(ws, 0, "NAME"@),
                    kname: pv(ws, 1, "KNAME"@),
                    maj_min: pv(ws, 2, "MAJ:MIN"@),
                    uuid: nonempty(pv(ws, 6, "UUID"@)),
                    size,
                    children: None,
                },
            ),
        }
    }
}

/// The partition of a `part` line's words, with its number.
pub open spec fn part_of(ws: Seq<Seq<char>>, index: u16) -> Result<LsblkPartitionView, MigErrorKind> {
    if !(pv_ok(ws, 0, "NAME"@) && pv_ok(ws, 1, "KNAME"@) && pv_ok(ws, 2, "MAJ:MIN"@) && pv_ok(
        ws,
        3,
        "FSTYPE"@,
    ) && pv_ok(ws, 4, "MOUNTPOINT"@) && pv_ok(ws, 5, "LABEL"@) && pv_ok(ws, 6, "UUID"@) && pv_ok(
        ws,
        7,
        "RO"@,
    ) && pv_ok(ws, 8, "SIZE"@)) {
        Err(MigErrorKind::InvParam)
    } else {
        match opt_size_of(pv(ws, 8, "SIZE"@)) {
            Err(e) => Err(e),
            Ok(size) => Ok(
                LsblkPartitionView {
                    name: pv(ws, 0, "NAME"@),
                    kname: pv(ws, 1, "KNAME"@),
                    maj_min: pv(ws, 2, "MAJ:MIN"@),
                    ro: pv(ws, 7, "RO"@),
                    uuid: nonempty(pv(ws, 6, "UUID"@)),
                    fstype: nonempty(pv(ws, 3, "FSTYPE"@)),
                    mountpoint: nonempty(pv(ws, 4, "MOUNTPOINT"@)),
                    label: nonempty(pv(ws, 5, "LABEL"@)),
                    parttype: None,
                    partlabel: None,
                    partuuid: None,
                    size,
                    index: Some(index),
                },
            ),
        }
    }
}

/// The number of partitions of a disk.
pub open spec fn child_count(d: LsblkDeviceView) -> nat {
    match d.children {
        Some(c) => c.len(),
        None => 0,
    }
}

/// A disk with one more partition.
pub open spec fn with_child(d: LsblkDeviceView, p: LsblkPartitionView) -> LsblkDeviceView {
    LsblkDeviceView {
        children: Some(
            match d.children {
                Some(c) => c.push(p),
                None => seq![p],
            },
        ),
        ..d
    }
}

/// The number a new partition of `d` gets (the count plus one, as a `u16`).
pub open spec fn next_index(d: LsblkDeviceView) -> u16 {
    ((child_count(d) + 1) % 65536) as u16
}

/// The disks done and the disk being read.
pub type ListState = (Seq<LsblkDeviceView>, Option<LsblkDeviceView>);

/// Reads one line.
pub open spec fn list_step(st: ListState, line: Seq<char>) -> Result<ListState, MigErrorKind> {
    let ws = text_words(line);
    if ws.len() != 10 {
        Err(MigErrorKind::InvParam)
    } else {
        match param_value(ws[9], "TYPE"@) {
            Err(e) => Err(e),
            Ok(t) => if t == "disk"@ {
                match disk_of(ws) {
                    Err(e) => Err(e),
                    Ok(d) => Ok(
                        (
                            match st.1 {
                                Some(c) => st.0.push(c),
                                None => st.0,
                            },
                            Some(d),
                        ),
                    ),
                }
            } else if t == "part"@ {
                match st.1 {
                    None => Err(MigErrorKind::InvState),
                    Some(c) => match part_of(ws, next_index(c)) {
                        Err(e) => Err(e),
                        Ok(p) => Ok((st.0, Some(with_child(c, p)))),
                    },
                }
            } else {
                Ok(st)
            },
        }
    }
}

/// Reads the first `n` lines.
pub open spec fn list_fold(ls: Seq<Seq<char>>, n: int) -> Result<ListState, MigErrorKind>
    decreases n,
{
    if n <= 0 {
        Ok((Seq::empty(), None))
    } else {
        match list_fold(ls, n - 1) {
            Err(e) => Err(e),
            Ok(st) => list_step(st, ls[n - 1]),
        }
    }
}

/// The disks of an `lsblk -P` listing.
pub open spec fn lsblk_list(text: Seq<char>) -> Result<Seq<LsblkDeviceView>, MigErrorKind> {
    let ls = text_lines(text);
    match list_fold(ls, ls.len() as int) {
        Err(e) => Err(e),
        Ok((done, cur)) => Ok(
            match cur {
                Some(c) => done.push(c),
                None => done,
            },
        ),
    }
}

proof fn lemma_fold_err(ls: Seq<Seq<char>>, i: int, n: int)
    requires
        i <= n,
        list_fold(ls, i) is Err,
    ensures
        list_fold(ls, n) == list_fold(ls, i),
    decreases n - i,
{
    if n > i {
        lemma_fold_err(ls, i, n - 1);
    }
}

proof fn lemma_first_eq(w: Seq<char>, i: int)
    requires
        0 <= i <= w.len(),
    ensures
        i <= first_eq(w, i) <= w.len(),
        forall|k: int| i <= k < first_eq(w, i) ==> w[k] != '=',
        first_eq(w, i) < w.len() ==> w[first_eq(w, i)] == '=',
    decreases w.len() - i,
{
    if i < w.len() && w[i] != '=' {
        lemma_first_eq(w, i + 1);
    }
}

fn word_param_exec(w: &str) -> (r: Option<(String, String)>)
    ensures
        match r {
            Some((n, v)) => word_param(w@) == Some((n@, v@)),
            None => word_param(w@) is None,
        },
{
    let c = chars_of(w);
    let n = c.len();
    let mut k: usize = 0;
    while k < n && c[k] != '='
        invariant
            k <= n == c@.len(),
            c@ == w@,
            first_eq(c@, k as int) == first_eq(c@, 0),
        decreases n - k,
    {
        k = k + 1;
    }
    proof {
        lemma_first_eq(c@, k as int);
    }
    if k == 0 || n < 3 || k > n - 3 || c[k + 1] != '"' || c[n - 1] != '"' {
        return None;
    }
    let mut i = k + 2;
    while i < n - 1
        invariant
            k + 2 <= i <= n - 1,
            n == c@.len(),
            c@ == w@,
            0 < k,
            k + 3 <= n,
            k == first_eq(c@, 0),
            c@[k + 1] == '"',
            c@[n - 1] == '"',
            forall|j: int| k + 2 <= j < i ==> c@[j] != '"',
        decreases n - 1 - i,
    {
        if c[i] == '"' {
            assert(c@[i as int] == '"');
            assert(k == first_eq(c@, 0));
            return None;
        }
        i = i + 1;
    }
    let name = string_from_chars(c.as_slice(), 0, k);
    let value = string_from_chars(c.as_slice(), k + 2, n - 1);
    assert(c@.subrange(0, k as int) =~= c@.take(k as int));
    Some((name, value))
}

fn param_value_exec(w: &str, expect: &str) -> (r: Result<String, MigError>)
    ensures
        match param_value(w@, expect@) {
            Ok(v) => r matches Ok(s) && s@ == v,
            Err(k) => r == Err::<String, MigError>(MigError { kind: k }),
        },
{
    match word_param_exec(w) {
        Some((n, v)) => if str_eq(n.as_str(), expect) {
            Ok(v)
        } else {
            Err(MigError::from_kind(MigErrorKind::InvParam))
        },
        None => Err(MigError::from_kind(MigErrorKind::InvParam)),
    }
}

fn opt_size_exec(v: &str) -> (r: Result<Option<u64>, MigError>)
    ensures
        match opt_size_of(v@) {
            Ok(s) => r == Ok::<Option<u64>, MigError>(s),
            Err(k) => r == Err::<Option<u64>, MigError>(MigError { kind: k }),
        },
{
    let c = chars_of(v);
    if c.len() == 0 {
        return Ok(None);
    }
    match parse_u64(v) {
        Some(n) => Ok(Some(n)),
        None => Err(MigError::from_kind(MigErrorKind::Upstream)),
    }
}

fn nonempty_exec(v: String) -> (r: Option<String>)
    ensures
        match r {
            Some(s) => nonempty(v@) == Some(s@),
            None => nonempty(v@) is None,
        },
{
    let c = chars_of(v.as_str());
    if c.len() == 0 {
        None
    } else {
        Some(v)
    }
}

fn disk_of_exec(ws: &Vec<String>) -> (r: Result<LsblkDevice, MigError>)
    requires
        ws@.len() == 10,
    ensures
        match disk_of(strings_view(ws@)) {
            Ok(d) => r matches Ok(dev) && dev@ == d,
            Err(k) => r == Err::<LsblkDevice, MigError>(MigError { kind: k }),
        },
{
    let ghost sv = strings_view(ws@);
    assert(sv[0] == ws@[0]@ && sv[1] == ws@[1]@ && sv[2] == ws@[2]@ && sv[6] == ws@[6]@ && sv[8] == ws@[8]@);
    let name = param_value_exec(ws[0].as_str(), "NAME");
    let kname = param_value_exec(ws[1].as_str(), "KNAME");
    let maj_min = param_value_exec(ws[2].as_str(), "MAJ:MIN");
    let uuid = param_value_exec(ws[6].as_str(), "UUID");
    let size = param_value_exec(ws[8].as_str(), "SIZE");
    match (name, kname, maj_min, uuid, size) {
        (Ok(name), Ok(kname), Ok(maj_min), Ok(uuid), Ok(size)) => {
            let size = match opt_size_exec(size.as_str()) {
                Ok(s) => s,
                Err(e) => {
                    return Err(e);
                },
            };
            let uuid = nonempty_exec(uuid);
            Ok(LsblkDevice { name, kname, maj_min, uuid, size, children: None })
        },
        _ => Err(MigError::from_kind(MigErrorKind::InvParam)),
    }
}

fn part_of_exec(ws: &Vec<String>, index: u16) -> (r: Result<LsblkPartition, MigError>)
    requires
        ws@.len() == 10,
    ensures
        match part_of(strings_view(ws@), index) {
            Ok(p) => r matches Ok(part) && part@ == p,
            Err(k) => r == Err::<LsblkPartition, MigError>(MigError { kind: k }),
        },
{
    let ghost sv = strings_view(ws@);
    assert(sv[0] == ws@[0]@ && sv[1] == ws@[1]@ && sv[2] == ws@[2]@ && sv[3] == ws@[3]@ && sv[4]
        == ws@[4]@ && sv[5] == ws@[5]@ && sv[6] == ws@[6]@ && sv[7] == ws@[7]@ && sv[8] == ws@[8]@);
    let name = param_value_exec(ws[0].as_str(), "NAME");
    let kname = param_value_exec(ws[1].as_str(), "KNAME");
    let maj_min = param_value_exec(ws[2].as_str(), "MAJ:MIN");
    let fstype = param_value_exec(ws[3].as_str(), "FSTYPE");
    let mountpoint = param_value_exec(ws[4].as_str(), "MOUNTPOINT");
    let label = param_value_exec(ws[5].as_str(), "LABEL");
    let uuid = param_value_exec(ws[6].as_str(), "UUID");
    let ro = param_value_exec(ws[7].as_str(), "RO");
    let size = param_value_exec(ws[8].as_str(), "SIZE");
    match (name, kname, maj_min, fstype, mountpoint) {
        (Ok(name), Ok(kname), Ok(maj_min), Ok(fstype), Ok(mountpoint)) => match (label, uuid, ro, size) {
            (Ok(label), Ok(uuid), Ok(ro), Ok(size)) => {
                let size = match opt_size_exec(size.as_str()) {
                    Ok(s) => s,
                    Err(e) => {
                        return Err(e);
                    },
                };
                Ok(
                    LsblkPartition {
                        name,
                        kname,
                        maj_min,
                        ro,
                        uuid: nonempty_exec(uuid),
                        fstype: nonempty_exec(fstype),
                        mountpoint: nonempty_exec(mountpoint),
                        label: nonempty_exec(label),
                        parttype: None,
                        partlabel: None,
                        partuuid: None,
                        size,
                        index: Some(index),
                    },
                )
            },
            _ => Err(MigError::from_kind(MigErrorKind::InvParam)),
        },
        _ => Err(MigError::from_kind(MigErrorKind::InvParam)),
    }
}

fn index_after(n: usize) -> (r: u16)
    ensures
        r == ((n + 1) % 65536) as u16,
{
    let m = n % 65536;
    if m == 65535 {
        assert((n + 1) % 65536 == 0) by (nonlinear_arith)
            requires
                n % 65536 == 65535,
        ;
        0
    } else {
        assert((n + 1) % 65536 == n % 65536 + 1) by (nonlinear_arith)
            requires
                n % 65536 < 65535,
        ;
        (m + 1) as u16
    }
}

/// The view of the disk being read.
pub open spec fn opt_dev(cur: Option<LsblkDevice>) -> Option<LsblkDeviceView> {
    match cur {
        Some(c) => Some(c@),
        None => None,
    }
}

impl LsblkInfo {
    /// The disks of an `lsblk -P` listing.
    pub fn from_list(list: &str) -> (r: Result<LsblkInfo, MigError>)
        ensures
            match lsblk_list(list@) {
                Ok(ds) => r matches Ok(info) && info@ == ds,
                Err(k) => r == Err::<LsblkInfo, MigError>(MigError { kind: k }),
            },
    {
        let ls = lines(list);
        let ghost lsv = strings_view(ls@);
        let mut done: Vec<LsblkDevice> = Vec::new();
        let mut cur: Option<LsblkDevice> = None;
        let mut i: usize = 0;
        assert(devs_view(done@) =~= Seq::<LsblkDeviceView>::empty());
        while i < ls.len()
            invariant
                lsv == strings_view(ls@),
                lsv == text_lines(list@),
                i <= ls@.len(),
                list_fold(lsv, i as int) == Ok::<ListState, MigErrorKind>((devs_view(done@), opt_dev(cur))),
            decreases ls.len() - i,
        {
            let ws = split_ws(ls[i].as_str());
            let ghost wsv = strings_view(ws@);
            assert(lsv[i as int] == ls@[i as int]@);
            assert(wsv == text_words(lsv[i as int]));
            if ws.len() != 10 {
                proof {
                    lemma_fold_err(lsv, i + 1, lsv.len() as int);
                }
                return Err(MigError::from_kind(MigErrorKind::InvParam));
            }
            assert(wsv[9] == ws@[9]@);
            let t = match param_value_exec(ws[9].as_str(), "TYPE") {
                Ok(t) => t,
                Err(e) => {
                    proof {
                        lemma_fold_err(lsv, i + 1, lsv.len() as int);
                    }
                    return Err(e);
                },
            };
            if str_eq(t.as_str(), "disk") {
                let d = match disk_of_exec(&ws) {
                    Ok(d) => d,
                    Err(e) => {
                        proof {
                            lemma_fold_err(lsv, i + 1, lsv.len() as int);
                        }
                        return Err(e);
                    },
                };
                let ghost old_done = devs_view(done@);
                match cur {
                    Some(c) => {
                        done.push(c);
                        assert(devs_view(done@) =~= old_done.push(c@));
                    },
                    None => {},
                }
                cur = Some(d);
            } else if str_eq(t.as_str(), "part") {
                match cur {
                    None => {
                        proof {
                            lemma_fold_err(lsv, i + 1, lsv.len() as int);
                        }
                        return Err(MigError::from_kind(MigErrorKind::InvState));
                    },
                    Some(c) => {
                        let ghost cv = c@;
                        let LsblkDevice { name, kname, maj_min, uuid, size, children } = c;
                        let mut v = match children {
                            Some(v) => v,
                            None => Vec::new(),
                        };
                        assert(child_count(cv) == v@.len());
                        let idx = index_after(v.len());
                        let p = match part_of_exec(&ws, idx) {
                            Ok(p) => p,
                            Err(e) => {
                                proof {
                                    lemma_fold_err(lsv, i + 1, lsv.len() as int);
                                }
                                return Err(e);
                            },
                        };
                        let ghost pv0 = p@;
                        let ghost before = parts_view(v@);
                        v.push(p);
                        assert(parts_view(v@) =~= before.push(pv0));
                        proof {
                            match cv.children {
                                Some(cc) => {
                                    assert(cc == before);
                                },
                                None => {
                                    assert(before =~= Seq::<LsblkPartitionView>::empty());
                                    assert(before.push(pv0) =~= seq![pv0]);
                                },
                            }
                        }
                        cur = Some(LsblkDevice { name, kname, maj_min, uuid, size, children: Some(v) });
                    },
                }
            }
            i = i + 1;
        }
        assert(lsv.len() == ls@.len());
        let ghost old_done = devs_view(done@);
        match cur {
            Some(c) => {
                done.push(c);
                assert(devs_view(done@) =~= old_done.push(c@));
            },
            None => {},
        }
        Ok(LsblkInfo { blockdevices: done })
    }
}

/// The disks whose major number the migrator supports, in order.
pub open spec fn supported_devs(ds: Seq<LsblkDeviceView>) -> Seq<LsblkDeviceView>
    decreases ds.len(),
{
    if ds.len() == 0 {
        ds
    } else {
        let r = supported_devs(ds.drop_last());
        if is_supported_maj_min(ds.last().maj_min) {
            r.push(ds.last())
        } else {
            r
        }
    }
}

impl LsblkInfo {
    /// The disk that a listing of one device shows, from the success and output of `lsblk`.
    pub fn for_device(success: bool, stdout: &str) -> (r: Result<LsblkDevice, MigError>)
        ensures
            !success ==> r == Err::<LsblkDevice, MigError>(MigError { kind: MigErrorKind::ExecProcess }),
            success ==> match lsblk_list(stdout@) {
                Err(k) => r == Err::<LsblkDevice, MigError>(MigError { kind: k }),
                Ok(ds) => if ds.len() == 1 {
                    r matches Ok(d) && d@ == ds[0]
                } else {
                    r == Err::<LsblkDevice, MigError>(MigError { kind: MigErrorKind::InvState })
                },
            },
    {
        if !success {
            return Err(MigError::from_kind(MigErrorKind::ExecProcess));
        }
        let mut info = match LsblkInfo::from_list(stdout) {
            Ok(i) => i,
            Err(e) => {
                return Err(e);
            },
        };
        if info.blockdevices.len() == 1 {
            let ghost v = devs_view(info.blockdevices@);
            let d = info.blockdevices.pop().unwrap();
            assert(d@ == v[0]);
            Ok(d)
        } else {
            Err(MigError::from_kind(MigErrorKind::InvState))
        }
    }

    /// The disks of the machine whose major number the migrator supports, from the success and
    /// output of `lsblk`.
    pub fn all(success: bool, stdout: &str) -> (r: Result<LsblkInfo, MigError>)
        ensures
            !success ==> r == Err::<LsblkInfo, MigError>(MigError { kind: MigErrorKind::ExecProcess }),
            success ==> match lsblk_list(stdout@) {
                Err(k) => r == Err::<LsblkInfo, MigError>(MigError { kind: k }),
                Ok(ds) => r matches Ok(info) && info@ == supported_devs(ds),
            },
    {
        if !success {
            return Err(MigError::from_kind(MigErrorKind::ExecProcess));
        }
        let info = match LsblkInfo::from_list(stdout) {
            Ok(i) => i,
            Err(e) => {
                return Err(e);
            },
        };
        let ghost ds = info@;
        let mut devs = info.blockdevices;
        let mut kept: Vec<LsblkDevice> = Vec::new();
        let mut rest: Vec<LsblkDevice> = Vec::new();
        // take the devices in order: reverse into `rest`, then pop from it
        while devs.len() > 0
            invariant
                devs_view(devs@) + devs_view(rest@).reverse() == ds,
            decreases devs.len(),
        {
            let ghost before_devs = devs_view(devs@);
            let ghost before_rest = devs_view(rest@);
            let d = devs.pop().unwrap();
            rest.push(d);
            assert(devs_view(devs@) =~= before_devs.drop_last());
            assert(devs_view(rest@) =~= before_rest.push(d@));
            assert(devs_view(rest@).reverse() =~= seq![d@] + before_rest.reverse());
            assert(devs_view(devs@) + devs_view(rest@).reverse() =~= before_devs + before_rest.reverse());
        }
        assert(devs_view(devs@) =~= Seq::<LsblkDeviceView>::empty());
        assert(devs_view(rest@).reverse() =~= ds);
        let ghost n = ds.len();
        assert(devs_view(kept@) =~= supported_devs(ds.take(0)));
        while rest.len() > 0
            invariant
                n == ds.len(),
                rest@.len() <= n,
                devs_view(rest@).reverse() == ds.skip(n - rest@.len()),
                devs_view(kept@) == supported_devs(ds.take(n - rest@.len())),
            decreases rest.len(),
        {
            let ghost k = n - rest@.len();
            let ghost before_rest = devs_view(rest@);
            let d = rest.pop().unwrap();
            proof {
                assert(before_rest.reverse()[0] == before_rest.last());
                assert(d@ == ds[k]);
                assert(devs_view(rest@) =~= before_rest.drop_last());
                assert(devs_view(rest@).reverse() =~= ds.skip(k + 1)) by {
                    assert forall|t: int| 0 <= t < devs_view(rest@).len() implies devs_view(rest@).reverse()[t] == ds.skip(k + 1)[t] by {
                        assert(before_rest.reverse()[t + 1] == ds.skip(k)[t + 1]);
                    }
                }
                assert(ds.take(k + 1).drop_last() =~= ds.take(k));
            }
            if supported_maj_min(d.maj_min.as_str()) {
                let ghost before_kept = devs_view(kept@);
                kept.push(d);
                assert(devs_view(kept@) =~= before_kept.push(d@));
            }
        }
        assert(ds.take(n as int) =~= ds);
        Ok(LsblkInfo { blockdevices: kept })
    }
}

/// The partitions of a disk are numbered from 1 in listing order (as 16 bit numbers).
pub open spec fn indexed(d: LsblkDeviceView) -> bool {
    match d.children {
        Some(c) => forall|j: int| 0 <= j < c.len() ==> (#[trigger] c[j]).index == Some(((j + 1) % 65536) as u16),
        None => true,
    }
}

proof fn lemma_fold_indexed(ls: Seq<Seq<char>>, n: int)
    ensures
        list_fold(ls, n) matches Ok(st) ==> (forall|i: int| 0 <= i < st.0.len() ==> indexed(#[trigger] st.0[i]))
            && (st.1 matches Some(c) ==> indexed(c)),
    decreases n,
{
    if n > 0 {
        lemma_fold_indexed(ls, n - 1);
        if let Ok(st) = list_fold(ls, n - 1) {
            let ws = text_words(ls[n - 1]);
            if ws.len() == 10 {
                if let Ok(t) = param_value(ws[9], "TYPE"@) {
                    if t == "disk"@ {
                        if let Ok(d) = disk_of(ws) {
                            let done = match st.1 {
                                Some(c) => st.0.push(c),
                                None => st.0,
                            };
                            assert forall|i: int| 0 <= i < done.len() implies indexed(#[trigger] done[i]) by {
                                if i < st.0.len() {
                                    assert(done[i] == st.0[i]);
                                }
                            }
                        }
                    } else if t == "part"@ {
                        if let Some(c) = st.1 {
                            if let Ok(p) = part_of(ws, next_index(c)) {
                                let c2 = with_child(c, p);
                                let ch = c2.children->0;
                                assert forall|j: int| 0 <= j < ch.len() implies (#[trigger] ch[j]).index == Some(((j + 1) % 65536) as u16) by {
                                    match c.children {
                                        Some(cc) => {
                                            if j < cc.len() {
                                                assert(ch[j] == cc[j]);
                                            }
                                        },
                                        None => {},
                                    }
                                }
                            }
                        }
                    }
                }
            }
        }
    }
}

/// Every disk of a listing has its partitions numbered from 1 in listing order.
pub proof fn lemma_lsblk_list_indexed(text: Seq<char>)
    ensures
        lsblk_list(text) matches Ok(ds) ==> forall|i: int| 0 <= i < ds.len() ==> indexed(#[trigger] ds[i]),
{
    let ls = text_lines(text);
    lemma_fold_indexed(ls, ls.len() as int);
    if let Ok((done, cur)) = list_fold(ls, ls.len() as int) {
        let ds = match cur {
            Some(c) => done.push(c),
            None => done,
        };
        assert forall|i: int| 0 <= i < ds.len() implies indexed(#[trigger] ds[i]) by {
            if i < done.len() {
                assert(ds[i] == done[i]);
            }
        }
    }
}

/// The disks kept by `all` all have a supported major number, and none of the supported ones
/// is dropped.
pub proof fn lemma_supported_devs(ds: Seq<LsblkDeviceView>)
    ensures
        forall|i: int| 0 <= i < supported_devs(ds).len() ==> is_supported_maj_min((#[trigger] supported_devs(ds)[i]).maj_min),
        forall|i: int| 0 <= i < ds.len() && is_supported_maj_min((#[trigger] ds[i]).maj_min) ==> supported_devs(ds).contains(ds[i]),
    decreases ds.len(),
{
    if ds.len() > 0 {
        lemma_supported_devs(ds.drop_last());
        let r = supported_devs(ds.drop_last());
        let out = supported_devs(ds);
        assert forall|i: int| 0 <= i < out.len() implies is_supported_maj_min((#[trigger] out[i]).maj_min) by {
            if i < r.len() {
                assert(out[i] == r[i]);
            }
        }
        assert forall|i: int| 0 <= i < ds.len() && is_supported_maj_min((#[trigger] ds[i]).maj_min) implies out.contains(ds[i]) by {
            if i < ds.len() - 1 {
                assert(ds.drop_last()[i] == ds[i]);
                assert(r.contains(ds[i]));
                let k = choose|k: int| 0 <= k < r.len() && r[k] == ds[i];
                if is_supported_maj_min(ds.last().maj_min) {
                    assert(out[k] == ds[i]);
                }
            } else {
                assert(out[out.len() - 1] == ds[i]);
            }
        }
    }
}

} // verus!
