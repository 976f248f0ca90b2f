use vstd::prelude::*;
use crate::defs::{MigError, MigErrorKind};
use crate::paths::{file_name, path_eq, path_equal, path_file_name, path_has_prefix, path_starts_with};
use crate::text::{chars_of, digit_char, is_ascii_digit, is_digit, str_eq, string_from_chars};

pub mod block_device;
pub mod calls;
pub mod parse;
pub mod partition;
pub mod render;
pub mod result_params;

use block_device::{
    block_device_error, block_device_from, params_view, partitions_view, BlockDevice,
    BlockDeviceView,
};
use partition::{partition_error, partition_from, Partition, PartitionView};
use result_params::{field_str, ResultParams};

verus! {

/// End of the run of decimal digits that starts at `i`.
pub open spec fn run_digits(s: Seq<char>, i: int) -> int
    decreases s.len() - i,
{
    if i < 0 || i >= s.len() || !is_digit(s[i]) {
        i
    } else {
        run_digits(s, i + 1)
    }
}

/// The run of digits from `i` stays within `s` and holds digits only.
pub proof fn lemma_run_digits_pub(s: Seq<char>, i: int)
    requires
        0 <= i <= s.len(),
    ensures
        i <= run_digits(s, i) <= s.len(),
        forall|k: int| i <= k < run_digits(s, i) ==> is_digit(#[trigger] s[k]),
        run_digits(s, i) < s.len() ==> !is_digit(s[run_digits(s, i)]),
{
    lemma_run_digits(s, i);
}

proof fn lemma_run_digits(s: Seq<char>, i: int)
    requires
        0 <= i <= s.len(),
    ensures
        i <= run_digits(s, i) <= s.len(),
        forall|k: int| i <= k < run_digits(s, i) ==> is_digit(#[trigger] s[k]),
        run_digits(s, i) < s.len() ==> !is_digit(s[run_digits(s, i)]),
    decreases s.len() - i,
{
    if i < s.len() && is_digit(s[i]) {
        lemma_run_digits(s, i + 1);
    }
}

/// The major number of a `MAJ:MIN` value (`^(\d+):\d+$`), when it has that shape.
pub open spec fn maj_min_major(mm: Seq<char>) -> Option<Seq<char>> {
    let k = run_digits(mm, 0);
    if 0 < k && k + 1 < mm.len() && mm[k] == ':' && run_digits(mm, k + 1) == mm.len() {
        Some(mm.take(k))
    } else {
        None
    }
}

/// The block device major numbers the migrator supports.
pub open spec fn is_supported_major(a: Seq<char>) -> bool {
    a == "3"@ || a == "8"@ || a == "9"@ || a == "21"@ || a == "33"@ || a == "34"@ || a == "44"@
        || a == "48"@ || a == "49"@ || a == "50"@ || a == "51"@ || a == "52"@ || a == "53"@
        || a == "54"@ || a == "55"@ || a == "56"@ || a == "57"@ || a == "58"@ || a == "64"@
        || a == "65"@ || a == "66"@ || a == "67"@ || a == "68"@ || a == "69"@ || a == "70"@
        || a == "71"@ || a == "72"@ || a == "73"@ || a == "74"@ || a == "75"@ || a == "76"@
        || a == "77"@ || a == "78"@ || a == "79"@ || a == "80"@ || a == "81"@ || a == "82"@
        || a == "83"@ || a == "84"@ || a == "85"@ || a == "86"@ || a == "87"@ || a == "179"@
        || a == "180"@ || a == "259"@
}

/// Decides `is_supported_major`.
pub fn supported_major(a: &str) -> (r: bool)
    ensures
        r == is_supported_major(a@),
{
    str_eq(a, "3") || str_eq(a, "8") || str_eq(a, "9") || str_eq(a, "21") || str_eq(a, "33")
        || str_eq(a, "34") || str_eq(a, "44") || str_eq(a, "48") || str_eq(a, "49") || str_eq(a, "50")
        || str_eq(a, "51") || str_eq(a, "52") || str_eq(a, "53") || str_eq(a, "54") || str_eq(a, "55")
        || str_eq(a, "56") || str_eq(a, "57") || str_eq(a, "58") || str_eq(a, "64") || str_eq(a, "65")
        || str_eq(a, "66") || str_eq(a, "67") || str_eq(a, "68") || str_eq(a, "69") || str_eq(a, "70")
        || str_eq(a, "71") || str_eq(a, "72") || str_eq(a, "73") || str_eq(a, "74") || str_eq(a, "75")
        || str_eq(a, "76") || str_eq(a, "77") || str_eq(a, "78") || str_eq(a, "79") || str_eq(a, "80")
        || str_eq(a, "81") || str_eq(a, "82") || str_eq(a, "83") || str_eq(a, "84") || str_eq(a, "85")
        || str_eq(a, "86") || str_eq(a, "87") || str_eq(a, "179") || str_eq(a, "180") || str_eq(a, "259")
}

/// The block device major numbers of disks the migrator works with: IDE, SCSI disks, MD,
/// the ranges of further SCSI disk majors, MMC, the u-boot NAND and block extended (NVMe).
pub open spec fn supported_major_list() -> Seq<Seq<char>> {
    seq![
        "3"@,
        "8"@,
        "9"@,
        "21"@,
        "33"@,
        "34"@,
        "44"@,
        "48"@,
        "49"@,
        "50"@,
        "51"@,
        "52"@,
        "53"@,
        "54"@,
        "55"@,
        "56"@,
        "57"@,
        "58"@,
        "64"@,
        "65"@,
        "66"@,
        "67"@,
        "68"@,
        "69"@,
        "70"@,
        "71"@,
        "72"@,
        "73"@,
        "74"@,
        "75"@,
        "76"@,
        "77"@,
        "78"@,
        "79"@,
        "80"@,
        "81"@,
        "82"@,
        "83"@,
        "84"@,
        "85"@,
        "86"@,
        "87"@,
        "179"@,
        "180"@,
        "259"@
    ]
}

/// Every major number of the list is supported.
pub proof fn lemma_supported_major_list(a: Seq<char>)
    requires
        supported_major_list().contains(a),
    ensures
        is_supported_major(a),
{
    let l = supported_major_list();
    let k = choose|k: int| 0 <= k < l.len() && l[k] == a;
    assert(0 <= k < 45);
}

proof fn lemma_run_digits_to(s: Seq<char>, i: int, e: int)
    requires
        0 <= i <= e <= s.len(),
        forall|k: int| i <= k < e ==> is_digit(#[trigger] s[k]),
        e == s.len() || !is_digit(s[e]),
    ensures
        run_digits(s, i) == e,
    decreases e - i,
{
    if i < e {
        lemma_run_digits_to(s, i + 1, e);
    }
}

/// A `MAJ:MIN` value of decimal digits has the digits before the colon as its major number.
pub proof fn lemma_maj_min_major(a: Seq<char>, m: Seq<char>)
    requires
        a.len() > 0,
        m.len() > 0,
        forall|k: int| 0 <= k < a.len() ==> is_ascii_digit(#[trigger] a[k]),
        forall|k: int| 0 <= k < m.len() ==> is_ascii_digit(#[trigger] m[k]),
    ensures
        maj_min_major(a + ":"@ + m) == Some(a),
{
    reveal_strlit(":");
    let s = a + ":"@ + m;
    assert(forall|k: int| 0 <= k < a.len() ==> s[k] == a[k]);
    assert(s[a.len() as int] == ':');
    assert(forall|k: int| a.len() + 1 <= k < s.len() ==> s[k] == m[k - a.len() - 1]);
    lemma_run_digits_to(s, 0, a.len() as int);
    lemma_run_digits_to(s, a.len() + 1int, s.len() as int);
    assert(s.take(a.len() as int) =~= a);
}

/// A disk or partition whose major number is in the list is kept, whatever its minor number:
/// `MAJ:MIN` values such as `8:0` (SATA), `179:0` (MMC) or `259:0` (NVMe) are supported.
pub proof fn lemma_supported_maj_min(a: Seq<char>, m: Seq<char>)
    requires
        supported_major_list().contains(a),
        m.len() > 0,
        forall|k: int| 0 <= k < m.len() ==> is_ascii_digit(#[trigger] m[k]),
    ensures
        is_supported_maj_min(a + ":"@ + m),
{
        reveal_strlit("3");
        reveal_strlit("8");
        reveal_strlit("9");
        reveal_strlit("21");
        reveal_strlit("33");
        reveal_strlit("34");
        reveal_strlit("44");
        reveal_strlit("48");
        reveal_strlit("49");
        reveal_strlit("50");
        reveal_strlit("51");
        reveal_strlit("52");
        reveal_strlit("53");
        reveal_strlit("54");
        reveal_strlit("55");
        reveal_strlit("56");
        reveal_strlit("57");
        reveal_strlit("58");
        reveal_strlit("64");
        reveal_strlit("65");
        reveal_strlit("66");
        reveal_strlit("67");
        reveal_strlit("68");
        reveal_strlit("69");
        reveal_strlit("70");
        reveal_strlit("71");
        reveal_strlit("72");
        reveal_strlit("73");
        reveal_strlit("74");
        reveal_strlit("75");
        reveal_strlit("76");
        reveal_strlit("77");
        reveal_strlit("78");
        reveal_strlit("79");
        reveal_strlit("80");
        reveal_strlit("81");
        reveal_strlit("82");
        reveal_strlit("83");
        reveal_strlit("84");
        reveal_strlit("85");
        reveal_strlit("86");
        reveal_strlit("87");
        reveal_strlit("179");
        reveal_strlit("180");
        reveal_strlit("259");
    lemma_supported_major_list(a);
    let l = supported_major_list();
    let j = choose|j: int| 0 <= j < l.len() && l[j] == a;
    assert(a.len() > 0 && forall|k: int| 0 <= k < a.len() ==> is_ascii_digit(#[trigger] a[k]));
    lemma_maj_min_major(a, m);
}

/// Whether a `MAJ:MIN` value names a device of a supported major number.
pub open spec fn is_supported_maj_min(mm: Seq<char>) -> bool {
    match maj_min_major(mm) {
        Some(a) => is_supported_major(a),
        None => false,
    }
}

/// Decides `is_supported_maj_min`.
pub fn supported_maj_min(mm: &str) -> (r: bool)
    ensures
        r == is_supported_maj_min(mm@),
{
    let v = chars_of(mm);
    let mut k: usize = 0;
    while k < v.len() && digit_char(v[k])
        invariant
            k <= v@.len(),
            run_digits(v@, k as int) == run_digits(v@, 0),
        decreases v.len() - k,
    {
        k = k + 1;
    }
    proof {
        lemma_run_digits(v@, 0);
    }
    if 0 < k && k < v.len() && k + 1 < v.len() && v[k] == ':' {
        let mut j: usize = k + 1;
        while j < v.len() && digit_char(v[j])
            invariant
                k + 1 <= j <= v@.len(),
                run_digits(v@, j as int) == run_digits(v@, k + 1),
            decreases v.len() - j,
        {
            j = j + 1;
        }
        if j == v.len() {
            let major = string_from_chars(v.as_slice(), 0, k);
            assert(v@.subrange(0, k as int) =~= v@.take(k as int));
            supported_major(major.as_str())
        } else {
            false
        }
    } else {
        false
    }
}

/// `d` with `p` added as its last partition.
pub open spec fn add_child(d: BlockDeviceView, p: PartitionView) -> BlockDeviceView {
    BlockDeviceView {
        name: d.name,
        kname: d.kname,
        maj_min: d.maj_min,
        uuid: d.uuid,
        size: d.size,
        children: Some(
            match d.children {
                Some(c) => c.push(p),
                None => seq![p],
            },
        ),
    }
}

/// One line of the `lsblk` listing applied to the devices found so far: a partition joins the
/// last device, a disk of a supported major number is added, anything else is skipped.
pub open spec fn lsblk_step(
    acc: Result<Seq<BlockDeviceView>, MigErrorKind>,
    l: Seq<(Seq<char>, Seq<char>)>,
    u: Seq<(Seq<char>, Seq<char>)>,
) -> Result<Seq<BlockDeviceView>, MigErrorKind> {
    match acc {
        Err(k) => Err(k),
        Ok(devs) => match field_str(l, "TYPE"@) {
            Err(k) => Err(k),
            Ok(t) => if t == "part"@ {
                if devs.len() == 0 {
                    Err(MigErrorKind::InvParam)
                } else {
                    match partition_error(l, u) {
                        Some(k) => Err(k),
                        None => Ok(
                            devs.update(devs.len() - 1, add_child(devs.last(), partition_from(l, u))),
                        ),
                    }
                }
            } else if t == "disk"@ {
                match field_str(l, "MAJ:MIN"@) {
                    Err(k) => Err(k),
                    Ok(mm) => if is_supported_maj_min(mm) {
                        match block_device_error(l) {
                            Some(k) => Err(k),
                            None => Ok(devs.push(block_device_from(l))),
                        }
                    } else {
                        Ok(devs)
                    },
                }
            } else {
                Ok(devs)
            },
        },
    }
}

/// The devices of the first `n` lines of the `lsblk` listing.
pub open spec fn lsblk_devices(
    ls: Seq<Seq<(Seq<char>, Seq<char>)>>,
    us: Seq<Seq<(Seq<char>, Seq<char>)>>,
    n: int,
) -> Result<Seq<BlockDeviceView>, MigErrorKind>
    decreases n,
{
    if n <= 0 {
        Ok(Seq::empty())
    } else {
        lsblk_step(lsblk_devices(ls, us, n - 1), ls[n - 1], us[n - 1])
    }
}

proof fn lemma_lsblk_devices_err(
    ls: Seq<Seq<(Seq<char>, Seq<char>)>>,
    us: Seq<Seq<(Seq<char>, Seq<char>)>>,
    i: int,
    n: int,
)
    requires
        i <= n,
        lsblk_devices(ls, us, i) is Err,
    ensures
        lsblk_devices(ls, us, n) == lsblk_devices(ls, us, i),
    decreases n - i,
{
    if n > i {
        lemma_lsblk_devices_err(ls, us, i, n - 1);
    }
}

/// The partition field a lookup goes by.
#[derive(Clone, Copy, PartialEq, Eq, Structural)]
pub enum PartKey {
    PartUuid,
    Uuid,
    Label,
}

/// The value of the field `key` of a partition.
pub open spec fn part_key(p: PartitionView, key: PartKey) -> Option<Seq<char>> {
    match key {
        PartKey::PartUuid => p.partuuid,
        PartKey::Uuid => p.uuid,
        PartKey::Label => p.label,
    }
}

/// Device `i` has a partition whose field `key` is `v`.
pub open spec fn dev_has_key(d: BlockDeviceView, key: PartKey, v: Seq<char>) -> bool {
    &&& d.children is Some
    &&& exists|j: int| 0 <= j < d.children->0.len() && part_key(d.children->0[j], key) == Some(v)
}

/// `(i, j)` is the first partition, in listing order, whose field `key` is `v`.
pub open spec fn first_key_match(devs: Seq<BlockDeviceView>, key: PartKey, v: Seq<char>, i: int, j: int) -> bool {
    &&& 0 <= i < devs.len()
    &&& forall|k: int| 0 <= k < i ==> !dev_has_key(#[trigger] devs[k], key, v)
    &&& devs[i].children is Some
    &&& 0 <= j < devs[i].children->0.len()
    &&& part_key(devs[i].children->0[j], key) == Some(v)
    &&& forall|k: int| 0 <= k < j ==> part_key(#[trigger] devs[i].children->0[k], key) != Some(v)
}

/// A mounted partition whose mountpoint has the components of `path`.
pub open spec fn mount_eq(p: PartitionView, path: Seq<char>) -> bool {
    p.mountpoint is Some && path_eq(path, p.mountpoint->0)
}

/// A mounted partition whose mountpoint is a leading part of `path`.
pub open spec fn mount_prefix(p: PartitionView, path: Seq<char>) -> bool {
    p.mountpoint is Some && path_starts_with(path, p.mountpoint->0)
}

/// The UTF-8 length of a string, as `str::len` reports it.
pub open spec fn byte_len(s: Seq<char>) -> nat {
    (vstd::utf8::encode_utf8(s).len() as usize) as nat
}

/// The partition at `(i, j)` of the device list, if there is one.
pub open spec fn part_at(devs: Seq<BlockDeviceView>, i: int, j: int) -> bool {
    0 <= i < devs.len() && devs[i].children is Some && 0 <= j < devs[i].children->0.len()
}

/// Position `(i, j)` comes before `(i2, j2)` in listing order.
pub open spec fn before(i: int, j: int, i2: int, j2: int) -> bool {
    i < i2 || (i == i2 && j < j2)
}

/// `(i, j)` is what a lookup of the mount of `path` finds: the first partition mounted exactly
/// at `path`; or, if there is none, the first of the partitions mounted at a leading part of
/// `path` whose mountpoint is longest.
pub open spec fn path_match(devs: Seq<BlockDeviceView>, path: Seq<char>, i: int, j: int) -> bool {
    &&& part_at(devs, i, j)
    &&& {
        let p = devs[i].children->0[j];
        if exists|i2: int, j2: int| part_at(devs, i2, j2) && mount_eq(#[trigger] devs[i2].children->0[j2], path) {
            &&& mount_eq(p, path)
            &&& forall|i2: int, j2: int|
                part_at(devs, i2, j2) && before(i2, j2, i, j) ==> !mount_eq(#[trigger] devs[i2].children->0[j2], path)
        } else {
            &&& mount_prefix(p, path)
            &&& forall|i2: int, j2: int|
                part_at(devs, i2, j2) && mount_prefix(#[trigger] devs[i2].children->0[j2], path)
                    ==> byte_len(p.mountpoint->0) >= byte_len(devs[i2].children->0[j2].mountpoint->0)
            &&& forall|i2: int, j2: int|
                part_at(devs, i2, j2) && before(i2, j2, i, j) && mount_prefix(#[trigger] devs[i2].children->0[j2], path)
                    ==> byte_len(p.mountpoint->0) > byte_len(devs[i2].children->0[j2].mountpoint->0)
        }
    }
}

/// `(i, j)` is the first partition named `name` in the first device that has one.
pub open spec fn first_named(devs: Seq<BlockDeviceView>, name: Seq<char>, i: int, j: int) -> bool {
    &&& 0 <= i < devs.len()
    &&& forall|k: int| 0 <= k < i ==> !block_device::has_child_named(#[trigger] devs[k], name)
    &&& block_device::child_named(devs[i], name, j)
}

/// The block devices of the machine and their partitions, as `lsblk` lists them.
#[derive(Debug)]
pub struct LsblkInfo {
    blockdevices: Vec<BlockDevice>,
}

impl View for LsblkInfo {
    type V = Seq<BlockDeviceView>;

    closed spec fn view(&self) -> Seq<BlockDeviceView> {
        self.blockdevices@.map_values(|d: BlockDevice| d@)
    }
}


impl LsblkInfo {
    /// The devices of an `lsblk` listing (all devices, one line each, in listing order);
    /// `udev_results[i]` holds the `udevadm` properties of the device of line `i`.
    pub fn new(lsblk_results: &Vec<ResultParams>, udev_results: &Vec<ResultParams>) -> (r: Result<LsblkInfo, MigError>)
        requires
            udev_results@.len() == lsblk_results@.len(),
        ensures
            match r {
                Ok(info) => lsblk_devices(params_view(lsblk_results@), params_view(udev_results@), lsblk_results@.len() as int)
                    == Ok::<Seq<BlockDeviceView>, MigErrorKind>(info@),
                Err(e) => lsblk_devices(params_view(lsblk_results@), params_view(udev_results@), lsblk_results@.len() as int)
                    == Err::<Seq<BlockDeviceView>, MigErrorKind>(e.kind),
            },
    {
        let ghost ls = params_view(lsblk_results@);
        let ghost us = params_view(udev_results@);
        let ghost n = lsblk_results@.len() as int;
        let mut devs: Vec<BlockDevice> = Vec::new();
        assert(devs@.map_values(|d: BlockDevice| d@) =~= Seq::<BlockDeviceView>::empty());
        let mut i: usize = 0;
        while i < lsblk_results.len()
            invariant
                i <= lsblk_results@.len(),
                n == lsblk_results@.len(),
                udev_results@.len() == lsblk_results@.len(),
                ls == params_view(lsblk_results@),
                us == params_view(udev_results@),
                lsblk_devices(ls, us, i as int) == Ok::<Seq<BlockDeviceView>, MigErrorKind>(
                    devs@.map_values(|d: BlockDevice| d@),
                ),
            decreases lsblk_results.len() - i,
        {
            assert(ls[i as int] == lsblk_results@[i as int]@ && us[i as int] == udev_results@[i as int]@);
            let ghost before = devs@.map_values(|d: BlockDevice| d@);
            let dev_type = match lsblk_results[i].get_str("TYPE") {
                Ok(t) => t,
                Err(e) => {
                    proof {
                        lemma_lsblk_devices_err(ls, us, i + 1, n);
                    }
                    return Err(e);
                },
            };
            if str_eq(dev_type, "part") {
                if devs.len() == 0 {
                    proof {
                        lemma_lsblk_devices_err(ls, us, i + 1, n);
                    }
                    return Err(MigError::from_kind(MigErrorKind::InvParam));
                }
                let partition = match Partition::new(&lsblk_results[i], &udev_results[i]) {
                    Ok(p) => p,
                    Err(e) => {
                        proof {
                            lemma_lsblk_devices_err(ls, us, i + 1, n);
                        }
                        return Err(e);
                    },
                };
                let last = devs.pop().unwrap();
                let BlockDevice { name, kname, maj_min, uuid, size, children } = last;
                let ghost old_children = children;
                let new_children = match children {
                    Some(c) => {
                        let mut c = c;
                        c.push(partition);
                        c
                    },
                    None => {
                        let mut c: Vec<Partition> = Vec::new();
                        c.push(partition);
                        c
                    },
                };
                proof {
                    match old_children {
                        Some(c) => {
                            assert(partitions_view(new_children@) =~= partitions_view(c@).push(partition@));
                        },
                        None => {
                            assert(partitions_view(new_children@) =~= seq![partition@]);
                        },
                    }
                }
                devs.push(BlockDevice { name, kname, maj_min, uuid, size, children: Some(new_children) });
                assert(devs@.map_values(|d: BlockDevice| d@) =~= before.update(
                    before.len() - 1,
                    add_child(before.last(), partition_from(ls[i as int], us[i as int])),
                ));
            } else if str_eq(dev_type, "disk") {
                let maj_min = match lsblk_results[i].get_str("MAJ:MIN") {
                    Ok(m) => m,
                    Err(e) => {
                        proof {
                            lemma_lsblk_devices_err(ls, us, i + 1, n);
                        }
                        return Err(e);
                    },
                };
                if supported_maj_min(maj_min) {
                    let device = match BlockDevice::new(&lsblk_results[i]) {
                        Ok(d) => d,
                        Err(e) => {
                            proof {
                                lemma_lsblk_devices_err(ls, us, i + 1, n);
                            }
                            return Err(e);
                        },
                    };
                    devs.push(device);
                    assert(devs@.map_values(|d: BlockDevice| d@) =~= before.push(block_device_from(ls[i as int])));
                }
            }
            i = i + 1;
        }
        Ok(LsblkInfo { blockdevices: devs })
    }

    /// The block devices, in listing order.
    pub fn get_blk_devices(&self) -> (r: &Vec<BlockDevice>)
        ensures
            r@.map_values(|d: BlockDevice| d@) == self@,
    {
        &self.blockdevices
    }

    fn find_by_key(&self, key: PartKey, value: &str) -> (r: Option<(usize, usize)>)
        ensures
            match r {
                Some((i, j)) => first_key_match(self@, key, value@, i as int, j as int)
                    && i < self.blockdevices@.len()
                    && self.blockdevices@[i as int].children is Some
                    && j < self.blockdevices@[i as int].children->0@.len(),
                None => forall|k: int| 0 <= k < self@.len() ==> !dev_has_key(#[trigger] self@[k], key, value@),
            },
    {
        let ghost devs = self@;
        let mut i: usize = 0;
        while i < self.blockdevices.len()
            invariant
                i <= self.blockdevices@.len(),
                devs == self@,
                devs.len() == self.blockdevices@.len(),
                forall|k: int| 0 <= k < i ==> !dev_has_key(#[trigger] devs[k], key, value@),
            decreases self.blockdevices.len() - i,
        {
            let device = &self.blockdevices[i];
            assert(devs[i as int] == device@);
            match &device.children {
                Some(children) => {
                    let mut j: usize = 0;
                    while j < children.len()
                        invariant
                            i < self.blockdevices@.len(),
                            devs == self@,
                            devs.len() == self.blockdevices@.len(),
                            devs[i as int] == device@,
                            device.children == Some(*children),
                            *device == self.blockdevices@[i as int],
                            j <= children@.len(),
                            forall|k: int| 0 <= k < i ==> !dev_has_key(#[trigger] devs[k], key, value@),
                            forall|k: int| 0 <= k < j ==> part_key(#[trigger] devs[i as int].children->0[k], key) != Some(value@),
                        decreases children.len() - j,
                    {
                        let part = &children[j];
                        assert(devs[i as int].children->0[j as int] == part@);
                        let hit = match key {
                            PartKey::PartUuid => match &part.partuuid {
                                Some(v) => str_eq(v.as_str(), value),
                                None => false,
                            },
                            PartKey::Uuid => match &part.uuid {
                                Some(v) => str_eq(v.as_str(), value),
                                None => false,
                            },
                            PartKey::Label => match &part.label {
                                Some(v) => str_eq(v.as_str(), value),
                                None => false,
                            },
                        };
                        if hit {
                            return Some((i, j));
                        }
                        j = j + 1;
                    }
                },
                None => {},
            }
            i = i + 1;
        }
        None
    }

    fn get_by_key(&self, key: PartKey, value: &str) -> (r: Result<(&BlockDevice, &Partition), MigError>)
        ensures
            match r {
                Ok((d, p)) => exists|i: int, j: int|
                    first_key_match(self@, key, value@, i, j) && d@ == self@[i] && p@ == self@[i].children->0[j],
                Err(e) => e.kind == MigErrorKind::NotFound
                    && forall|k: int| 0 <= k < self@.len() ==> !dev_has_key(#[trigger] self@[k], key, value@),
            },
    {
        match self.find_by_key(key, value) {
            Some((i, j)) => {
                let device = &self.blockdevices[i];
                match &device.children {
                    Some(children) => {
                        assert(self@[i as int] == device@);
                        assert(self@[i as int].children->0[j as int] == children@[j as int]@);
                        Ok((device, &children[j]))
                    },
                    None => Err(MigError::from_kind(MigErrorKind::NotFound)),
                }
            },
            None => Err(MigError::from_kind(MigErrorKind::NotFound)),
        }
    }

    /// The device and partition with the partition UUID `partuuid`.
    pub fn get_devices_for_partuuid(&self, partuuid: &str) -> (r: Result<(&BlockDevice, &Partition), MigError>)
        ensures
            match r {
                Ok((d, p)) => exists|i: int, j: int|
                    first_key_match(self@, PartKey::PartUuid, partuuid@, i, j) && d@ == self@[i] && p@ == self@[i].children->0[j],
                Err(e) => e.kind == MigErrorKind::NotFound
                    && forall|k: int| 0 <= k < self@.len() ==> !dev_has_key(#[trigger] self@[k], PartKey::PartUuid, partuuid@),
            },
    {
        self.get_by_key(PartKey::PartUuid, partuuid)
    }

    /// The device and partition with the file system UUID `uuid`.
    pub fn get_devices_for_uuid(&self, uuid: &str) -> (r: Result<(&BlockDevice, &Partition), MigError>)
        ensures
            match r {
                Ok((d, p)) => exists|i: int, j: int|
                    first_key_match(self@, PartKey::Uuid, uuid@, i, j) && d@ == self@[i] && p@ == self@[i].children->0[j],
                Err(e) => e.kind == MigErrorKind::NotFound
                    && forall|k: int| 0 <= k < self@.len() ==> !dev_has_key(#[trigger] self@[k], PartKey::Uuid, uuid@),
            },
    {
        self.get_by_key(PartKey::Uuid, uuid)
    }

    /// The device and partition with the file system label `label`.
    pub fn get_devices_for_label(&self, label: &str) -> (r: Result<(&BlockDevice, &Partition), MigError>)
        ensures
            match r {
                Ok((d, p)) => exists|i: int, j: int|
                    first_key_match(self@, PartKey::Label, label@, i, j) && d@ == self@[i] && p@ == self@[i].children->0[j],
                Err(e) => e.kind == MigErrorKind::NotFound
                    && forall|k: int| 0 <= k < self@.len() ==> !dev_has_key(#[trigger] self@[k], PartKey::Label, label@),
            },
    {
        self.get_by_key(PartKey::Label, label)
    }

    /// The device and partition of a partition device path such as `/dev/sda1` (already
    /// resolved from any `/dev/disk/by-*` link): the partition named like the last component.
    #[verifier::spinoff_prover]
    pub fn get_devices_for_partition(&self, part_path: &str) -> (r: Result<(&BlockDevice, &Partition), MigError>)
        ensures
            match path_file_name(part_path@) {
                None => r == Err::<(&BlockDevice, &Partition), MigError>(MigError { kind: MigErrorKind::InvParam }),
                Some(name) => match r {
                    Ok((d, p)) => exists|i: int, j: int|
                        first_named(self@, name, i, j) && d@ == self@[i] && p@ == self@[i].children->0[j],
                    Err(e) => e.kind == MigErrorKind::NotFound
                        && forall|k: int| 0 <= k < self@.len() ==> !block_device::has_child_named(#[trigger] self@[k], name),
                },
            },
    {
        let path = chars_of(part_path);
        let name_chars = match file_name(path.as_slice()) {
            Some(n) => n,
            None => {
                return Err(MigError::from_kind(MigErrorKind::InvParam));
            },
        };
        let name = string_from_chars(name_chars.as_slice(), 0, name_chars.len());
        assert(name_chars@.subrange(0, name_chars@.len() as int) =~= name_chars@);
        match self.find_named(name.as_str()) {
            Some((i, j)) => {
                let device = &self.blockdevices[i];
                match &device.children {
                    Some(children) => {
                        assert(self@[i as int] == device@);
                        assert(self@[i as int].children->0[j as int] == children@[j as int]@);
                        let ghost nm = path_file_name(part_path@)->0;
                        assert(nm == name@);
                        assert(first_named(self@, nm, i as int, j as int));
                        Ok((device, &children[j]))
                    },
                    None => Err(MigError::from_kind(MigErrorKind::NotFound)),
                }
            },
            None => Err(MigError::from_kind(MigErrorKind::NotFound)),
        }
    }

    fn find_named(&self, name: &str) -> (r: Option<(usize, usize)>)
        ensures
            match r {
                Some((i, j)) => first_named(self@, name@, i as int, j as int)
                    && i < self.blockdevices@.len()
                    && self.blockdevices@[i as int].children is Some
                    && j < self.blockdevices@[i as int].children->0@.len(),
                None => forall|k: int| 0 <= k < self@.len() ==> !block_device::has_child_named(#[trigger] self@[k], name@),
            },
    {
        let ghost devs = self@;
        let mut i: usize = 0;
        while i < self.blockdevices.len()
            invariant
                i <= self.blockdevices@.len(),
                devs == self@,
                devs.len() == self.blockdevices@.len(),
                forall|k: int| 0 <= k < i ==> !block_device::has_child_named(#[trigger] devs[k], name@),
            decreases self.blockdevices.len() - i,
        {
            let device = &self.blockdevices[i];
            assert(devs[i as int] == device@);
            match &device.children {
                Some(children) => {
                    let mut j: usize = 0;
                    while j < children.len()
                        invariant
                            i < self.blockdevices@.len(),
                            devs == self@,
                            devs.len() == self.blockdevices@.len(),
                            devs[i as int] == device@,
                            device.children == Some(*children),
                            *device == self.blockdevices@[i as int],
                            j <= children@.len(),
                            forall|k: int| 0 <= k < i ==> !block_device::has_child_named(#[trigger] devs[k], name@),
                            forall|k: int| 0 <= k < j ==> (#[trigger] devs[i as int].children->0[k]).name != name@,
                        decreases children.len() - j,
                    {
                        assert(devs[i as int].children->0[j as int] == children@[j as int]@);
                        if str_eq(children[j].name.as_str(), name) {
                            assert(block_device::child_named(devs[i as int], name@, j as int));
                            return Some((i, j));
                        }
                        j = j + 1;
                    }
                },
                None => {},
            }
            i = i + 1;
        }
        None
    }
}


impl LsblkInfo {
    fn find_mount(&self, path: &[char]) -> (r: Option<(usize, usize)>)
        ensures
            match r {
                Some((i, j)) => path_match(self@, path@, i as int, j as int)
                    && i < self.blockdevices@.len()
                    && self.blockdevices@[i as int].children is Some
                    && j < self.blockdevices@[i as int].children->0@.len(),
                None => forall|i2: int, j2: int|
                    part_at(self@, i2, j2) ==> !mount_prefix(#[trigger] self@[i2].children->0[j2], path@),
            },
    {
        let ghost devs = self@;
        let mut best: Option<(usize, usize, usize)> = None;
        let mut i: usize = 0;
        while i < self.blockdevices.len()
            invariant
                i <= self.blockdevices@.len(),
                devs == self@,
                devs.len() == self.blockdevices@.len(),
                forall|i2: int, j2: int| part_at(devs, i2, j2) && before(i2, j2, i as int, 0)
                    ==> !mount_eq(#[trigger] devs[i2].children->0[j2], path@),
                best is None ==> forall|i2: int, j2: int| part_at(devs, i2, j2) && before(i2, j2, i as int, 0)
                    ==> !mount_prefix(#[trigger] devs[i2].children->0[j2], path@),
                best matches Some((bi, bj, bl)) ==> {
                    &&& bi < self.blockdevices@.len()
                    &&& self.blockdevices@[bi as int].children is Some
                    &&& bj < self.blockdevices@[bi as int].children->0@.len()
                    &&& part_at(devs, bi as int, bj as int)
                    &&& before(bi as int, bj as int, i as int, 0)
                    &&& mount_prefix(devs[bi as int].children->0[bj as int], path@)
                    &&& bl == byte_len(devs[bi as int].children->0[bj as int].mountpoint->0)
                    &&& forall|i2: int, j2: int| part_at(devs, i2, j2) && before(i2, j2, i as int, 0)
                        && mount_prefix(#[trigger] devs[i2].children->0[j2], path@)
                        ==> bl >= byte_len(devs[i2].children->0[j2].mountpoint->0)
                    &&& forall|i2: int, j2: int| part_at(devs, i2, j2) && before(i2, j2, bi as int, bj as int)
                        && mount_prefix(#[trigger] devs[i2].children->0[j2], path@)
                        ==> bl > byte_len(devs[i2].children->0[j2].mountpoint->0)
                },
            decreases self.blockdevices.len() - i,
        {
            let device = &self.blockdevices[i];
            assert(devs[i as int] == device@);
            match &device.children {
                Some(children) => {
                    let mut j: usize = 0;
                    while j < children.len()
                        invariant
                            i < self.blockdevices@.len(),
                            devs == self@,
                            devs.len() == self.blockdevices@.len(),
                            devs[i as int] == device@,
                            device.children == Some(*children),
                            *device == self.blockdevices@[i as int],
                            j <= children@.len(),
                            forall|i2: int, j2: int| part_at(devs, i2, j2) && before(i2, j2, i as int, j as int)
                                ==> !mount_eq(#[trigger] devs[i2].children->0[j2], path@),
                            best is None ==> forall|i2: int, j2: int| part_at(devs, i2, j2) && before(i2, j2, i as int, j as int)
                                ==> !mount_prefix(#[trigger] devs[i2].children->0[j2], path@),
                            best matches Some((bi, bj, bl)) ==> {
                                &&& bi < self.blockdevices@.len()
                                &&& self.blockdevices@[bi as int].children is Some
                                &&& bj < self.blockdevices@[bi as int].children->0@.len()
                                &&& part_at(devs, bi as int, bj as int)
                                &&& before(bi as int, bj as int, i as int, j as int)
                                &&& mount_prefix(devs[bi as int].children->0[bj as int], path@)
                                &&& bl == byte_len(devs[bi as int].children->0[bj as int].mountpoint->0)
                                &&& forall|i2: int, j2: int| part_at(devs, i2, j2) && before(i2, j2, i as int, j as int)
                                    && mount_prefix(#[trigger] devs[i2].children->0[j2], path@)
                                    ==> bl >= byte_len(devs[i2].children->0[j2].mountpoint->0)
                                &&& forall|i2: int, j2: int| part_at(devs, i2, j2) && before(i2, j2, bi as int, bj as int)
                                    && mount_prefix(#[trigger] devs[i2].children->0[j2], path@)
                                    ==> bl > byte_len(devs[i2].children->0[j2].mountpoint->0)
                            },
                        decreases children.len() - j,
                    {
                        let part = &children[j];
                        assert(devs[i as int].children->0[j as int] == part@);
                        assert(part_at(devs, i as int, j as int));
                        match &part.mountpoint {
                            Some(mp) => {
                                let mpv = chars_of(mp.as_str());
                                if path_equal(path, mpv.as_slice()) {
                                    proof {
                                        assert(mount_eq(devs[i as int].children->0[j as int], path@));
                                        assert(path_match(devs, path@, i as int, j as int));
                                    }
                                    return Some((i, j));
                                }
                                if path_has_prefix(path, mpv.as_slice()) {
                                    let len = mp.as_str().len();
                                    let replace = match best {
                                        Some((_bi, _bj, bl)) => bl < len,
                                        None => true,
                                    };
                                    if replace {
                                        best = Some((i, j, len));
                                    }
                                }
                            },
                            None => {},
                        }
                        j = j + 1;
                    }
                },
                None => {},
            }
            i = i + 1;
        }
        match best {
            Some((bi, bj, _bl)) => {
                proof {
                    assert(!exists|i2: int, j2: int| part_at(devs, i2, j2) && mount_eq(#[trigger] devs[i2].children->0[j2], path@));
                }
                Some((bi, bj))
            },
            None => None,
        }
    }

    /// The device and partition that hold the absolute, canonical path `abs_path`: the first
    /// partition mounted exactly there or, if there is none, the first of the partitions mounted
    /// at a leading part of it whose mountpoint is longest.
    pub fn get_devices_for_path(&self, abs_path: &str) -> (r: Result<(&BlockDevice, &Partition), MigError>)
        ensures
            match r {
                Ok((d, p)) => exists|i: int, j: int|
                    path_match(self@, abs_path@, i, j) && d@ == self@[i] && p@ == self@[i].children->0[j],
                Err(e) => e.kind == MigErrorKind::NotFound && forall|i2: int, j2: int|
                    part_at(self@, i2, j2) ==> !mount_prefix(#[trigger] self@[i2].children->0[j2], abs_path@),
            },
    {
        let path = chars_of(abs_path);
        match self.find_mount(path.as_slice()) {
            Some((i, j)) => {
                let device = &self.blockdevices[i];
                match &device.children {
                    Some(children) => {
                        assert(self@[i as int] == device@);
                        assert(self@[i as int].children->0[j as int] == children@[j as int]@);
                        assert(path_match(self@, abs_path@, i as int, j as int));
                        Ok((device, &children[j]))
                    },
                    None => Err(MigError::from_kind(MigErrorKind::NotFound)),
                }
            },
            None => Err(MigError::from_kind(MigErrorKind::NotFound)),
        }
    }
}

} // verus!
