use vstd::prelude::*;
use crate::defs::{MigError, MigErrorKind};
use crate::lsblk_info::partition::{dev_path, dev_path_of};
use crate::lsblk_info::result_params::opt_view;
use crate::lsblk_info::{before, byte_len};
use crate::paths::{
    file_name, join, path_components, path_eq, path_equal, path_file_name, path_has_prefix, path_join, path_starts_with,
};
use crate::text::{chars_of, starts_at, starts_at_exec, str_eq, string_from_chars};

pub mod lsblk_list;

verus! {

/// Where udev links partitions by partition UUID.
pub const DISK_BY_PARTUUID_PATH: &'static str = "/dev/disk/by-partuuid";

/// Where udev links partitions by file system UUID.
pub const DISK_BY_UUID_PATH: &'static str = "/dev/disk/by-uuid";

/// Where udev links partitions by file system label.
pub const DISK_BY_LABEL_PATH: &'static str = "/dev/disk/by-label";

/// What a partition of the `lsblk -P` listing is, as plain values.
pub struct LsblkPartitionView {
    pub name: Seq<char>,
    pub kname: Seq<char>,
    pub maj_min: Seq<char>,
    pub ro: Seq<char>,
    pub uuid: Option<Seq<char>>,
    pub fstype: Option<Seq<char>>,
    pub mountpoint: Option<Seq<char>>,
    pub label: Option<Seq<char>>,
    pub parttype: Option<Seq<char>>,
    pub partlabel: Option<Seq<char>>,
    pub partuuid: Option<Seq<char>>,
    pub size: Option<u64>,
    pub index: Option<u16>,
}

/// A partition of the `lsblk -P` listing.
#[derive(Debug)]
pub struct LsblkPartition {
    pub name: String,
    pub kname: String,
    pub maj_min: String,
    pub ro: String,
    pub uuid: Option<String>,
    pub fstype: Option<String>,
    pub mountpoint: Option<String>,
    pub label: Option<String>,
    pub parttype: Option<String>,
    pub partlabel: Option<String>,
    pub partuuid: Option<String>,
    pub size: Option<u64>,
    pub index: Option<u16>,
}

impl View for LsblkPartition {
    type V = LsblkPartitionView;

    open spec fn view(&self) -> LsblkPartitionView {
        LsblkPartitionView {
            name: self.name@,
            kname: self.kname@,
            maj_min: self.maj_min@,
            ro: self.ro@,
            uuid: opt_view(self.uuid),
            fstype: opt_view(self.fstype),
            mountpoint: opt_view(self.mountpoint),
            label: opt_view(self.label),
            parttype: opt_view(self.parttype),
            partlabel: opt_view(self.partlabel),
            partuuid: opt_view(self.partuuid),
            size: self.size,
            index: self.index,
        }
    }
}

/// What a disk of the `lsblk -P` listing is, as plain values.
pub struct LsblkDeviceView {
    pub name: Seq<char>,
    pub kname: Seq<char>,
    pub maj_min: Seq<char>,
    pub uuid: Option<Seq<char>>,
    pub size: Option<u64>,
    pub children: Option<Seq<LsblkPartitionView>>,
}

/// A disk of the `lsblk -P` listing with its partitions.
#[derive(Debug)]
pub struct LsblkDevice {
    pub name: String,
    pub kname: String,
    pub maj_min: String,
    pub uuid: Option<String>,
    pub size: Option<u64>,
    pub children: Option<Vec<LsblkPartition>>,
}

/// The views of a list of partitions.
pub open spec fn parts_view(v: Seq<LsblkPartition>) -> Seq<LsblkPartitionView> {
    v.map_values(|p: LsblkPartition| p@)
}

impl View for LsblkDevice {
    type V = LsblkDeviceView;

    open spec fn view(&self) -> LsblkDeviceView {
        LsblkDeviceView {
            name: self.name@,
            kname: self.kname@,
            maj_min: self.maj_min@,
            uuid: opt_view(self.uuid),
            size: self.size,
            children: match self.children {
                Some(c) => Some(parts_view(c@)),
                None => None,
            },
        }
    }
}

/// The views of a list of disks.
pub open spec fn devs_view(v: Seq<LsblkDevice>) -> Seq<LsblkDeviceView> {
    v.map_values(|d: LsblkDevice| d@)
}

/// The udev link of a partition: by partition UUID, file system UUID or label, the first that
/// it has, else its device path.
pub open spec fn alt_path(p: LsblkPartitionView) -> Seq<char> {
    match p.partuuid {
        Some(v) => path_join(DISK_BY_PARTUUID_PATH@, v),
        None => match p.uuid {
            Some(v) => path_join(DISK_BY_UUID_PATH@, v),
            None => match p.label {
                Some(v) => path_join(DISK_BY_LABEL_PATH@, v),
                None => path_join("/dev"@, p.name),
            },
        },
    }
}

impl LsblkPartition {
    /// The device path of the partition.
    pub fn get_path(&self) -> (r: String)
        ensures
            r@ == path_join("/dev"@, self.name@),
    {
        join("/dev", self.name.as_str())
    }

    /// The udev link of the partition.
    pub fn get_alt_path(&self) -> (r: String)
        ensures
            r@ == alt_path(self@),
    {
        match &self.partuuid {
            Some(v) => join(DISK_BY_PARTUUID_PATH, v.as_str()),
            None => match &self.uuid {
                Some(v) => join(DISK_BY_UUID_PATH, v.as_str()),
                None => match &self.label {
                    Some(v) => join(DISK_BY_LABEL_PATH, v.as_str()),
                    None => join("/dev", self.name.as_str()),
                },
            },
        }
    }
}

/// Partition `j` is the first partition of `d` named `name`.
pub open spec fn part_named(d: LsblkDeviceView, name: Seq<char>, j: int) -> bool {
    &&& d.children is Some
    &&& 0 <= j < d.children->0.len()
    &&& d.children->0[j].name == name
    &&& forall|k: int| 0 <= k < j ==> d.children->0[k].name != name
}

/// `d` has a partition named `name`.
pub open spec fn has_part_named(d: LsblkDeviceView, name: Seq<char>) -> bool {
    &&& d.children is Some
    &&& exists|k: int| 0 <= k < d.children->0.len() && d.children->0[k].name == name
}

impl LsblkDevice {
    /// The partition of this disk named `part_name`.
    pub fn get_devinfo_from_part_name(&self, part_name: &str) -> (r: Result<&LsblkPartition, MigError>)
        ensures
            match r {
                Ok(p) => exists|j: int| part_named(self@, part_name@, j) && p@ == self@.children->0[j],
                Err(e) => e.kind == MigErrorKind::NotFound && !has_part_named(self@, part_name@),
            },
    {
        match &self.children {
            Some(children) => {
                let mut j: usize = 0;
                while j < children.len()
                    invariant
                        self.children == Some(*children),
                        j <= children@.len(),
                        forall|k: int| 0 <= k < j ==> children@[k].name@ != part_name@,
                    decreases children.len() - j,
                {
                    if str_eq(children[j].name.as_str(), part_name) {
                        assert(part_named(self@, part_name@, j as int));
                        return Ok(&children[j]);
                    }
                    j = j + 1;
                }
                Err(MigError::from_kind(MigErrorKind::NotFound))
            },
            None => Err(MigError::from_kind(MigErrorKind::NotFound)),
        }
    }

    /// The device path of the disk, `/dev/<name>`.
    pub fn get_path(&self) -> (r: String)
        ensures
            r@ == dev_path(self.name@),
    {
        dev_path_of(self.name.as_str())
    }
}

/// The disks of the machine and their partitions, as `lsblk -P` lists them.
#[derive(Debug)]
pub struct LsblkInfo {
    pub blockdevices: Vec<LsblkDevice>,
}

impl View for LsblkInfo {
    type V = Seq<LsblkDeviceView>;

    open spec fn view(&self) -> Seq<LsblkDeviceView> {
        devs_view(self.blockdevices@)
    }
}

/// A mounted partition whose mountpoint has the components of `path`.
pub open spec fn mount_eq(p: LsblkPartitionView, path: Seq<char>) -> bool {
    p.mountpoint is Some && path_eq(path, p.mountpoint->0)
}

/// A mounted partition whose mountpoint is a leading part of `path`.
pub open spec fn mount_prefix(p: LsblkPartitionView, path: Seq<char>) -> bool {
    p.mountpoint is Some && path_starts_with(path, p.mountpoint->0)
}

/// The partition at `(i, j)` of the disk list, if there is one.
pub open spec fn part_at(devs: Seq<LsblkDeviceView>, i: int, j: int) -> bool {
    0 <= i < devs.len() && devs[i].children is Some && 0 <= j < devs[i].children->0.len()
}

/// `(i, j)` is what a lookup of the mount of `path` finds: the first partition mounted exactly
/// at `path`; or, if there is none, the first of the partitions mounted at a leading part of
/// `path` whose mountpoint is longest.
pub open spec fn path_match(devs: Seq<LsblkDeviceView>, path: Seq<char>, i: int, j: int) -> bool {
    &&& part_at(devs, i, j)
    &&& {
        let p = devs[i].children->0[j];
        if exists|i2: int, j2: int| part_at(devs, i2, j2) && mount_eq(#[trigger] devs[i2].children->0[j2], path) {
            &&& mount_eq(p, path)
            &&& forall|i2: int, j2: int|
                part_at(devs, i2, j2) && before(i2, j2, i, j) ==> !mount_eq(#[trigger] devs[i2].children->0[j2], path)
        } else {
            &&& mount_prefix(p, path)
            &&& forall|i2: int, j2: int|
                part_at(devs, i2, j2) && mount_prefix(#[trigger] devs[i2].children->0[j2], path)
                    ==> byte_len(p.mountpoint->0) >= byte_len(devs[i2].children->0[j2].mountpoint->0)
            &&& forall|i2: int, j2: int|
                part_at(devs, i2, j2) && before(i2, j2, i, j) && mount_prefix(#[trigger] devs[i2].children->0[j2], path)
                    ==> byte_len(p.mountpoint->0) > byte_len(devs[i2].children->0[j2].mountpoint->0)
        }
    }
}

/// The partition a lookup of the mount of `path` takes is mounted at a leading part of the
/// path; unless it is mounted exactly at the path, no listed partition is mounted at a leading
/// part of the path with a longer mountpoint.
pub proof fn lemma_path_match_longest(devs: Seq<LsblkDeviceView>, path: Seq<char>, i: int, j: int)
    requires
        path_match(devs, path, i, j),
    ensures
        mount_prefix(devs[i].children->0[j], path),
        !mount_eq(devs[i].children->0[j], path) ==> forall|i2: int, j2: int|
            part_at(devs, i2, j2) && mount_prefix(#[trigger] devs[i2].children->0[j2], path)
                ==> byte_len(devs[i2].children->0[j2].mountpoint->0) <= byte_len(devs[i].children->0[j].mountpoint->0),
{
    let p = devs[i].children->0[j];
    if mount_eq(p, path) {
        let ca = path_components(path);
        assert(ca.take(ca.len() as int) =~= ca);
    }
}

/// `i` is the first disk that has a partition named `name`.
pub open spec fn first_owner_dev(devs: Seq<LsblkDeviceView>, name: Seq<char>, i: int) -> bool {
    &&& 0 <= i < devs.len()
    &&& has_part_named(devs[i], name)
    &&& forall|k: int| 0 <= k < i ==> !has_part_named(#[trigger] devs[k], name)
}

/// `d` and `p` are what a lookup of the partition `name` finds: the disk that has a partition
/// of that name (the first, should several), and its partition of that name.
pub open spec fn found_part(devs: Seq<LsblkDeviceView>, name: Seq<char>, d: LsblkDeviceView, p: LsblkPartitionView) -> bool {
    exists|i: int, j: int|
        #![trigger first_owner_dev(devs, name, i), part_named(devs[i], name, j)]
        first_owner_dev(devs, name, i) && part_named(devs[i], name, j) && d == devs[i] && p == devs[i].children->0[j]
}

/// A lookup of the partition `name` finds nothing: no disk has a partition of that name.
pub open spec fn missing_part(devs: Seq<LsblkDeviceView>, name: Seq<char>) -> bool {
    forall|k: int| 0 <= k < devs.len() ==> !has_part_named(#[trigger] devs[k], name)
}

impl LsblkInfo {
    /// The disks.
    pub fn get_blk_devices(&self) -> (r: &Vec<LsblkDevice>)
        ensures
            devs_view(r@) == self@,
    {
        &self.blockdevices
    }

    /// The disk and partition of a partition device path such as `/dev/sda1`: the disk that
    /// has a partition named like the file name of the path, and that partition.
    pub fn get_devinfo_from_partition(&self, part_path: &str) -> (r: Result<(&LsblkDevice, &LsblkPartition), MigError>)
        ensures
            match path_file_name(part_path@) {
                None => r == Err::<(&LsblkDevice, &LsblkPartition), MigError>(MigError { kind: MigErrorKind::InvParam }),
                Some(name) => match r {
                    Ok((d, p)) => found_part(self@, name, d@, p@),
                    Err(e) => e.kind == MigErrorKind::NotFound && missing_part(self@, name),
                },
            },
    {
        let path = chars_of(part_path);
        let name = match file_name(path.as_slice()) {
            Some(n) => n,
            None => {
                return Err(MigError::from_kind(MigErrorKind::InvParam));
            },
        };
        let nm = string_from_chars(name.as_slice(), 0, name.len());
        assert(name@.subrange(0, name@.len() as int) =~= name@);
        let ghost devs = self@;
        let mut i: usize = 0;
        while i < self.blockdevices.len()
            invariant
                i <= self.blockdevices@.len(),
                devs == self@,
                devs.len() == self.blockdevices@.len(),
                nm@ == name@,
                path_file_name(part_path@) == Some(name@),
                forall|k: int| 0 <= k < i ==> !has_part_named(#[trigger] devs[k], name@),
            decreases self.blockdevices.len() - i,
        {
            let device = &self.blockdevices[i];
            assert(devs[i as int] == device@);
            match device.get_devinfo_from_part_name(nm.as_str()) {
                Ok(p) => {
                    proof {
                        let j = choose|j: int| part_named(device@, nm@, j) && p@ == device@.children->0[j];
                        assert(has_part_named(devs[i as int], name@));
                        assert(first_owner_dev(devs, name@, i as int) && part_named(devs[i as int], name@, j)
                            && device@ == devs[i as int] && p@ == devs[i as int].children->0[j]);
                        assert(found_part(self@, name@, device@, p@));
                    }
                    return Ok((device, p));
                },
                Err(_) => {},
            }
            i = i + 1;
        }
        Err(MigError::from_kind(MigErrorKind::NotFound))
    }

    fn find_mount(&self, path: &[char]) -> (r: Option<(usize, usize)>)
        ensures
            match r {
                Some((i, j)) => path_match(self@, path@, i as int, j as int)
                    && i < self.blockdevices@.len()
                    && self.blockdevices@[i as int].children is Some
                    && j < self.blockdevices@[i as int].children->0@.len(),
                None => forall|i2: int, j2: int|
                    part_at(self@, i2, j2) ==> !mount_prefix(#[trigger] self@[i2].children->0[j2], path@),
            },
    {
        let ghost devs = self@;
        let mut best: Option<(usize, usize, usize)> = None;
        let mut i: usize = 0;
        while i < self.blockdevices.len()
            invariant
                i <= self.blockdevices@.len(),
                devs == self@,
                devs.len() == self.blockdevices@.len(),
                forall|i2: int, j2: int| part_at(devs, i2, j2) && before(i2, j2, i as int, 0)
                    ==> !mount_eq(#[trigger] devs[i2].children->0[j2], path@),
                best is None ==> forall|i2: int, j2: int| part_at(devs, i2, j2) && before(i2, j2, i as int, 0)
                    ==> !mount_prefix(#[trigger] devs[i2].children->0[j2], path@),
                best matches Some((bi, bj, bl)) ==> {
                    &&& bi < self.blockdevices@.len()
                    &&& self.blockdevices@[bi as int].children is Some
                    &&& bj < self.blockdevices@[bi as int].children->0@.len()
                    &&& part_at(devs, bi as int, bj as int)
                    &&& before(bi as int, bj as int, i as int, 0)
                    &&& mount_prefix(devs[bi as int].children->0[bj as int], path@)
                    &&& bl == byte_len(devs[bi as int].children->0[bj as int].mountpoint->0)
                    &&& forall|i2: int, j2: int| part_at(devs, i2, j2) && before(i2, j2, i as int, 0)
                        && mount_prefix(#[trigger] devs[i2].children->0[j2], path@)
                        ==> bl >= byte_len(devs[i2].children->0[j2].mountpoint->0)
                    &&& forall|i2: int, j2: int| part_at(devs, i2, j2) && before(i2, j2, bi as int, bj as int)
                        && mount_prefix(#[trigger] devs[i2].children->0[j2], path@)
                        ==> bl > byte_len(devs[i2].children->0[j2].mountpoint->0)
                },
            decreases self.blockdevices.len() - i,
        {
            let device = &self.blockdevices[i];
            assert(devs[i as int] == device@);
            match &device.children {
                Some(children) => {
                    let mut j: usize = 0;
                    while j < children.len()
                        invariant
                            i < self.blockdevices@.len(),
                            devs == self@,
                            devs.len() == self.blockdevices@.len(),
                            devs[i as int] == device@,
                            device.children == Some(*children),
                            *device == self.blockdevices@[i as int],
                            j <= children@.len(),
                            forall|i2: int, j2: int| part_at(devs, i2, j2) && before(i2, j2, i as int, j as int)
                                ==> !mount_eq(#[trigger] devs[i2].children->0[j2], path@),
                            best is None ==> forall|i2: int, j2: int| part_at(devs, i2, j2) && before(i2, j2, i as int, j as int)
                                ==> !mount_prefix(#[trigger] devs[i2].children->0[j2], path@),
                            best matches Some((bi, bj, bl)) ==> {
                                &&& bi < self.blockdevices@.len()
                                &&& self.blockdevices@[bi as int].children is Some
                                &&& bj < self.blockdevices@[bi as int].children->0@.len()
                                &&& part_at(devs, bi as int, bj as int)
                                &&& before(bi as int, bj as int, i as int, j as int)
                                &&& mount_prefix(devs[bi as int].children->0[bj as int], path@)
                                &&& bl == byte_len(devs[bi as int].children->0[bj as int].mountpoint->0)
                                &&& forall|i2: int, j2: int| part_at(devs, i2, j2) && before(i2, j2, i as int, j as int)
                                    && mount_prefix(#[trigger] devs[i2].children->0[j2], path@)
                                    ==> bl >= byte_len(devs[i2].children->0[j2].mountpoint->0)
                                &&& forall|i2: int, j2: int| part_at(devs, i2, j2) && before(i2, j2, bi as int, bj as int)
                                    && mount_prefix(#[trigger] devs[i2].children->0[j2], path@)
                                    ==> bl > byte_len(devs[i2].children->0[j2].mountpoint->0)
                            },
                        decreases children.len() - j,
                    {
                        let part = &children[j];
                        assert(devs[i as int].children->0[j as int] == part@);
                        assert(part_at(devs, i as int, j as int));
                        match &part.mountpoint {
                            Some(mp) => {
                                let mpv = chars_of(mp.as_str());
                                if path_equal(path, mpv.as_slice()) {
                                    proof {
                                        assert(mount_eq(devs[i as int].children->0[j as int], path@));
                                        assert(path_match(devs, path@, i as int, j as int));
                                    }
                                    return Some((i, j));
                                }
                                if path_has_prefix(path, mpv.as_slice()) {
                                    let len = mp.as_str().len();
                                    let replace = match best {
                                        Some((_bi, _bj, bl)) => bl < len,
                                        None => true,
                                    };
                                    if replace {
                                        best = Some((i, j, len));
                                    }
                                }
                            },
                            None => {},
                        }
                        j = j + 1;
                    }
                },
                None => {},
            }
            i = i + 1;
        }
        match best {
            Some((bi, bj, _bl)) => {
                proof {
                    assert(!exists|i2: int, j2: int| part_at(devs, i2, j2) && mount_eq(#[trigger] devs[i2].children->0[j2], path@));
                }
                Some((bi, bj))
            },
            None => None,
        }
    }

    /// The disk and partition that hold the absolute, canonical path `abs_path`: the first
    /// partition mounted exactly there or, if there is none, the first of the partitions mounted
    /// at a leading part of it whose mountpoint is longest.
    pub fn get_path_info(&self, abs_path: &str) -> (r: Result<(&LsblkDevice, &LsblkPartition), MigError>)
        ensures
            match r {
                Ok((d, p)) => exists|i: int, j: int|
                    path_match(self@, abs_path@, i, j) && d@ == self@[i] && p@ == self@[i].children->0[j],
                Err(e) => e.kind == MigErrorKind::NotFound && forall|i2: int, j2: int|
                    part_at(self@, i2, j2) ==> !mount_prefix(#[trigger] self@[i2].children->0[j2], abs_path@),
            },
    {
        let path = chars_of(abs_path);
        match self.find_mount(path.as_slice()) {
            Some((i, j)) => {
                let device = &self.blockdevices[i];
                match &device.children {
                    Some(children) => {
                        assert(self@[i as int] == device@);
                        assert(self@[i as int].children->0[j as int] == children@[j as int]@);
                        assert(path_match(self@, abs_path@, i as int, j as int));
                        Ok((device, &children[j]))
                    },
                    None => Err(MigError::from_kind(MigErrorKind::NotFound)),
                }
            },
            None => Err(MigError::from_kind(MigErrorKind::NotFound)),
        }
    }
}

} // verus!
