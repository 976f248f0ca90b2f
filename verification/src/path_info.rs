use vstd::prelude::*;
use crate::defs::{MigError, MigErrorKind};
use crate::disk_info::{
    found_part, missing_part, mount_prefix, part_at, path_match, LsblkDevice, LsblkDeviceView,
    LsblkInfo, LsblkPartition, LsblkPartitionView,
};
use crate::lsblk_info::partition::dev_path;
use crate::lsblk_info::result_params::opt_view;
use crate::paths::{path_eq, path_equal, path_file_name, path_join};
use crate::text::{chars_of, push_str, to_string};

verus! {

/// Where a path lies: its partition and drive, and the space of its file system.
#[derive(Debug)]
pub struct PathInfo {
    pub path: String,
    pub drive: String,
    pub drive_size: u64,
    pub device: String,
    pub index: u16,
    pub mountpoint: String,
    pub fs_type: String,
    pub uuid: Option<String>,
    pub part_uuid: Option<String>,
    pub part_label: Option<String>,
    pub part_size: u64,
    pub fs_size: u64,
    pub fs_free: u64,
}

/// How the kernel command line names a partition: by partition UUID, by file system UUID, or
/// by path.
pub open spec fn kernel_cmd(part_uuid: Option<Seq<char>>, uuid: Option<Seq<char>>, path: Seq<char>) -> Seq<char> {
    match part_uuid {
        Some(p) => "PARTUUID="@ + p,
        None => match uuid {
            Some(u) => "UUID="@ + u,
            None => path,
        },
    }
}

/// The kernel command line names the root partition by the field its value comes from: with a
/// partition UUID by `PARTUUID=` and that UUID, else with a file system UUID by `UUID=` and that
/// UUID, else by its device path. The two kinds of name never coincide.
pub proof fn lemma_kernel_cmd_names(part_uuid: Option<Seq<char>>, uuid: Option<Seq<char>>, path: Seq<char>)
    ensures
        part_uuid matches Some(p) ==> ({
            let r = kernel_cmd(part_uuid, uuid, path);
            &&& r.take(9) == "PARTUUID="@
            &&& r.skip(9) == p
        }),
        part_uuid is None ==> (uuid matches Some(u) ==> ({
            let r = kernel_cmd(part_uuid, uuid, path);
            &&& r.take(5) == "UUID="@
            &&& r.skip(5) == u
        })),
        part_uuid is None && uuid is None ==> kernel_cmd(part_uuid, uuid, path) == path,
        forall|p: Seq<char>, u: Seq<char>| "PARTUUID="@ + p != "UUID="@ + u,
{
    reveal_strlit("PARTUUID=");
    reveal_strlit("UUID=");
    if let Some(p) = part_uuid {
        let r = kernel_cmd(part_uuid, uuid, path);
        assert(r.take(9) =~= "PARTUUID="@);
        assert(r.skip(9) =~= p);
    } else if let Some(u) = uuid {
        let r = kernel_cmd(part_uuid, uuid, path);
        assert(r.take(5) =~= "UUID="@);
        assert(r.skip(5) =~= u);
    }
    assert forall|p: Seq<char>, u: Seq<char>| "PARTUUID="@ + p != "UUID="@ + u by {
        assert(("PARTUUID="@ + p)[0] == 'P');
        assert(("UUID="@ + u)[0] == 'U');
    }
}

/// A partition and disk as `from_mounted` needs them: with an index, a drive size, a file
/// system type and a size.
pub open spec fn mounted_complete(d: LsblkDeviceView, p: LsblkPartitionView) -> bool {
    p.index is Some && d.size is Some && p.fstype is Some && p.size is Some
}

fn clone_opt(o: &Option<String>) -> (r: Option<String>)
    ensures
        opt_view(r) == opt_view(*o),
{
    match o {
        Some(s) => Some(to_string(s.as_str())),
        None => None,
    }
}

impl PathInfo {
    /// How the kernel command line names the partition of the path.
    pub fn get_kernel_cmd(&self) -> (r: String)
        ensures
            r@ == kernel_cmd(opt_view(self.part_uuid), opt_view(self.uuid), self.path@),
    {
        match &self.part_uuid {
            Some(p) => {
                let mut r = to_string("PARTUUID=");
                push_str(&mut r, p.as_str());
                r
            },
            None => match &self.uuid {
                Some(u) => {
                    let mut r = to_string("UUID=");
                    push_str(&mut r, u.as_str());
                    r
                },
                None => to_string(self.path.as_str()),
            },
        }
    }

    /// The path information of `abs_path`, mounted at `mountpoint` from `partition` of `device`,
    /// with the size and free space of its file system as `df` reported them. A partition
    /// without an index, file system type or size, or of a disk without a size, is refused.
    pub fn from_mounted(
        abs_path: &str,
        mountpoint: &str,
        device: &LsblkDevice,
        partition: &LsblkPartition,
        fs_space: Result<(u64, u64), MigError>,
    ) -> (r: Result<PathInfo, MigError>)
        ensures
            fs_space is Err ==> r == Err::<PathInfo, MigError>(fs_space->Err_0),
            fs_space is Ok && !mounted_complete(device@, partition@) ==> r == Err::<PathInfo, MigError>(
                MigError { kind: MigErrorKind::InvParam },
            ),
            fs_space is Ok && mounted_complete(device@, partition@) ==> (r matches Ok(pi) && {
                &&& pi.path@ == abs_path@
                &&& pi.device@ == path_join("/dev"@, partition.name@)
                &&& pi.index == partition.index->0
                &&& pi.mountpoint@ == mountpoint@
                &&& pi.drive@ == dev_path(device.name@)
                &&& pi.drive_size == device.size->0
                &&& pi.fs_type@ == partition@.fstype->0
                &&& opt_view(pi.uuid) == partition@.uuid
                &&& opt_view(pi.part_uuid) == partition@.partuuid
                &&& opt_view(pi.part_label) == partition@.partlabel
                &&& pi.part_size == partition.size->0
                &&& pi.fs_size == fs_space->Ok_0.0
                &&& pi.fs_free == fs_space->Ok_0.1
            }),
    {
        let (fs_size, fs_free) = match fs_space {
            Ok(s) => s,
            Err(e) => {
                return Err(e);
            },
        };
        let index = match partition.index {
            Some(i) => i,
            None => {
                return Err(MigError::from_kind(MigErrorKind::InvParam));
            },
        };
        let drive_size = match device.size {
            Some(s) => s,
            None => {
                return Err(MigError::from_kind(MigErrorKind::InvParam));
            },
        };
        let fs_type = match &partition.fstype {
            Some(t) => to_string(t.as_str()),
            None => {
                return Err(MigError::from_kind(MigErrorKind::InvParam));
            },
        };
        let part_size = match partition.size {
            Some(s) => s,
            None => {
                return Err(MigError::from_kind(MigErrorKind::InvParam));
            },
        };
        Ok(
            PathInfo {
                path: to_string(abs_path),
                drive: device.get_path(),
                drive_size,
                device: partition.get_path(),
                index,
                mountpoint: to_string(mountpoint),
                fs_type,
                uuid: clone_opt(&partition.uuid),
                part_uuid: clone_opt(&partition.partuuid),
                part_label: clone_opt(&partition.partlabel),
                part_size,
                fs_size,
                fs_free,
            },
        )
    }

    /// The first stage takes a path only where `lsblk` told its file system type and the size
    /// of its partition: an empty type or a size of 0 is refused.
    pub fn check_attributes(&self) -> (r: Result<(), MigError>)
        ensures
            r is Err <==> (self.fs_type@.len() == 0 || self.part_size == 0),
            r is Err ==> r == Err::<(), MigError>(MigError { kind: MigErrorKind::InvParam }),
    {
        if self.fs_type.as_str().is_empty() || self.part_size == 0 {
            Err(MigError::from_kind(MigErrorKind::InvParam))
        } else {
            Ok(())
        }
    }

    /// The disk, partition and mountpoint that a canonical path lies on: the root path is looked
    /// up by the kernel's root device, another path by its mounts; the partition must be
    /// mounted.
    pub fn find_mounted<'a>(lsblk_info: &'a LsblkInfo, abs_path: &str, root_device: &str) -> (r: Result<
        (&'a LsblkDevice, &'a LsblkPartition, String),
        MigError,
    >)
        ensures
            path_eq(abs_path@, "/"@) ==> match path_file_name(root_device@) {
                None => r == Err::<(&LsblkDevice, &LsblkPartition, String), MigError>(
                    MigError { kind: MigErrorKind::InvParam },
                ),
                Some(name) => match r {
                    Ok((d, p, m)) => found_part(lsblk_info@, name, d@, p@) && p@.mountpoint == Some(m@),
                    Err(e) => (e.kind == MigErrorKind::NotFound && missing_part(lsblk_info@, name)) || (
                    e.kind == MigErrorKind::InvState && exists|d: LsblkDeviceView, p: LsblkPartitionView|
                        found_part(lsblk_info@, name, d, p) && p.mountpoint is None),
                },
            },
            !path_eq(abs_path@, "/"@) ==> match r {
                Ok((d, p, m)) => (exists|i: int, j: int|
                    path_match(lsblk_info@, abs_path@, i, j) && d@ == lsblk_info@[i] && p@
                        == lsblk_info@[i].children->0[j]) && p@.mountpoint == Some(m@),
                Err(e) => e.kind == MigErrorKind::NotFound && forall|i2: int, j2: int|
                    part_at(lsblk_info@, i2, j2) ==> !mount_prefix(
                        #[trigger] lsblk_info@[i2].children->0[j2],
                        abs_path@,
                    ),
            },
    {
        let p = chars_of(abs_path);
        let root = chars_of("/");
        let (device, partition) = if path_equal(p.as_slice(), root.as_slice()) {
            match lsblk_info.get_devinfo_from_partition(root_device) {
                Ok(dp) => dp,
                Err(e) => {
                    return Err(e);
                },
            }
        } else {
            match lsblk_info.get_path_info(abs_path) {
                Ok(dp) => dp,
                Err(e) => {
                    return Err(e);
                },
            }
        };
        match &partition.mountpoint {
            Some(m) => Ok((device, partition, to_string(m.as_str()))),
            None => {
                proof {
                    if path_eq(abs_path@, "/"@) {
                        let name = path_file_name(root_device@)->0;
                        assert(found_part(lsblk_info@, name, device@, partition@));
                    }
                }
                Err(MigError::from_kind(MigErrorKind::InvState))
            },
        }
    }
}

} // verus!
