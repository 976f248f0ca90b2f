use vstd::prelude::*;
use crate::defs::{FileType, MigError, MigErrorKind, OSArch};
use crate::disk_info::{found_part, missing_part, LsblkDeviceView, LsblkInfo, LsblkPartitionView};
use crate::file_type::{expect_type, file_type_matches};
use crate::paths::{path_eq, path_equal, path_file_name, path_has_prefix, path_starts_with};
use crate::text::{chars_of, to_string};

verus! {

/// The type the migration kernel must have on an architecture.
pub open spec fn kernel_type_of(arch: OSArch) -> FileType {
    match arch {
        OSArch::AMD64 => FileType::KernelAMD64,
        OSArch::ARMHF => FileType::KernelARMHF,
        OSArch::I386 => FileType::KernelI386,
    }
}

/// The sizes of the archives of a file system dump that were found: the boot, root A and data
/// archives are required, root B and state are optional.
pub open spec fn dump_space(
    boot: Option<u64>,
    root_a: Option<u64>,
    root_b: Option<u64>,
    state: Option<u64>,
    data: Option<u64>,
) -> Result<int, MigError> {
    if boot is None || root_a is None || data is None {
        Err(MigError { kind: MigErrorKind::Displayed })
    } else {
        Ok(boot->0 + root_a->0 + match root_b {
            Some(s) => s as int,
            None => 0,
        } + match state {
            Some(s) => s as int,
            None => 0,
        } + data->0)
    }
}

fn opt_u64(o: Option<u64>) -> (r: u64)
    ensures
        r == match o {
            Some(s) => s,
            None => 0u64,
        },
{
    match o {
        Some(s) => s,
        None => 0,
    }
}

/// What the first stage gathers on the migration files.
#[derive(Debug)]
pub struct MigrateInfo {
    pub os_arch: OSArch,
    pub os_name: String,
}

impl MigrateInfo {
    /// The type the migration kernel must have on the host's architecture.
    pub fn kernel_file_type(arch: OSArch) -> (r: FileType)
        ensures
            r == kernel_type_of(arch),
    {
        match arch {
            OSArch::AMD64 => FileType::KernelAMD64,
            OSArch::ARMHF => FileType::KernelARMHF,
            OSArch::I386 => FileType::KernelI386,
        }
    }

    /// The space a file system dump takes, from the sizes of the archives that were found.
    pub fn fs_dump_space(
        boot: Option<u64>,
        root_a: Option<u64>,
        root_b: Option<u64>,
        state: Option<u64>,
        data: Option<u64>,
    ) -> (r: Result<u64, MigError>)
        requires
            opt_u64_spec(boot) + opt_u64_spec(root_a) + opt_u64_spec(root_b) + opt_u64_spec(state)
                + opt_u64_spec(data) <= u64::MAX,
        ensures
            match dump_space(boot, root_a, root_b, state, data) {
                Ok(n) => r matches Ok(m) && m == n,
                Err(e) => r == Err::<u64, MigError>(e),
            },
    {
        if boot.is_none() || root_a.is_none() {
            return Err(MigError::displayed());
        }
        let mut req = opt_u64(boot) + opt_u64(root_a) + opt_u64(root_b) + opt_u64(state);
        match data {
            Some(d) => {
                req = req + d;
                Ok(req)
            },
            None => Err(MigError::displayed()),
        }
    }
}

/// The size of an archive that may be missing, 0 when it is.
pub open spec fn opt_u64_spec(o: Option<u64>) -> int {
    match o {
        Some(s) => s as int,
        None => 0,
    }
}

/// Which wifi networks the configuration asks to migrate: none, those named, or all.
#[derive(Debug)]
#[allow(non_camel_case_types)]
pub enum MigrateWifis {
    NONE,
    SOME(Vec<String>),
    ALL,
}

impl MigrateInfo {
    /// The name filter for the wifi scan: no scan for `NONE`, the names for `SOME`, and the
    /// empty filter, which passes every network, for `ALL`.
    pub fn wifi_filter(wifis: &MigrateWifis) -> (r: Option<Vec<String>>)
        ensures
            match wifis {
                MigrateWifis::NONE => r is None,
                MigrateWifis::SOME(list) => r matches Some(f) && f@ == list@,
                MigrateWifis::ALL => r matches Some(f) && f@.len() == 0,
            },
    {
        match wifis {
            MigrateWifis::NONE => None,
            MigrateWifis::SOME(list) => Some(list.clone()),
            MigrateWifis::ALL => Some(Vec::new()),
        }
    }

    /// A migration that brings no network configuration along (no NetworkManager file and no
    /// wifi network) is refused, unless the configuration allows it.
    pub fn network_check(nwmgr_files: usize, wifis: usize, require_nwmgr_configs: bool) -> (r: Result<(), MigError>)
        ensures
            r is Err <==> (nwmgr_files == 0 && wifis == 0 && require_nwmgr_configs),
            r is Err ==> r == Err::<(), MigError>(MigError { kind: MigErrorKind::Displayed }),
    {
        if nwmgr_files == 0 && wifis == 0 && require_nwmgr_configs {
            Err(MigError::displayed())
        } else {
            Ok(())
        }
    }
}

/// Whether the first stage takes a file of the migration (the image, the balena
/// configuration, an archive of a dump): it must exist, lie inside the work directory and on
/// the work directory's partition (`file_part` is the partition `lsblk` finds for it, or the
/// error of that lookup), and `file -bz` (its success and trimmed output) must give it the
/// expected type. A refusal has been reported.
pub open spec fn file_check(
    found: bool,
    file_path: Seq<char>,
    work_dir: Seq<char>,
    file_part: Result<Seq<char>, MigError>,
    work_part: Seq<char>,
    ftype: FileType,
    file_success: bool,
    file_stdout: Seq<char>,
) -> Result<(), MigError> {
    if !found || !path_starts_with(file_path, work_dir) {
        Err(MigError { kind: MigErrorKind::Displayed })
    } else {
        match file_part {
            Err(e) => Err(e),
            Ok(p) => if path_eq(p, work_part) && file_success && file_stdout.len() > 0 && file_type_matches(
                ftype,
                file_stdout,
            ) {
                Ok(())
            } else {
                Err(MigError { kind: MigErrorKind::Displayed })
            },
        }
    }
}

/// The view of a partition lookup's result.
pub open spec fn part_result_view(r: Result<&str, MigError>) -> Result<Seq<char>, MigError> {
    match r {
        Ok(p) => Ok(p@),
        Err(e) => Err(e),
    }
}

impl MigrateInfo {
    /// Checks a file of the migration (see `file_check`).
    pub fn check_file(
        found: bool,
        file_path: &str,
        work_dir: &str,
        file_part: Result<&str, MigError>,
        work_part: &str,
        ftype: FileType,
        file_success: bool,
        file_stdout: &str,
    ) -> (r: Result<(), MigError>)
        ensures
            r == file_check(
                found,
                file_path@,
                work_dir@,
                part_result_view(file_part),
                work_part@,
                ftype,
                file_success,
                file_stdout@,
            ),
    {
        if !found {
            return Err(MigError::displayed());
        }
        let fp = chars_of(file_path);
        let wd = chars_of(work_dir);
        if !path_has_prefix(fp.as_slice(), wd.as_slice()) {
            return Err(MigError::displayed());
        }
        let part = match file_part {
            Err(e) => {
                return Err(e);
            },
            Ok(p) => p,
        };
        let pv = chars_of(part);
        let wp = chars_of(work_part);
        if !path_equal(pv.as_slice(), wp.as_slice()) {
            return Err(MigError::displayed());
        }
        match expect_type(ftype, file_success, file_stdout) {
            Ok(()) => Ok(()),
            Err(_) => Err(MigError::displayed()),
        }
    }

    /// Checks the balena configuration `config.json`: it must lie in the work directory, on
    /// its partition, and be JSON (see `file_check`).
    pub fn check_balena_config(
        found: bool,
        config_path: &str,
        work_dir: &str,
        config_part: Result<&str, MigError>,
        work_part: &str,
        file_success: bool,
        file_stdout: &str,
    ) -> (r: Result<(), MigError>)
        ensures
            r == file_check(
                found,
                config_path@,
                work_dir@,
                part_result_view(config_part),
                work_part@,
                FileType::Json,
                file_success,
                file_stdout@,
            ),
    {
        MigrateInfo::check_file(found, config_path, work_dir, config_part, work_part, FileType::Json, file_success, file_stdout)
    }

    /// Checks the flasher image: it must lie in the work directory, on its partition, and be a
    /// gzipped disk image (see `file_check`).
    pub fn check_os_image(
        found: bool,
        image_path: &str,
        work_dir: &str,
        image_part: Result<&str, MigError>,
        work_part: &str,
        file_success: bool,
        file_stdout: &str,
    ) -> (r: Result<(), MigError>)
        ensures
            r == file_check(
                found,
                image_path@,
                work_dir@,
                part_result_view(image_part),
                work_part@,
                FileType::GZipOSImage,
                file_success,
                file_stdout@,
            ),
    {
        MigrateInfo::check_file(found, image_path, work_dir, image_part, work_part, FileType::GZipOSImage, file_success, file_stdout)
    }

    /// Checks an archive of a file system dump: it must lie in the work directory, on its
    /// partition, and be a gzipped tar archive (see `file_check`).
    pub fn check_dump(
        found: bool,
        archive_path: &str,
        work_dir: &str,
        archive_part: Result<&str, MigError>,
        work_part: &str,
        file_success: bool,
        file_stdout: &str,
    ) -> (r: Result<(), MigError>)
        ensures
            r == file_check(
                found,
                archive_path@,
                work_dir@,
                part_result_view(archive_part),
                work_part@,
                FileType::GZipTar,
                file_success,
                file_stdout@,
            ),
    {
        MigrateInfo::check_file(found, archive_path, work_dir, archive_part, work_part, FileType::GZipTar, file_success, file_stdout)
    }

    /// The log device the second stage writes to, from the configured device (its path with
    /// any `/dev/disk` link resolved): its path and file system type where `lsblk` lists the
    /// partition with a type; none (a warning) where it does not.
    pub fn log_device_info(lsblk_info: &LsblkInfo, log_dev: Option<&str>) -> (r: Option<(String, String)>)
        ensures
            match log_dev {
                None => r is None,
                Some(d) => match path_file_name(d@) {
                    None => r is None,
                    Some(name) => match r {
                        Some((path, fstype)) => path@ == d@ && exists|dv: LsblkDeviceView, pv: LsblkPartitionView|
                            found_part(lsblk_info@, name, dv, pv) && pv.fstype == Some(fstype@),
                        None => missing_part(lsblk_info@, name) || exists|dv: LsblkDeviceView, pv: LsblkPartitionView|
                            found_part(lsblk_info@, name, dv, pv) && pv.fstype is None,
                    },
                },
            },
    {
        let d = match log_dev {
            None => {
                return None;
            },
            Some(d) => d,
        };
        match lsblk_info.get_devinfo_from_partition(d) {
            Err(_) => None,
            Ok((_dev, part)) => match &part.fstype {
                Some(t) => Some((to_string(d), to_string(t.as_str()))),
                None => None,
            },
        }
    }
}

} // verus!
