use vstd::prelude::*;
use crate::defs::{MigError, MigErrorKind};
use crate::fs_writer::{FsDumpBlocks, PartCheck};
use crate::lsblk_info::result_params::opt_view;
use crate::migrator::{relative_path, relative_path_exec};
use crate::path_info::PathInfo;
use crate::paths::{path_eq, path_equal, path_has_prefix, path_starts_with};
use crate::stage2::flow::FailMode;
use crate::stage2::PathType;
use crate::text::{chars_of, to_string};

verus! {

// The first stage hands the second its decisions in the stage 2 configuration, which it
// writes to the boot partition, where the second stage finds it.

/// A boot file that the first stage saved before it changed it: the device and file system
/// type of its partition, and where the copy and the file lie on it.
#[derive(Debug)]
pub struct BootBackup {
    pub device: String,
    pub fstype: String,
    pub backup: String,
    pub source: String,
}

/// The settings of the configuration that the second stage takes over as they are.
#[derive(Debug, Clone, Copy)]
pub struct Stage2Settings {
    pub gzip_internal: bool,
    pub no_flash: bool,
    pub has_backup: bool,
    pub migrate_delay: u64,
    pub blocks: FsDumpBlocks,
    pub max_data: Option<bool>,
    pub check: PartCheck,
    pub mkfs_direct: bool,
    pub fail_mode: FailMode,
}

/// What the first stage hands the second.
#[derive(Debug)]
pub struct Stage2Config {
    /// Whether the image is written to the disk as a whole; else the disk is partitioned for
    /// the file systems of a dump.
    pub flasher: bool,
    /// Whether a flasher image is decompressed by the second stage rather than by `gzip`.
    pub gzip_internal: bool,
    pub force_flash_device: Option<String>,
    pub no_flash: bool,
    /// Where the work directory is, seen from the second stage.
    pub work: PathType,
    /// The partition of the work directory, and its drive where it is not the boot partition.
    pub work_device: String,
    pub work_drive: Option<String>,
    pub log_device: Option<String>,
    /// The flasher image, relative to the work directory.
    pub image_rel_path: String,
    /// The archives of the five partitions of a dump, relative to the work directory.
    pub archives: Vec<String>,
    /// The balena configuration, relative to the work directory.
    pub config_rel_path: String,
    pub has_backup: bool,
    pub boot_backups: Vec<BootBackup>,
    pub migrate_delay: u64,
    pub blocks: FsDumpBlocks,
    pub max_data: Option<bool>,
    pub check: PartCheck,
    pub mkfs_direct: bool,
    pub fail_mode: FailMode,
}

/// A file of the work directory, relative to it; none where it lies elsewhere.
pub open spec fn work_relative(file: Seq<char>, work_dir: Seq<char>) -> Option<Seq<char>> {
    if path_starts_with(file, work_dir) {
        Some(relative_path(file, work_dir))
    } else {
        None
    }
}

fn work_relative_exec(file: &str, work_dir: &str) -> (r: Result<String, MigError>)
    ensures
        match work_relative(file@, work_dir@) {
            Some(p) => r matches Ok(s) && s@ == p,
            None => r == Err::<String, MigError>(MigError { kind: MigErrorKind::InvParam }),
        },
{
    let f = chars_of(file);
    let w = chars_of(work_dir);
    if path_has_prefix(f.as_slice(), w.as_slice()) {
        Ok(relative_path_exec(file, work_dir))
    } else {
        Err(MigError::from_kind(MigErrorKind::InvParam))
    }
}

impl Stage2Config {
    /// Where the second stage finds the work directory: on the boot partition, by its path
    /// below the boot partition's mountpoint; else by mounting the work directory's partition
    /// and the path below that partition's mountpoint. A work directory that does not lie below
    /// the mountpoint is an invalid state.
    pub fn work_location(work: &PathInfo, boot: &PathInfo) -> (r: Result<PathType, MigError>)
        ensures
            path_eq(work.device@, boot.device@) ==> match work_relative(work.path@, boot.mountpoint@) {
                Some(p) => r matches Ok(PathType::Path(q)) && q@ == p,
                None => r == Err::<PathType, MigError>(MigError { kind: MigErrorKind::InvState }),
            },
            !path_eq(work.device@, boot.device@) ==> match work_relative(work.path@, work.mountpoint@) {
                Some(p) => r matches Ok(PathType::Mount { device, fstype, path }) && device@ == work.device@
                    && fstype@ == work.fs_type@ && path@ == p,
                None => r == Err::<PathType, MigError>(MigError { kind: MigErrorKind::InvState }),
            },
    {
        let wd = chars_of(work.device.as_str());
        let bd = chars_of(boot.device.as_str());
        if path_equal(wd.as_slice(), bd.as_slice()) {
            match work_relative_exec(work.path.as_str(), boot.mountpoint.as_str()) {
                Ok(p) => Ok(PathType::Path(p)),
                Err(_) => Err(MigError::from_kind(MigErrorKind::InvState)),
            }
        } else {
            match work_relative_exec(work.path.as_str(), work.mountpoint.as_str()) {
                Ok(p) => Ok(
                    PathType::Mount {
                        device: to_string(work.device.as_str()),
                        fstype: to_string(work.fs_type.as_str()),
                        path: p,
                    },
                ),
                Err(_) => Err(MigError::from_kind(MigErrorKind::InvState)),
            }
        }
    }

    /// The stage 2 configuration of a migration: the work location (see `work_location`), the
    /// image (a flasher image, or else the archives of a dump) and the balena configuration
    /// relative to the work directory, which they must lie in (else an invalid parameter), the
    /// log device, the flash device the configuration forces, the boot files saved and the
    /// settings taken over as they are.
    pub fn plan(
        work: &PathInfo,
        boot: &PathInfo,
        flasher_image: Option<&str>,
        archives: &Vec<String>,
        config: &str,
        log_device: Option<&str>,
        force_flash_device: Option<&str>,
        boot_backups: Vec<BootBackup>,
        settings: Stage2Settings,
    ) -> (r: Result<Stage2Config, MigError>)
        ensures
            r matches Ok(c) ==> {
                &&& c.flasher == (flasher_image is Some)
                &&& (path_eq(work.device@, boot.device@) ==> (c.work matches PathType::Path(q) && Some(q@)
                    == work_relative(work.path@, boot.mountpoint@) && c.work_drive is None))
                &&& (!path_eq(work.device@, boot.device@) ==> (c.work matches PathType::Mount { device, fstype, path }
                    && device@ == work.device@ && fstype@ == work.fs_type@ && Some(path@) == work_relative(
                    work.path@,
                    work.mountpoint@,
                ) && (c.work_drive matches Some(d) && d@ == work.drive@)))
                &&& c.work_device@ == work.device@
                &&& match flasher_image {
                    Some(i) => Some(c.image_rel_path@) == work_relative(i@, work.path@) && c.archives@.len() == 0,
                    None => c.image_rel_path@.len() == 0 && c.archives@.len() == archives@.len() && forall|k: int|
                        0 <= k < archives@.len() ==> Some((#[trigger] c.archives@[k])@) == work_relative(
                            archives@[k]@,
                            work.path@,
                        ),
                }
                &&& Some(c.config_rel_path@) == work_relative(config@, work.path@)
                &&& opt_view(c.log_device) == match log_device {
                    Some(l) => Some(l@),
                    None => None,
                }
                &&& opt_view(c.force_flash_device) == match force_flash_device {
                    Some(f) => Some(f@),
                    None => None,
                }
                &&& c.boot_backups@ == boot_backups@
                &&& c.gzip_internal == settings.gzip_internal && c.no_flash == settings.no_flash
                &&& c.has_backup == settings.has_backup && c.migrate_delay == settings.migrate_delay
                &&& c.blocks == settings.blocks && c.max_data == settings.max_data && c.check == settings.check
                &&& c.mkfs_direct == settings.mkfs_direct && c.fail_mode == settings.fail_mode
            },
            r is Err ==> r->Err_0.kind == MigErrorKind::InvState || r->Err_0.kind == MigErrorKind::InvParam,
            (path_eq(work.device@, boot.device@) ==> work_relative(work.path@, boot.mountpoint@) is Some)
                && (!path_eq(work.device@, boot.device@) ==> work_relative(work.path@, work.mountpoint@) is Some)
                && match flasher_image {
                    Some(i) => work_relative(i@, work.path@) is Some,
                    None => forall|k: int| 0 <= k < archives@.len() ==> work_relative(#[trigger] archives@[k]@, work.path@) is Some,
                } && work_relative(config@, work.path@) is Some ==> r is Ok,
    {
        let location = Stage2Config::work_location(work, boot)?;
        let work_drive = match &location {
            PathType::Path(_) => None,
            PathType::Mount { .. } => Some(to_string(work.drive.as_str())),
        };
        let mut image_rel_path = String::new();
        let mut rel_archives: Vec<String> = Vec::new();
        match flasher_image {
            Some(i) => {
                image_rel_path = work_relative_exec(i, work.path.as_str())?;
            },
            None => {
                let mut k: usize = 0;
                while k < archives.len()
                    invariant
                        k <= archives@.len(),
                        flasher_image is None,
                        rel_archives@.len() == k,
                        forall|j: int| 0 <= j < k ==> Some((#[trigger] rel_archives@[j])@) == work_relative(
                            archives@[j]@,
                            work.path@,
                        ),
                    decreases archives.len() - k,
                {
                    let rel = match work_relative_exec(archives[k].as_str(), work.path.as_str()) {
                        Ok(rel) => rel,
                        Err(e) => {
                            assert(work_relative(archives@[k as int]@, work.path@) is None);
                            return Err(e);
                        },
                    };
                    rel_archives.push(rel);
                    k = k + 1;
                }
            },
        }
        let config_rel_path = work_relative_exec(config, work.path.as_str())?;
        Ok(
            Stage2Config {
                flasher: flasher_image.is_some(),
                gzip_internal: settings.gzip_internal,
                force_flash_device: match force_flash_device {
                    Some(f) => Some(to_string(f)),
                    None => None,
                },
                no_flash: settings.no_flash,
                work: location,
                work_device: to_string(work.device.as_str()),
                work_drive,
                log_device: match log_device {
                    Some(l) => Some(to_string(l)),
                    None => None,
                },
                image_rel_path,
                archives: rel_archives,
                config_rel_path,
                has_backup: settings.has_backup,
                boot_backups,
                migrate_delay: settings.migrate_delay,
                blocks: settings.blocks,
                max_data: settings.max_data,
                check: settings.check,
                mkfs_direct: settings.mkfs_direct,
                fail_mode: settings.fail_mode,
            },
        )
    }
}

} // verus!
