use vstd::prelude::*;
use crate::defs::{MigError, MigErrorKind};
use crate::ensured_cmds::{cmd_path, EnsuredCmds};
use crate::lsblk_info::result_params::opt_view;
use crate::paths::{join, path_eq, path_equal, path_join};
use crate::text::{chars_of, push_char, push_str, to_string};

pub mod config;
pub mod flow;

verus! {

/// The directory under which the second stage mounts file systems.
pub const MOUNT_DIR: &'static str = "/tmp_mount";

/// The file system types the second stage tries on a device of unknown type.
pub open spec fn try_fs_types() -> Seq<Seq<char>> {
    seq!["ext4"@, "vfat"@, "ntfs"@, "ext2"@, "ext3"@]
}

/// Where the working directory of the migration is: a path on the boot partition, or a path on
/// a device of its own.
#[derive(Debug)]
pub enum PathType {
    Path(String),
    Mount { device: String, fstype: String, path: String },
}

/// The file systems the second stage has mounted: the former boot partition with the stage 2
/// configuration, and the work and log locations.
#[derive(Debug)]
pub struct Mounts {
    pub stage2_config: String,
    pub flash_device: String,
    pub boot_part: String,
    pub boot_mountpoint: String,
    pub work_no_copy: bool,
    pub work_path: Option<String>,
    pub work_mountpoint: Option<String>,
    pub log_path: Option<String>,
}

/// The mountpoint the second stage uses for `dir`.
pub open spec fn mountpoint_of(dir: Seq<char>) -> Seq<char> {
    path_join(MOUNT_DIR@, dir)
}

impl Mounts {
    /// The mounts once the boot partition `boot_part` of `flash_device` is mounted at
    /// `boot_mountpoint` and holds the stage 2 configuration `stage2_config`.
    pub fn from_boot(stage2_config: String, flash_device: String, boot_part: String, boot_mountpoint: String) -> (r: Mounts)
        ensures
            r.stage2_config@ == stage2_config@,
            r.flash_device@ == flash_device@,
            r.boot_part@ == boot_part@,
            r.boot_mountpoint@ == boot_mountpoint@,
            !r.work_no_copy,
            r.work_path is None,
            r.work_mountpoint is None,
            r.log_path is None,
    {
        Mounts {
            stage2_config,
            flash_device,
            boot_part,
            boot_mountpoint,
            work_no_copy: false,
            work_path: None,
            work_mountpoint: None,
            log_path: None,
        }
    }

    /// The file system types to try when mounting the boot partition: the one the kernel command
    /// line names, else the usual ones.
    pub fn fs_types_to_try(kernel_fs_type: Option<&str>) -> (r: Vec<String>)
        ensures
            r@.map_values(|s: String| s@) == match kernel_fs_type {
                Some(t) => seq![t@],
                None => try_fs_types(),
            },
    {
        let mut r: Vec<String> = Vec::new();
        match kernel_fs_type {
            Some(t) => {
                r.push(to_string(t));
                assert(r@.map_values(|s: String| s@) =~= seq![t@]);
            },
            None => {
                r.push(to_string("ext4"));
                r.push(to_string("vfat"));
                r.push(to_string("ntfs"));
                r.push(to_string("ext2"));
                r.push(to_string("ext3"));
                assert(r@.map_values(|s: String| s@) =~= try_fs_types());
            },
        }
        r
    }

    /// The mountpoint for `dir`.
    pub fn mountpoint_for(dir: &str) -> (r: String)
        ensures
            r@ == mountpoint_of(dir@),
    {
        join(MOUNT_DIR, dir)
    }

    /// Where the former boot partition is mounted.
    pub fn get_boot_mountpoint(&self) -> (r: &str)
        ensures
            r@ == self.boot_mountpoint@,
    {
        self.boot_mountpoint.as_str()
    }

    /// Where the stage 2 configuration is.
    pub fn get_stage2_config(&self) -> (r: &str)
        ensures
            r@ == self.stage2_config@,
    {
        self.stage2_config.as_str()
    }

    /// The drive that balena is flashed to.
    pub fn get_flash_device(&self) -> (r: &str)
        ensures
            r@ == self.flash_device@,
    {
        self.flash_device.as_str()
    }

    /// Whether the work files lie on another drive than the flash drive and need no copy.
    pub fn is_work_no_copy(&self) -> (r: bool)
        ensures
            r == self.work_no_copy,
    {
        self.work_no_copy
    }

    /// The work directory, once known.
    pub fn get_work_path(&self) -> (r: Option<&str>)
        ensures
            match r {
                Some(p) => self.work_path matches Some(w) && p@ == w@,
                None => self.work_path is None,
            },
    {
        match &self.work_path {
            Some(p) => Some(p.as_str()),
            None => None,
        }
    }

    /// Flashes `device` in place of the drive of the boot partition, as the configuration may
    /// ask.
    pub fn set_force_flash_device(&mut self, device: &str)
        ensures
            final(self).flash_device@ == device@,
            final(self).stage2_config == old(self).stage2_config,
            final(self).boot_part == old(self).boot_part,
            final(self).boot_mountpoint == old(self).boot_mountpoint,
            final(self).work_no_copy == old(self).work_no_copy,
            final(self).work_path == old(self).work_path,
            final(self).work_mountpoint == old(self).work_mountpoint,
            final(self).log_path == old(self).log_path,
    {
        self.flash_device = to_string(device);
    }

    /// The log directory, once mounted.
    pub fn get_log_path(&self) -> (r: Option<&str>)
        ensures
            match r {
                Some(p) => self.log_path matches Some(l) && p@ == l@,
                None => self.log_path is None,
            },
    {
        match &self.log_path {
            Some(p) => Some(p.as_str()),
            None => None,
        }
    }

    /// Whether the work location must be mounted: it is a device of its own (given by its
    /// standard device path) that is not the boot partition.
    pub fn work_needs_mount(&self, work: &PathType, work_device: &str) -> (r: bool)
        ensures
            r == (work is Mount && !path_eq(self.boot_part@, work_device@)),
    {
        match work {
            PathType::Path(_) => false,
            PathType::Mount { .. } => {
                let a = chars_of(self.boot_part.as_str());
                let b = chars_of(work_device);
                !path_equal(a.as_slice(), b.as_slice())
            },
        }
    }

    /// Records the mounts of the log and work locations. `log_mount` is the outcome of mounting
    /// the log device, when there is one; `work_device` the standard device path of a work
    /// device, `work_mount` the outcome of mounting it where `work_needs_mount` asked for it,
    /// and `work_drive` the drive that the work device lies on, where it could be derived.
    pub fn mount_all(
        &mut self,
        log_mount: Option<Result<String, MigError>>,
        work: &PathType,
        work_device: &str,
        work_mount: Result<String, MigError>,
        work_drive: Option<&str>,
    ) -> (r: Result<(), MigError>)
        ensures
            final(self).stage2_config == old(self).stage2_config,
            final(self).flash_device == old(self).flash_device,
            final(self).boot_part == old(self).boot_part,
            final(self).boot_mountpoint == old(self).boot_mountpoint,
            match log_mount {
                Some(Ok(m)) => final(self).log_path matches Some(l) && l@ == m@,
                Some(Err(_)) => final(self).log_path is None,
                None => opt_view(final(self).log_path) == opt_view(old(self).log_path),
            },
            match work {
                PathType::Path(p) => r is Ok && final(self).work_no_copy == old(self).work_no_copy
                    && final(self).work_mountpoint == old(self).work_mountpoint
                    && (final(self).work_path matches Some(w) && w@ == path_join(old(self).boot_mountpoint@, p@)),
                PathType::Mount { device, fstype, path } => if path_eq(old(self).boot_part@, work_device@) {
                    r is Ok && final(self).work_no_copy == old(self).work_no_copy
                        && final(self).work_mountpoint == old(self).work_mountpoint
                        && (final(self).work_path matches Some(w) && w@ == path_join(old(self).boot_mountpoint@, path@))
                } else {
                    match work_mount {
                        Err(_) => r == Err::<(), MigError>(MigError { kind: MigErrorKind::Displayed })
                            && final(self).work_no_copy == old(self).work_no_copy
                            && final(self).work_mountpoint == old(self).work_mountpoint
                            && final(self).work_path == old(self).work_path,
                        Ok(m) => r is Ok && (final(self).work_path matches Some(w) && w@ == path_join(m@, path@))
                            && (final(self).work_mountpoint matches Some(wm) && wm@ == m@)
                            && final(self).work_no_copy == match work_drive {
                            Some(d) => !path_eq(d@, old(self).flash_device@),
                            None => old(self).work_no_copy,
                        },
                    }
                },
            },
    {
        match log_mount {
            Some(Ok(m)) => {
                self.log_path = Some(m);
            },
            Some(Err(_)) => {
                self.log_path = None;
            },
            None => {},
        }
        match work {
            PathType::Path(p) => {
                self.work_path = Some(join(self.boot_mountpoint.as_str(), p.as_str()));
                Ok(())
            },
            PathType::Mount { device: _, fstype: _, path } => {
                let a = chars_of(self.boot_part.as_str());
                let b = chars_of(work_device);
                if path_equal(a.as_slice(), b.as_slice()) {
                    self.work_path = Some(join(self.boot_mountpoint.as_str(), path.as_str()));
                    Ok(())
                } else {
                    match work_mount {
                        Err(_) => Err(MigError::displayed()),
                        Ok(m) => {
                            match work_drive {
                                Some(d) => {
                                    let dv = chars_of(d);
                                    let fv = chars_of(self.flash_device.as_str());
                                    self.work_no_copy = !path_equal(dv.as_slice(), fv.as_slice());
                                },
                                None => {},
                            }
                            self.work_path = Some(join(m.as_str(), path.as_str()));
                            self.work_mountpoint = Some(m);
                            Ok(())
                        },
                    }
                }
            },
        }
    }

    /// What mounting the balena partitions found: the boot partition must mount; the other
    /// partitions must exist and the data partition mount for all to count as found. Gives
    /// whether all were found, the boot mountpoint and the data mountpoint.
    pub fn mount_balena(
        boot_mount: Result<String, MigError>,
        root_a_found: bool,
        root_b_found: bool,
        state_found: bool,
        data_mount: Result<String, MigError>,
    ) -> (r: Result<(bool, String, Option<String>), MigError>)
        ensures
            match boot_mount {
                Err(_) => r == Err::<(bool, String, Option<String>), MigError>(
                    MigError { kind: MigErrorKind::Displayed },
                ),
                Ok(b) => r matches Ok((found, bm, dm)) && bm@ == b@ && found == (root_a_found
                    && root_b_found && state_found && data_mount is Ok) && opt_view(dm) == match data_mount {
                    Ok(d) => Some(d@),
                    Err(_) => None::<Seq<char>>,
                },
            },
    {
        let boot = match boot_mount {
            Ok(b) => b,
            Err(_) => {
                return Err(MigError::displayed());
            },
        };
        let mut found = root_a_found && root_b_found && state_found;
        let data = match data_mount {
            Ok(d) => Some(d),
            Err(_) => {
                found = false;
                None
            },
        };
        Ok((found, boot, data))
    }
}

/// How the second stage runs its commands: directly, or written to a script.
#[derive(Debug)]
pub enum ExecMode {
    Scriptified { buffer: String, chmod_cmd: String },
    Direct,
}

/// Runs the second stage's commands, or gathers them into a script.
#[derive(Debug)]
pub struct ScriptedExec {
    pub exec_mode: ExecMode,
}

impl ScriptedExec {
    /// A runner that writes a script (which needs the checked `chmod` command) or runs commands
    /// directly.
    pub fn new(scriptify: bool, cmds: &EnsuredCmds) -> (r: Result<ScriptedExec, MigError>)
        ensures
            !scriptify ==> (r matches Ok(s) && s.exec_mode is Direct),
            scriptify ==> match cmd_path(cmds@, "chmod"@) {
                Some(p) => (r matches Ok(s) && (s.exec_mode matches ExecMode::Scriptified { buffer, chmod_cmd }
                    && buffer@.len() == 0 && chmod_cmd@ == p)),
                None => r == Err::<ScriptedExec, MigError>(MigError { kind: MigErrorKind::InvParam }),
            },
    {
        if scriptify {
            match cmds.get("chmod") {
                Ok(p) => Ok(ScriptedExec { exec_mode: ExecMode::Scriptified { buffer: String::new(), chmod_cmd: to_string(p) } }),
                Err(e) => Err(e),
            }
        } else {
            Ok(ScriptedExec { exec_mode: ExecMode::Direct })
        }
    }

    /// Whether commands are written to a script.
    pub fn is_scripted(&self) -> (r: bool)
        ensures
            r == self.exec_mode is Scriptified,
    {
        match self.exec_mode {
            ExecMode::Scriptified { .. } => true,
            ExecMode::Direct => false,
        }
    }

    /// Adds a command line to the script; does nothing when commands run directly.
    pub fn add_to_script(&mut self, cmd: &str) -> (r: bool)
        ensures
            r == (old(self).exec_mode is Scriptified),
            match old(self).exec_mode {
                ExecMode::Scriptified { buffer, chmod_cmd } => final(self).exec_mode matches ExecMode::Scriptified {
                    buffer: b2,
                    chmod_cmd: c2,
                } && b2@ == buffer@ + cmd@ + seq!['\n'] && c2@ == chmod_cmd@,
                ExecMode::Direct => final(self).exec_mode is Direct,
            },
    {
        match &mut self.exec_mode {
            ExecMode::Scriptified { buffer, chmod_cmd: _ } => {
                push_str(buffer, cmd);
                push_char(buffer, '\n');
                true
            },
            ExecMode::Direct => false,
        }
    }
}

} // verus!
