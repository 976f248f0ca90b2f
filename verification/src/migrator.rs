use vstd::prelude::*;
use crate::defs::{MigError, MigErrorKind};
use crate::device::Device;
use crate::boot_manager::uboot::{lemma_sum_prefix, sum};
use crate::paths::{components, path_components, path_eq, path_equal, path_has_prefix, path_starts_with};
use crate::stage2::PathType;
use crate::text::{chars_of, string_from_chars, to_string};

verus! {

/// The smallest drive balena is installed to: 2 GiB.
pub const MIN_DISK_SIZE: u64 = 2147483648;

/// The memory the first stage on Windows wants left beyond the files the second stage copies
/// to RAM: 64 MiB.
pub const STAGE1_MEM_THRESHOLD: u64 = 67108864;

/// What the migrator is asked to do: migrate now, only check, or run as an agent.
#[derive(Debug, Clone, Copy, PartialEq, Eq, Structural)]
pub enum MigMode {
    Immediate,
    Pretend,
    Agent,
}

/// What a run in a mode leads to: `Ok(true)` to migrate, `Ok(false)` to stop after the checks,
/// an error for the agent mode, which is not implemented.
pub open spec fn mode_action(mode: MigMode) -> Result<bool, MigError> {
    match mode {
        MigMode::Immediate => Ok(true),
        MigMode::Pretend => Ok(false),
        MigMode::Agent => Err(MigError { kind: MigErrorKind::NotImpl }),
    }
}

fn mode_action_exec(mode: MigMode) -> (r: Result<bool, MigError>)
    ensures
        r == mode_action(mode),
{
    match mode {
        MigMode::Immediate => Ok(true),
        MigMode::Pretend => Ok(false),
        MigMode::Agent => Err(MigError::from_kind(MigErrorKind::NotImpl)),
    }
}

/// The first stage of a Linux migration, once initialised: the device and the drive to flash.
#[derive(Debug)]
pub struct LinuxMigrator {
    pub device: Device,
    pub flash_device: String,
}

/// What the initialisation of a Linux migration decides, from the outcomes of its steps in
/// order: the command check, the privilege check, the device detection, and the size of the
/// drive.
pub open spec fn linux_init_result(
    cmds: Result<(), MigError>,
    admin: Result<bool, MigError>,
    device_ok: Result<(), MigError>,
    drive_size: u64,
) -> Result<(), MigError> {
    match cmds {
        Err(e) => Err(e),
        Ok(()) => match admin {
            Err(e) => Err(e),
            Ok(false) => Err(MigError { kind: MigErrorKind::InvState }),
            Ok(true) => match device_ok {
                Err(e) => Err(e),
                Ok(()) => if drive_size < MIN_DISK_SIZE {
                    Err(MigError { kind: MigErrorKind::InvState })
                } else {
                    Ok(())
                },
            },
        },
    }
}

impl LinuxMigrator {
    /// Initialises a migration from the outcomes of its steps: the required commands must be
    /// there, the program must run as root, the device must be recognised and the root drive
    /// large enough. The drive to flash is the forced one where the configuration names one.
    pub fn try_init(
        cmds: Result<(), MigError>,
        admin: Result<bool, MigError>,
        device: Result<Device, MigError>,
        drive: &str,
        drive_size: u64,
        force_flash_device: Option<&str>,
    ) -> (r: Result<LinuxMigrator, MigError>)
        ensures
            match linux_init_result(
                cmds,
                admin,
                match device {
                    Ok(_) => Ok(()),
                    Err(e) => Err(e),
                },
                drive_size,
            ) {
                Err(e) => r == Err::<LinuxMigrator, MigError>(e),
                Ok(()) => r matches Ok(m) && device == Ok::<Device, MigError>(m.device)
                    && m.flash_device@ == match force_flash_device {
                    Some(f) => f@,
                    None => drive@,
                },
            },
    {
        if let Err(e) = cmds {
            return Err(e);
        }
        match admin {
            Err(e) => {
                return Err(e);
            },
            Ok(false) => {
                return Err(MigError::from_kind(MigErrorKind::InvState));
            },
            Ok(true) => {},
        }
        let device = match device {
            Ok(d) => d,
            Err(e) => {
                return Err(e);
            },
        };
        if drive_size < MIN_DISK_SIZE {
            return Err(MigError::from_kind(MigErrorKind::InvState));
        }
        let flash_device = match force_flash_device {
            Some(f) => to_string(f),
            None => to_string(drive),
        };
        Ok(LinuxMigrator { device, flash_device })
    }

    /// Whether an initialised migration goes on to migrate in the given mode (see `mode_action`).
    pub fn migrate(mode: MigMode) -> (r: Result<bool, MigError>)
        ensures
            r == mode_action(mode),
    {
        mode_action_exec(mode)
    }
}

/// The first stage of a Windows migration.
#[derive(Debug)]
pub struct MSWMigrator {
    pub flash_device: String,
}

/// What the initialisation of a Windows migration decides: a failure of any step is reported
/// as already shown to the user, as is a device slug that differs from the one of a file system
/// image, or a drive that is too small.
pub open spec fn msw_init_result(
    mig_info: Result<(), MigError>,
    device_ok: Result<(), MigError>,
    config_check: Result<(), MigError>,
    slug_matches: bool,
    drive_size: u64,
) -> Result<(), MigError> {
    if mig_info is Err || device_ok is Err || config_check is Err || !slug_matches || drive_size
        < MIN_DISK_SIZE {
        Err(MigError { kind: MigErrorKind::Displayed })
    } else {
        Ok(())
    }
}

impl MSWMigrator {
    /// Whether a Windows migration goes on to migrate: it must run with administrator
    /// privileges, then the mode decides.
    pub fn migrate(admin: Result<bool, MigError>, mode: MigMode) -> (r: Result<bool, MigError>)
        ensures
            match admin {
                Err(e) => r == Err::<bool, MigError>(e),
                Ok(false) => r == Err::<bool, MigError>(MigError { kind: MigErrorKind::Displayed }),
                Ok(true) => r == mode_action(mode),
            },
    {
        match admin {
            Err(e) => Err(e),
            Ok(false) => Err(MigError::displayed()),
            Ok(true) => mode_action_exec(mode),
        }
    }

    /// Initialises a Windows migration from the outcomes of its steps: the system information,
    /// the device detection, the check of the balena configuration, whether the device slug of a
    /// file system image matches, and the size of the drive to flash.
    pub fn try_init(
        mig_info: Result<(), MigError>,
        device_ok: Result<(), MigError>,
        config_check: Result<(), MigError>,
        slug_matches: bool,
        drive: &str,
        drive_size: u64,
    ) -> (r: Result<MSWMigrator, MigError>)
        ensures
            match msw_init_result(mig_info, device_ok, config_check, slug_matches, drive_size) {
                Err(e) => r == Err::<MSWMigrator, MigError>(e),
                Ok(()) => r matches Ok(m) && m.flash_device@ == drive@,
            },
    {
        if mig_info.is_err() || device_ok.is_err() || config_check.is_err() || !slug_matches
            || drive_size < MIN_DISK_SIZE {
            return Err(MigError::displayed());
        }
        Ok(MSWMigrator { flash_device: to_string(drive) })
    }

    /// The log device the second stage writes to: the configured one, unless it is the boot
    /// partition itself (given by its udev link).
    pub fn log_device(log_path: Option<&str>, boot_alt_path: &str) -> (r: Option<String>)
        ensures
            match log_path {
                Some(l) => if path_eq(l@, boot_alt_path@) {
                    r is None
                } else {
                    r matches Some(s) && s@ == l@
                },
                None => r is None,
            },
    {
        match log_path {
            Some(l) => {
                let a = chars_of(l);
                let b = chars_of(boot_alt_path);
                if path_equal(a.as_slice(), b.as_slice()) {
                    None
                } else {
                    Some(to_string(l))
                }
            },
            None => None,
        }
    }
}

/// Whether a migration in the given mode goes on to migrate.
pub fn migrate(mode: MigMode) -> (r: Result<bool, MigError>)
    ensures
        r == mode_action(mode),
{
    LinuxMigrator::migrate(mode)
}

/// Path components joined by `/`, as a relative path.
pub open spec fn join_names(cs: Seq<Seq<char>>) -> Seq<char>
    decreases cs.len(),
{
    if cs.len() == 0 {
        Seq::empty()
    } else if cs.len() == 1 {
        cs[0]
    } else {
        join_names(cs.drop_last()) + seq!['/'] + cs.last()
    }
}

/// The path `a` relative to `base`, which it starts with (as `Path::strip_prefix` gives it).
pub open spec fn relative_path(a: Seq<char>, base: Seq<char>) -> Seq<char> {
    join_names(path_components(a).skip(path_components(base).len() as int))
}

pub fn relative_path_exec(a: &str, base: &str) -> (r: String)
    requires
        path_starts_with(a@, base@),
    ensures
        r@ == relative_path(a@, base@),
{
    let av = chars_of(a);
    let bv = chars_of(base);
    let ca = components(av.as_slice());
    let cb = components(bv.as_slice());
    let ghost cav = ca@.map_values(|c: Vec<char>| c@);
    let ghost cbv = cb@.map_values(|c: Vec<char>| c@);
    let start = cb.len();
    let mut out: Vec<char> = Vec::new();
    let mut k = start;
    assert(cav.subrange(start as int, k as int) =~= Seq::<Seq<char>>::empty());
    while k < ca.len()
        invariant
            cav == ca@.map_values(|c: Vec<char>| c@),
            cav == path_components(a@),
            cbv == path_components(base@),
            start == cbv.len(),
            start <= k <= ca@.len(),
            out@ == join_names(cav.subrange(start as int, k as int)),
        decreases ca.len() - k,
    {
        let comp = &ca[k];
        assert(cav[k as int] == comp@);
        let ghost before = out@;
        if k > start {
            out.push('/');
        }
        let mut j: usize = 0;
        while j < comp.len()
            invariant
                j <= comp@.len(),
                out@ == (if k > start { before + seq!['/'] } else { before }) + comp@.take(j as int),
            decreases comp.len() - j,
        {
            out.push(comp[j]);
            assert(comp@.take(j + 1) =~= comp@.take(j as int).push(comp@[j as int]));
            j = j + 1;
        }
        proof {
            assert(comp@.take(comp@.len() as int) =~= comp@);
            let sub = cav.subrange(start as int, k + 1);
            assert(sub.drop_last() =~= cav.subrange(start as int, k as int));
            assert(sub.last() == comp@);
            if k == start {
                assert(before =~= Seq::<char>::empty());
                assert(sub.len() == 1);
            }
        }
        k = k + 1;
    }
    assert(cav.subrange(start as int, ca@.len() as int) =~= cav.skip(start as int));
    string_from_chars(out.as_slice(), 0, out.len())
}

/// What the first stage on Windows plans for the second: where the second stage finds the work
/// directory (by its path on the boot partition, where the work directory lies on the boot
/// device; else by mounting the work device, given by its udev link, and the path relative to
/// its mountpoint), the memory the files to copy take (`sizes`), and whether to warn that
/// fewer than the threshold of the total memory remain beyond them.
pub fn msw_stage1_plan(
    work_dev: &str,
    boot_dev: &str,
    work_path: &str,
    work_alt_path: &str,
    work_mount: &str,
    work_fstype: &str,
    sizes: &[u64],
    mem_tot: u64,
) -> (r: Result<(PathType, u64, bool), MigError>)
    requires
        sum(sizes@) <= u64::MAX,
    ensures
        !path_eq(work_dev@, boot_dev@) && !path_starts_with(work_path@, work_mount@) ==> r == Err::<
            (PathType, u64, bool),
            MigError,
        >(MigError { kind: MigErrorKind::Upstream }),
        path_eq(work_dev@, boot_dev@) || path_starts_with(work_path@, work_mount@) ==> (r matches Ok((work, total, warn)) && {
            &&& total == sum(sizes@)
            &&& warn == (mem_tot < total + STAGE1_MEM_THRESHOLD)
            &&& if path_eq(work_dev@, boot_dev@) {
                work matches PathType::Path(p) && p@ == work_path@
            } else {
                work matches PathType::Mount { device, fstype, path } && device@ == work_alt_path@ && fstype@
                    == work_fstype@ && path@ == relative_path(work_path@, work_mount@)
            }
        }),
{
    let wd = chars_of(work_dev);
    let bd = chars_of(boot_dev);
    let work = if path_equal(wd.as_slice(), bd.as_slice()) {
        PathType::Path(to_string(work_path))
    } else {
        let wp = chars_of(work_path);
        let wm = chars_of(work_mount);
        if !path_has_prefix(wp.as_slice(), wm.as_slice()) {
            return Err(MigError::from_kind(MigErrorKind::Upstream));
        }
        PathType::Mount {
            device: to_string(work_alt_path),
            fstype: to_string(work_fstype),
            path: relative_path_exec(work_path, work_mount),
        }
    };
    let mut total: u64 = 0;
    let mut k: usize = 0;
    while k < sizes.len()
        invariant
            k <= sizes@.len(),
            sum(sizes@) <= u64::MAX,
            total == sum(sizes@.take(k as int)),
        decreases sizes.len() - k,
    {
        proof {
            assert(sizes@.take(k + 1).drop_last() =~= sizes@.take(k as int));
            lemma_sum_prefix(sizes@, k + 1);
        }
        total = total + sizes[k];
        k = k + 1;
    }
    assert(sizes@.take(sizes@.len() as int) =~= sizes@);
    let warn = mem_tot < total || mem_tot - total < STAGE1_MEM_THRESHOLD;
    Ok((work, total, warn))
}

} // verus!
