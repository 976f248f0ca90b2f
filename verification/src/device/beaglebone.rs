use vstd::prelude::*;
use crate::boot_manager::{from_boot_type, manager_boot_type, BootManager, UBootManager};
use crate::defs::{BootType, MigError, MigErrorKind};
use crate::text::{push_str, str_eq, to_string};

verus! {

/// The operating systems the Beaglebone and Beagleboard migrations support.
pub open spec fn bb_os_supported(os: Seq<char>) -> bool {
    os == "Ubuntu 18.04.2 LTS"@ || os == "Ubuntu 14.04.1 LTS"@ || os == "Debian GNU/Linux 9 (stretch)"@
}

/// Whether the Beaglebone and Beagleboard migrations support an operating system.
pub fn bb_os_ok(os_name: &str) -> (r: bool)
    ensures
        r == bb_os_supported(os_name@),
{
    str_eq(os_name, "Ubuntu 18.04.2 LTS") || str_eq(os_name, "Ubuntu 14.04.1 LTS") || str_eq(
        os_name,
        "Debian GNU/Linux 9 (stretch)",
    )
}

/// What a Beaglebone migration's first stage decides: the operating system must be supported
/// and the u-boot manager able to set the device up.
pub open spec fn bb_config_result(os: Seq<char>, can_migrate: Result<bool, MigError>) -> Result<(), MigError> {
    if !bb_os_supported(os) {
        Err(MigError { kind: MigErrorKind::InvState })
    } else {
        match can_migrate {
            Err(e) => Err(e),
            Ok(false) => Err(MigError { kind: MigErrorKind::InvState }),
            Ok(true) => Ok(()),
        }
    }
}

/// The kernel options of a Beaglebone migration: the configured ones followed by a space.
pub open spec fn bb_kernel_opts(configured: Option<Seq<char>>) -> Seq<char> {
    match configured {
        Some(k) => k + " "@,
        None => Seq::empty(),
    }
}

fn bb_opts(configured: Option<&str>) -> (r: String)
    ensures
        r@ == bb_kernel_opts(
            match configured {
                Some(k) => Some(k@),
                None => None,
            },
        ),
{
    match configured {
        Some(k) => {
            let mut r = to_string(k);
            push_str(&mut r, " ");
            r
        },
        None => String::new(),
    }
}

/// A Beaglebone Green.
#[derive(Debug)]
pub struct BeagleboneGreen {
    pub boot_manager: BootManager,
}

impl BeagleboneGreen {
    /// The device of the first stage, from the operating system's name, the u-boot manager that
    /// checked the device and the outcome of that check.
    pub fn from_config(
        os_name: &str,
        boot_manager: UBootManager,
        can_migrate: Result<bool, MigError>,
    ) -> (r: Result<BeagleboneGreen, MigError>)
        ensures
            match bb_config_result(os_name@, can_migrate) {
                Ok(()) => r == Ok::<BeagleboneGreen, MigError>(BeagleboneGreen { boot_manager: BootManager::UBoot(boot_manager) }),
                Err(e) => r == Err::<BeagleboneGreen, MigError>(e),
            },
    {
        if !bb_os_ok(os_name) {
            return Err(MigError::from_kind(MigErrorKind::InvState));
        }
        match can_migrate {
            Err(e) => Err(e),
            Ok(false) => Err(MigError::from_kind(MigErrorKind::InvState)),
            Ok(true) => Ok(BeagleboneGreen { boot_manager: BootManager::UBoot(boot_manager) }),
        }
    }

    /// The device of the second stage, with the boot manager for the recorded boot type.
    pub fn from_boot_type(boot_type: BootType) -> (r: BeagleboneGreen)
        requires
            boot_type != BootType::MSWBootMgr,
        ensures
            r.boot_manager.boot_type() == manager_boot_type(boot_type),
    {
        BeagleboneGreen { boot_manager: from_boot_type(boot_type) }
    }

    /// The kernel options for the migration boot.
    pub fn kernel_opts(configured: Option<&str>) -> (r: String)
        ensures
            r@ == bb_kernel_opts(
                match configured {
                    Some(k) => Some(k@),
                    None => None,
                },
            ),
    {
        bb_opts(configured)
    }
}

/// A Beaglebone Black.
#[derive(Debug)]
pub struct BeagleboneBlack {
    pub boot_manager: BootManager,
}

impl BeagleboneBlack {
    /// The device of the first stage, from the operating system's name, the u-boot manager that
    /// checked the device and the outcome of that check.
    pub fn from_config(
        os_name: &str,
        boot_manager: UBootManager,
        can_migrate: Result<bool, MigError>,
    ) -> (r: Result<BeagleboneBlack, MigError>)
        ensures
            match bb_config_result(os_name@, can_migrate) {
                Ok(()) => r == Ok::<BeagleboneBlack, MigError>(BeagleboneBlack { boot_manager: BootManager::UBoot(boot_manager) }),
                Err(e) => r == Err::<BeagleboneBlack, MigError>(e),
            },
    {
        if !bb_os_ok(os_name) {
            return Err(MigError::from_kind(MigErrorKind::InvState));
        }
        match can_migrate {
            Err(e) => Err(e),
            Ok(false) => Err(MigError::from_kind(MigErrorKind::InvState)),
            Ok(true) => Ok(BeagleboneBlack { boot_manager: BootManager::UBoot(boot_manager) }),
        }
    }

    /// The device of the second stage, with the boot manager for the recorded boot type.
    pub fn from_boot_type(boot_type: BootType) -> (r: BeagleboneBlack)
        requires
            boot_type != BootType::MSWBootMgr,
        ensures
            r.boot_manager.boot_type() == manager_boot_type(boot_type),
    {
        BeagleboneBlack { boot_manager: from_boot_type(boot_type) }
    }

    /// The kernel options for the migration boot.
    pub fn kernel_opts(configured: Option<&str>) -> (r: String)
        ensures
            r@ == bb_kernel_opts(
                match configured {
                    Some(k) => Some(k@),
                    None => None,
                },
            ),
    {
        bb_opts(configured)
    }
}

/// A Beagleboard xM.
#[derive(Debug)]
pub struct BeagleboardXM {
    pub boot_manager: BootManager,
}

impl BeagleboardXM {
    /// The device of the first stage, from the operating system's name, the u-boot manager that
    /// checked the device and the outcome of that check.
    pub fn from_config(
        os_name: &str,
        boot_manager: UBootManager,
        can_migrate: Result<bool, MigError>,
    ) -> (r: Result<BeagleboardXM, MigError>)
        ensures
            match bb_config_result(os_name@, can_migrate) {
                Ok(()) => r == Ok::<BeagleboardXM, MigError>(BeagleboardXM { boot_manager: BootManager::UBoot(boot_manager) }),
                Err(e) => r == Err::<BeagleboardXM, MigError>(e),
            },
    {
        if !bb_os_ok(os_name) {
            return Err(MigError::from_kind(MigErrorKind::InvState));
        }
        match can_migrate {
            Err(e) => Err(e),
            Ok(false) => Err(MigError::from_kind(MigErrorKind::InvState)),
            Ok(true) => Ok(BeagleboardXM { boot_manager: BootManager::UBoot(boot_manager) }),
        }
    }

    /// The device of the second stage, with the boot manager for the recorded boot type.
    pub fn from_boot_type(boot_type: BootType) -> (r: BeagleboardXM)
        requires
            boot_type != BootType::MSWBootMgr,
        ensures
            r.boot_manager.boot_type() == manager_boot_type(boot_type),
    {
        BeagleboardXM { boot_manager: from_boot_type(boot_type) }
    }

    /// The kernel options for the migration boot.
    pub fn kernel_opts(configured: Option<&str>) -> (r: String)
        ensures
            r@ == bb_kernel_opts(
                match configured {
                    Some(k) => Some(k@),
                    None => None,
                },
            ),
    {
        bb_opts(configured)
    }
}

} // verus!
