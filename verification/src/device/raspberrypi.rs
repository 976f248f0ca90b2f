use vstd::prelude::*;
use crate::boot_manager::{from_boot_type, manager_boot_type, BootManager, RaspiBootManager};
use crate::defs::{BootType, MigError, MigErrorKind};
use crate::text::{str_eq, to_string};

verus! {

/// The operating systems the Raspberry Pi migrations support.
pub open spec fn rpi_os_supported(os: Seq<char>) -> bool {
    os == "Raspbian GNU/Linux 8 (jessie)"@ || os == "Raspbian GNU/Linux 9 (stretch)"@ || os
        == "Raspbian GNU/Linux 10 (buster)"@
}

/// Whether the Raspberry Pi migrations support an operating system.
pub fn rpi_os_ok(os_name: &str) -> (r: bool)
    ensures
        r == rpi_os_supported(os_name@),
{
    str_eq(os_name, "Raspbian GNU/Linux 8 (jessie)") || str_eq(
        os_name,
        "Raspbian GNU/Linux 9 (stretch)",
    ) || str_eq(os_name, "Raspbian GNU/Linux 10 (buster)")
}

/// What a Raspberry Pi migration's first stage decides: the kernel must be of the right type,
/// the operating system supported and the boot manager able to set the device up.
pub open spec fn rpi_config_result(
    kernel_check: Result<(), MigError>,
    os: Seq<char>,
    can_migrate: Result<bool, MigError>,
) -> Result<(), MigError> {
    match kernel_check {
        Err(e) => Err(e),
        Ok(()) => if !rpi_os_supported(os) {
            Err(MigError { kind: MigErrorKind::InvParam })
        } else {
            match can_migrate {
                Err(e) => Err(e),
                Ok(false) => Err(MigError { kind: MigErrorKind::Displayed }),
                Ok(true) => Ok(()),
            }
        },
    }
}

fn rpi_config(
    kernel_check: Result<(), MigError>,
    os_name: &str,
    can_migrate: Result<bool, MigError>,
    boot_type: BootType,
) -> (r: Result<RaspiBootManager, MigError>)
    requires
        boot_type == BootType::Raspi || boot_type == BootType::Raspi64,
    ensures
        match rpi_config_result(kernel_check, os_name@, can_migrate) {
            Ok(()) => r == Ok::<RaspiBootManager, MigError>(RaspiBootManager { boot_type }),
            Err(e) => r == Err::<RaspiBootManager, MigError>(e),
        },
{
    if let Err(e) = kernel_check {
        return Err(e);
    }
    if !rpi_os_ok(os_name) {
        return Err(MigError::from_kind(MigErrorKind::InvParam));
    }
    let boot_manager = match RaspiBootManager::new(boot_type) {
        Ok(m) => m,
        Err(e) => return Err(e),
    };
    match can_migrate {
        Err(e) => Err(e),
        Ok(false) => Err(MigError::from_kind(MigErrorKind::Displayed)),
        Ok(true) => Ok(boot_manager),
    }
}

/// A Raspberry Pi 3, booted in 32 bit mode.
#[derive(Debug)]
pub struct RaspberryPi3 {
    pub boot_manager: BootManager,
}

impl RaspberryPi3 {
    /// The device of the first stage, from the check of the kernel file's type, the operating
    /// system's name and the outcome of the boot manager's check.
    pub fn from_config(
        kernel_check: Result<(), MigError>,
        os_name: &str,
        can_migrate: Result<bool, MigError>,
    ) -> (r: Result<RaspberryPi3, MigError>)
        ensures
            match rpi_config_result(kernel_check, os_name@, can_migrate) {
                Ok(()) => r == Ok::<RaspberryPi3, MigError>(
                    RaspberryPi3 { boot_manager: BootManager::Raspi(RaspiBootManager { boot_type: BootType::Raspi }) },
                ),
                Err(e) => r == Err::<RaspberryPi3, MigError>(e),
            },
    {
        match rpi_config(kernel_check, os_name, can_migrate, BootType::Raspi) {
            Ok(m) => Ok(RaspberryPi3 { boot_manager: BootManager::Raspi(m) }),
            Err(e) => Err(e),
        }
    }

    /// The device of the second stage, with the boot manager for the recorded boot type.
    pub fn from_boot_type(boot_type: BootType) -> (r: RaspberryPi3)
        requires
            boot_type != BootType::MSWBootMgr,
        ensures
            r.boot_manager.boot_type() == manager_boot_type(boot_type),
    {
        RaspberryPi3 { boot_manager: from_boot_type(boot_type) }
    }

    /// The kernel options for the migration boot: the configured ones, or none.
    pub fn kernel_opts(configured: Option<&str>) -> (r: String)
        ensures
            r@ == match configured {
                Some(k) => k@,
                None => Seq::<char>::empty(),
            },
    {
        match configured {
            Some(k) => to_string(k),
            None => String::new(),
        }
    }
}

/// A Raspberry Pi 4, booted in 64 bit mode.
#[derive(Debug)]
pub struct RaspberryPi4_64 {
    pub boot_manager: BootManager,
}

impl RaspberryPi4_64 {
    /// The device of the first stage, from the check of the kernel file's type, the operating
    /// system's name and the outcome of the boot manager's check.
    pub fn from_config(
        kernel_check: Result<(), MigError>,
        os_name: &str,
        can_migrate: Result<bool, MigError>,
    ) -> (r: Result<RaspberryPi4_64, MigError>)
        ensures
            match rpi_config_result(kernel_check, os_name@, can_migrate) {
                Ok(()) => r == Ok::<RaspberryPi4_64, MigError>(
                    RaspberryPi4_64 { boot_manager: BootManager::Raspi(RaspiBootManager { boot_type: BootType::Raspi64 }) },
                ),
                Err(e) => r == Err::<RaspberryPi4_64, MigError>(e),
            },
    {
        match rpi_config(kernel_check, os_name, can_migrate, BootType::Raspi64) {
            Ok(m) => Ok(RaspberryPi4_64 { boot_manager: BootManager::Raspi(m) }),
            Err(e) => Err(e),
        }
    }

    /// The device of the second stage, with the boot manager for the recorded boot type.
    pub fn from_boot_type(boot_type: BootType) -> (r: RaspberryPi4_64)
        requires
            boot_type != BootType::MSWBootMgr,
        ensures
            r.boot_manager.boot_type() == manager_boot_type(boot_type),
    {
        RaspberryPi4_64 { boot_manager: from_boot_type(boot_type) }
    }

    /// The kernel options for the migration boot: the configured ones, or none.
    pub fn kernel_opts(configured: Option<&str>) -> (r: String)
        ensures
            r@ == match configured {
                Some(k) => k@,
                None => Seq::<char>::empty(),
            },
    {
        match configured {
            Some(k) => to_string(k),
            None => String::new(),
        }
    }
}

} // verus!
