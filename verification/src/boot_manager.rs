use vstd::prelude::*;
use crate::defs::{BootType, MigError, MigErrorKind};
use crate::text::to_string;

pub mod grub;
pub mod raspi;
pub mod uboot;

verus! {

/// How the u-boot environment file is written: by kernel release name, or by spelling out the
/// load commands.
#[derive(Debug, Clone, Copy, PartialEq, Eq, Structural)]
pub enum UEnvStrategy {
    UName,
    Manual,
}

/// The boot manager of EFI systems.
#[derive(Debug)]
pub struct EfiBootManager {
    pub msw_device: bool,
}

impl EfiBootManager {
    /// A manager for an EFI system; `msw_device` tells a Windows device.
    pub fn new(msw_device: bool) -> (r: EfiBootManager)
        ensures
            r.msw_device == msw_device,
    {
        EfiBootManager { msw_device }
    }

    /// The boot type it handles.
    pub fn get_boot_type(&self) -> (r: BootType)
        ensures
            r == BootType::Efi,
    {
        BootType::Efi
    }

    /// Whether it can set the device up; EFI migration is not implemented.
    pub fn can_migrate(&self) -> (r: Result<bool, MigError>)
        ensures
            r == Err::<bool, MigError>(MigError { kind: MigErrorKind::NotImpl }),
    {
        Err(MigError::from_kind(MigErrorKind::NotImpl))
    }

    /// Sets the device up; EFI migration is not implemented.
    pub fn setup(&self) -> (r: Result<(), MigError>)
        ensures
            r == Err::<(), MigError>(MigError { kind: MigErrorKind::NotImpl }),
    {
        Err(MigError::from_kind(MigErrorKind::NotImpl))
    }
}

/// The boot manager of grub systems.
#[derive(Debug)]
pub struct GrubBootManager {
    pub valid: bool,
}

impl GrubBootManager {
    /// A grub boot manager.
    pub fn new() -> (r: GrubBootManager)
        ensures
            r.valid,
    {
        GrubBootManager { valid: true }
    }

    /// The boot type it handles.
    pub fn get_boot_type(&self) -> (r: BootType)
        ensures
            r == BootType::Grub,
    {
        BootType::Grub
    }
}

/// The boot manager of Raspberry Pi devices.
#[derive(Debug)]
pub struct RaspiBootManager {
    pub boot_type: BootType,
}

impl RaspiBootManager {
    /// A manager for the second stage, of whatever boot type it is handed.
    pub fn for_stage2(boot_type: BootType) -> (r: RaspiBootManager)
        ensures
            r.boot_type == boot_type,
    {
        RaspiBootManager { boot_type }
    }

    /// A manager for a 32 or 64 bit Raspberry Pi; any other boot type is refused.
    pub fn new(boot_type: BootType) -> (r: Result<RaspiBootManager, MigError>)
        ensures
            (boot_type == BootType::Raspi || boot_type == BootType::Raspi64) ==> r == Ok::<
                RaspiBootManager,
                MigError,
            >(RaspiBootManager { boot_type }),
            !(boot_type == BootType::Raspi || boot_type == BootType::Raspi64) ==> r == Err::<
                RaspiBootManager,
                MigError,
            >(MigError { kind: MigErrorKind::Displayed }),
    {
        match boot_type {
            BootType::Raspi => Ok(RaspiBootManager { boot_type }),
            BootType::Raspi64 => Ok(RaspiBootManager { boot_type }),
            _ => Err(MigError::displayed()),
        }
    }

    /// The boot type it handles.
    pub fn get_boot_type(&self) -> (r: BootType)
        ensures
            r == self.boot_type,
    {
        self.boot_type
    }
}

/// The boot manager of u-boot systems.
#[derive(Debug)]
pub struct UBootManager {
    pub mmc_index: u8,
    pub strategy: UEnvStrategy,
    pub dtb_names: Vec<String>,
    /// Where the scan of the flash device found room for the boot files; none before a
    /// successful scan.
    pub install_path: Option<String>,
}

impl UBootManager {
    /// A manager that boots from mmc `mmc_index` with the given device tree files; the flash
    /// device is not scanned yet.
    pub fn new(mmc_index: u8, strategy: UEnvStrategy, dtb_names: Vec<String>) -> (r: UBootManager)
        ensures
            r.mmc_index == mmc_index,
            r.strategy == strategy,
            r.dtb_names@ == dtb_names@,
            r.install_path is None,
    {
        UBootManager { mmc_index, strategy, dtb_names, install_path: None }
    }

    /// A manager for the second stage: mmc 0, manual strategy, no device tree files, nothing
    /// scanned.
    pub fn for_stage2() -> (r: UBootManager)
        ensures
            r.mmc_index == 0,
            r.strategy == UEnvStrategy::Manual,
            r.dtb_names@.len() == 0,
            r.install_path is None,
    {
        UBootManager { mmc_index: 0, strategy: UEnvStrategy::Manual, dtb_names: Vec::new(), install_path: None }
    }

    /// Records what a successful scan of the flash device (see `uboot_scan`) found: where the
    /// boot files go.
    pub fn scanned(&mut self, install_path: &str)
        ensures
            final(self).install_path matches Some(p) && p@ == install_path@,
            final(self).mmc_index == old(self).mmc_index,
            final(self).strategy == old(self).strategy,
            final(self).dtb_names@ == old(self).dtb_names@,
    {
        self.install_path = Some(to_string(install_path));
    }

    /// Where the setup writes the boot files: refused, as already reported, before a
    /// successful scan of the flash device.
    pub fn setup_target(&self) -> (r: Result<String, MigError>)
        ensures
            match self.install_path {
                None => r == Err::<String, MigError>(MigError { kind: MigErrorKind::Displayed }),
                Some(p) => r matches Ok(t) && t@ == p@,
            },
    {
        match &self.install_path {
            None => Err(MigError::displayed()),
            Some(p) => Ok(to_string(p.as_str())),
        }
    }

    /// The boot type it handles.
    pub fn get_boot_type(&self) -> (r: BootType)
        ensures
            r == BootType::UBoot,
    {
        BootType::UBoot
    }
}

/// One boot manager of any kind.
#[derive(Debug)]
pub enum BootManager {
    UBoot(UBootManager),
    Grub(GrubBootManager),
    Efi(EfiBootManager),
    Raspi(RaspiBootManager),
}

impl BootManager {
    /// The boot type that the manager reports.
    pub open spec fn boot_type(&self) -> BootType {
        match self {
            BootManager::UBoot(_) => BootType::UBoot,
            BootManager::Grub(_) => BootType::Grub,
            BootManager::Efi(_) => BootType::Efi,
            BootManager::Raspi(m) => m.boot_type,
        }
    }

    /// The boot type of the manager.
    pub fn get_boot_type(&self) -> (r: BootType)
        ensures
            r == self.boot_type(),
    {
        match self {
            BootManager::UBoot(m) => m.get_boot_type(),
            BootManager::Grub(m) => m.get_boot_type(),
            BootManager::Efi(m) => m.get_boot_type(),
            BootManager::Raspi(m) => m.get_boot_type(),
        }
    }
}

/// The boot type that the manager made for `boot_type` reports: an EFI manager for Windows
/// reports plain EFI.
pub open spec fn manager_boot_type(boot_type: BootType) -> BootType {
    if boot_type == BootType::MSWEfi {
        BootType::Efi
    } else {
        boot_type
    }
}

/// The boot manager that the second stage uses for a boot type. The Windows boot manager has
/// none.
pub fn from_boot_type(boot_type: BootType) -> (r: BootManager)
    requires
        boot_type != BootType::MSWBootMgr,
    ensures
        boot_type == BootType::UBoot ==> (r matches BootManager::UBoot(m) && m.mmc_index == 0
            && m.strategy == UEnvStrategy::Manual && m.dtb_names@.len() == 0),
        boot_type == BootType::Grub ==> r is Grub,
        boot_type == BootType::Efi ==> (r matches BootManager::Efi(m) && !m.msw_device),
        boot_type == BootType::MSWEfi ==> (r matches BootManager::Efi(m) && m.msw_device),
        (boot_type == BootType::Raspi || boot_type == BootType::Raspi64) ==> (r matches BootManager::Raspi(m)
            && m.boot_type == boot_type),
        r.boot_type() == manager_boot_type(boot_type),
{
    match boot_type {
        BootType::UBoot => BootManager::UBoot(UBootManager::for_stage2()),
        BootType::Grub => BootManager::Grub(GrubBootManager::new()),
        BootType::Efi => BootManager::Efi(EfiBootManager::new(false)),
        BootType::MSWEfi => BootManager::Efi(EfiBootManager::new(true)),
        BootType::Raspi => BootManager::Raspi(RaspiBootManager::new(boot_type).unwrap()),
        _ => BootManager::Raspi(RaspiBootManager::new(boot_type).unwrap()),
    }
}

} // verus!
