use vstd::prelude::*;

verus! {

/// The first line of every file that the migrator writes, by which it recognises them again.
pub const BALENA_FILE_TAG: &'static str = "## created by balena-migrate";

/// The name under which the migration kernel is installed.
pub const MIG_KERNEL_NAME: &'static str = "balena.zImage";

/// The name under which the migration initramfs is installed.
pub const MIG_INITRD_NAME: &'static str = "balena.initramfs.cpio.gz";

/// What went wrong, as the migrator classifies its failures.
#[derive(Debug, Clone, Copy, PartialEq, Eq, Structural)]
pub enum MigErrorKind {
    NotFound,
    InvParam,
    InvState,
    Upstream,
    NotImpl,
    ExecProcess,
    Displayed,
    Timeout,
}

/// The error of every fallible operation of the library.
#[derive(Debug, Clone, Copy, PartialEq, Eq, Structural)]
pub struct MigError {
    pub kind: MigErrorKind,
}

impl MigError {
    /// An error of the given kind.
    pub fn from_kind(kind: MigErrorKind) -> (e: MigError)
        ensures
            e.kind == kind,
    {
        MigError { kind }
    }

    /// An error that has already been reported to the user.
    pub fn displayed() -> (e: MigError)
        ensures
            e.kind == MigErrorKind::Displayed,
    {
        MigError { kind: MigErrorKind::Displayed }
    }
}

/// The boot managers the migrator knows.
#[derive(Debug, Clone, Copy, PartialEq, Eq, Structural)]
pub enum BootType {
    UBoot,
    Grub,
    Efi,
    MSWEfi,
    MSWBootMgr,
    Raspi,
    Raspi64,
}

/// The device types the migrator can migrate.
#[derive(Debug, Clone, Copy, PartialEq, Eq, Structural)]
pub enum DeviceType {
    BeagleboneGreen,
    BeagleboneBlack,
    BeagleboardXM,
    RaspberryPi3,
    RaspberryPi4_64,
    IntelNuc,
}

/// The CPU architectures the migrator recognises.
#[derive(Debug, Clone, Copy, PartialEq, Eq, Structural)]
pub enum OSArch {
    AMD64,
    ARMHF,
    I386,
}

/// File types that the migrator checks its input files against.
#[derive(Debug, Clone, Copy, PartialEq, Eq, Structural)]
pub enum FileType {
    GZipOSImage,
    OSImage,
    InitRD,
    KernelARMHF,
    KernelAMD64,
    KernelI386,
    KernelAARCH64,
    Json,
    Text,
    DTB,
    GZipTar,
}

} // verus!
