use vstd::prelude::*;
use crate::boot_manager::{from_boot_type, manager_boot_type, BootManager, GrubBootManager};
use crate::defs::{BootType, MigError, MigErrorKind};
use crate::text::str_eq;

verus! {

/// The operating systems the Intel NUC migration supports.
pub open spec fn nuc_os_supported(os: Seq<char>) -> bool {
    os == "Ubuntu 18.04.3 LTS"@ || os == "Ubuntu 18.04.2 LTS"@ || os == "Ubuntu 16.04.2 LTS"@ || os
        == "Ubuntu 14.04.2 LTS"@ || os == "Ubuntu 14.04.5 LTS"@ || os == "Ubuntu 14.04.6 LTS"@
}

/// The Ubuntu releases that intel-nuc devices are migrated from.
pub open spec fn nuc_os_list() -> Seq<Seq<char>> {
    seq![
        "Ubuntu 18.04.3 LTS"@,
        "Ubuntu 18.04.2 LTS"@,
        "Ubuntu 16.04.2 LTS"@,
        "Ubuntu 14.04.2 LTS"@,
        "Ubuntu 14.04.5 LTS"@,
        "Ubuntu 14.04.6 LTS"@
    ]
}

/// Every Ubuntu release of the list is supported on an Intel NUC, and no other system is.
pub proof fn lemma_nuc_os_list(os: Seq<char>)
    ensures
        nuc_os_supported(os) <==> nuc_os_list().contains(os),
{
    let l = nuc_os_list();
    if nuc_os_supported(os) {
        if os == "Ubuntu 18.04.3 LTS"@ {
            assert(l[0] == os);
        } else if os == "Ubuntu 18.04.2 LTS"@ {
            assert(l[1] == os);
        } else if os == "Ubuntu 16.04.2 LTS"@ {
            assert(l[2] == os);
        } else if os == "Ubuntu 14.04.2 LTS"@ {
            assert(l[3] == os);
        } else if os == "Ubuntu 14.04.5 LTS"@ {
            assert(l[4] == os);
        } else {
            assert(l[5] == os);
        }
    }
    if l.contains(os) {
        let k = choose|k: int| 0 <= k < l.len() && l[k] == os;
        assert(0 <= k < 6);
    }
}

/// What an Intel NUC migration's first stage decides: the operating system must be supported,
/// secure boot off and the grub manager able to set the device up.
pub open spec fn nuc_config_result(
    os: Seq<char>,
    secure_boot: Result<bool, MigError>,
    can_migrate: Result<bool, MigError>,
) -> Result<(), MigError> {
    if !nuc_os_supported(os) {
        Err(MigError { kind: MigErrorKind::InvParam })
    } else {
        match secure_boot {
            Err(e) => Err(e),
            Ok(true) => Err(MigError { kind: MigErrorKind::InvParam }),
            Ok(false) => match can_migrate {
                Err(e) => Err(e),
                Ok(false) => Err(MigError { kind: MigErrorKind::InvState }),
                Ok(true) => Ok(()),
            },
        }
    }
}

/// An Intel NUC or another x86_64 machine booted by grub.
#[derive(Debug)]
pub struct IntelNuc {
    pub boot_manager: BootManager,
}

impl IntelNuc {
    /// Whether the Intel NUC migration supports an operating system.
    pub fn os_supported(os_name: &str) -> (r: bool)
        ensures
            r == nuc_os_supported(os_name@),
    {
        str_eq(os_name, "Ubuntu 18.04.3 LTS") || str_eq(os_name, "Ubuntu 18.04.2 LTS") || str_eq(
            os_name,
            "Ubuntu 16.04.2 LTS",
        ) || str_eq(os_name, "Ubuntu 14.04.2 LTS") || str_eq(os_name, "Ubuntu 14.04.5 LTS") || str_eq(
            os_name,
            "Ubuntu 14.04.6 LTS",
        )
    }

    /// The device of the first stage, from the operating system's name, whether secure boot is
    /// on, and the outcome of the grub manager's check.
    pub fn from_config(
        os_name: &str,
        secure_boot: Result<bool, MigError>,
        can_migrate: Result<bool, MigError>,
    ) -> (r: Result<IntelNuc, MigError>)
        ensures
            match nuc_config_result(os_name@, secure_boot, can_migrate) {
                Ok(()) => r matches Ok(d) && d.boot_manager is Grub,
                Err(e) => r == Err::<IntelNuc, MigError>(e),
            },
    {
        if !IntelNuc::os_supported(os_name) {
            return Err(MigError::from_kind(MigErrorKind::InvParam));
        }
        match secure_boot {
            Err(e) => return Err(e),
            Ok(true) => return Err(MigError::from_kind(MigErrorKind::InvParam)),
            Ok(false) => {},
        }
        match can_migrate {
            Err(e) => Err(e),
            Ok(false) => Err(MigError::from_kind(MigErrorKind::InvState)),
            Ok(true) => Ok(IntelNuc { boot_manager: BootManager::Grub(GrubBootManager::new()) }),
        }
    }

    /// The device of the second stage, with the boot manager for the recorded boot type.
    pub fn from_boot_type(boot_type: BootType) -> (r: IntelNuc)
        requires
            boot_type != BootType::MSWBootMgr,
        ensures
            r.boot_manager.boot_type() == manager_boot_type(boot_type),
    {
        IntelNuc { boot_manager: from_boot_type(boot_type) }
    }
}

} // verus!
