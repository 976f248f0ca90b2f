use balena_migrate::boot_manager::{BootManager, UBootManager, UEnvStrategy};
use balena_migrate::defs::{BootType, DeviceType, MigError, MigErrorKind, OSArch};
use balena_migrate::device::beaglebone::{bb_os_ok, BeagleboardXM, BeagleboneBlack, BeagleboneGreen};
use balena_migrate::device::intel_nuc::IntelNuc;
use balena_migrate::device::raspberrypi::{rpi_os_ok, RaspberryPi3, RaspberryPi4_64};
use balena_migrate::device::{from_config, get_device_type, is_bb, is_rpi, trim_nul_exec};

fn err(kind: MigErrorKind) -> MigError {
    MigError { kind }
}

#[test]
fn raspberry_pi_models() {
    assert_eq!(is_rpi("Raspberry Pi 3 Model B Rev 1.2").unwrap(), Some(DeviceType::RaspberryPi3));
    assert_eq!(is_rpi("Raspberry Pi 3 Model B Plus Rev 1.3").unwrap(), Some(DeviceType::RaspberryPi3));
    assert_eq!(is_rpi("Raspberry Pi 4 Model B Rev 1.1").unwrap(), Some(DeviceType::RaspberryPi4_64));
    assert_eq!(is_rpi("Raspberry Pi 2 Model B Rev 1.1").unwrap_err().kind, MigErrorKind::InvParam);
    assert_eq!(is_rpi("Raspberry Pi Zero W Rev 1.1").unwrap(), None);
    assert_eq!(is_rpi("TI AM335x BeagleBone Black").unwrap(), None);
}

#[test]
fn beaglebone_models() {
    assert_eq!(is_bb("TI AM335x BeagleBone Black").unwrap(), Some(DeviceType::BeagleboneBlack));
    assert_eq!(is_bb("TI AM335x BeagleBone Green\0").unwrap(), Some(DeviceType::BeagleboneGreen));
    assert_eq!(is_bb("TI OMAP3 BeagleBoard xM").unwrap(), Some(DeviceType::BeagleboardXM));
    assert_eq!(is_bb("TI AM335x BeagleBone Blue").unwrap_err().kind, MigErrorKind::InvParam);
    assert_eq!(is_bb("BeagleBone Black").unwrap(), None);
    assert_eq!(is_bb(" TI AM335x BeagleBone Black").unwrap(), None);
}

#[test]
fn nul_characters_are_trimmed_at_both_ends() {
    let v: Vec<char> = "\0\0Black\0".chars().collect();
    assert_eq!(trim_nul_exec(&v), "Black".chars().collect::<Vec<char>>());
    let w: Vec<char> = "\0\0".chars().collect();
    assert!(trim_nul_exec(&w).is_empty());
}

#[test]
fn device_type_by_architecture_and_model() {
    assert_eq!(get_device_type(OSArch::AMD64, "whatever").unwrap(), DeviceType::IntelNuc);
    assert_eq!(get_device_type(OSArch::I386, "whatever").unwrap_err().kind, MigErrorKind::InvParam);
    assert_eq!(get_device_type(OSArch::ARMHF, "Raspberry Pi 4 Model B Rev 1.1").unwrap(), DeviceType::RaspberryPi4_64);
    assert_eq!(get_device_type(OSArch::ARMHF, "TI OMAP3 BeagleBoard xM").unwrap(), DeviceType::BeagleboardXM);
    assert_eq!(get_device_type(OSArch::ARMHF, "Orange Pi").unwrap_err().kind, MigErrorKind::InvState);
    assert_eq!(
        get_device_type(OSArch::ARMHF, "Raspberry Pi 1 Model B Rev 2").unwrap_err().kind,
        MigErrorKind::InvParam
    );
}

#[test]
fn devices_from_recorded_config() {
    let d = from_config(DeviceType::IntelNuc, BootType::Grub).unwrap();
    assert_eq!(d.get_device_type(), DeviceType::IntelNuc);
    assert_eq!(d.get_device_slug(), "intel-nuc");
    assert_eq!(d.get_boot_type(), BootType::Grub);
    let d = from_config(DeviceType::RaspberryPi4_64, BootType::Raspi64).unwrap();
    assert_eq!(d.get_device_slug(), "raspberrypi4-64");
    assert_eq!(d.get_boot_type(), BootType::Raspi64);
    let d = from_config(DeviceType::BeagleboardXM, BootType::UBoot).unwrap();
    assert_eq!(d.get_device_slug(), "beagleboard-xm");
    assert_eq!(d.get_boot_type(), BootType::UBoot);
    let d = from_config(DeviceType::BeagleboneBlack, BootType::MSWEfi).unwrap();
    assert_eq!(d.get_device_slug(), "beaglebone-black");
    assert_eq!(d.get_boot_type(), BootType::Efi);
    assert_eq!(from_config(DeviceType::RaspberryPi3, BootType::Raspi).unwrap().get_device_slug(), "raspberrypi3");
    assert_eq!(from_config(DeviceType::BeagleboneGreen, BootType::UBoot).unwrap().get_device_slug(), "beaglebone-green");
}

#[test]
fn supported_operating_systems() {
    assert!(rpi_os_ok("Raspbian GNU/Linux 10 (buster)"));
    assert!(!rpi_os_ok("Raspbian GNU/Linux 11 (bullseye)"));
    assert!(bb_os_ok("Debian GNU/Linux 9 (stretch)"));
    assert!(!bb_os_ok("Ubuntu 16.04.2 LTS"));
    assert!(IntelNuc::os_supported("Ubuntu 16.04.2 LTS"));
    assert!(IntelNuc::os_supported("Ubuntu 18.04.3 LTS"));
    assert!(IntelNuc::os_supported("Ubuntu 14.04.6 LTS"));
    assert!(!IntelNuc::os_supported("Ubuntu 20.04 LTS"));
}

fn ubm() -> UBootManager {
    UBootManager::new(1, UEnvStrategy::UName, vec![String::from("am335x-boneblack.dtb")])
}

#[test]
fn beaglebone_first_stage() {
    let d = BeagleboneBlack::from_config("Ubuntu 18.04.2 LTS", ubm(), Ok(true)).ok().unwrap();
    assert_eq!(d.boot_manager.get_boot_type(), BootType::UBoot);
    assert_eq!(
        BeagleboneBlack::from_config("Ubuntu 16.04.2 LTS", ubm(), Ok(true)).err().unwrap(),
        err(MigErrorKind::InvState)
    );
    assert_eq!(
        BeagleboneGreen::from_config("Ubuntu 14.04.1 LTS", ubm(), Ok(false)).err().unwrap(),
        err(MigErrorKind::InvState)
    );
    assert_eq!(
        BeagleboardXM::from_config("Debian GNU/Linux 9 (stretch)", ubm(), Err(err(MigErrorKind::NotFound)))
            .err()
            .unwrap(),
        err(MigErrorKind::NotFound)
    );
    assert_eq!(BeagleboneGreen::kernel_opts(Some("quiet")), "quiet ");
    assert_eq!(BeagleboneBlack::kernel_opts(None), "");
    assert_eq!(BeagleboardXM::kernel_opts(Some("")), " ");
}

#[test]
fn raspberry_pi_first_stage() {
    let d = RaspberryPi3::from_config(Ok(()), "Raspbian GNU/Linux 9 (stretch)", Ok(true)).ok().unwrap();
    assert!(matches!(d.boot_manager, BootManager::Raspi(ref m) if m.boot_type == BootType::Raspi));
    let d = RaspberryPi4_64::from_config(Ok(()), "Raspbian GNU/Linux 10 (buster)", Ok(true)).ok().unwrap();
    assert_eq!(d.boot_manager.get_boot_type(), BootType::Raspi64);
    assert_eq!(
        RaspberryPi3::from_config(Err(err(MigErrorKind::InvParam)), "Raspbian GNU/Linux 9 (stretch)", Ok(true))
            .err()
            .unwrap(),
        err(MigErrorKind::InvParam)
    );
    assert_eq!(
        RaspberryPi3::from_config(Ok(()), "Debian GNU/Linux 9 (stretch)", Ok(true)).err().unwrap(),
        err(MigErrorKind::InvParam)
    );
    assert_eq!(
        RaspberryPi4_64::from_config(Ok(()), "Raspbian GNU/Linux 8 (jessie)", Ok(false)).err().unwrap(),
        err(MigErrorKind::Displayed)
    );
    assert_eq!(RaspberryPi3::kernel_opts(Some("quiet")), "quiet");
    assert_eq!(RaspberryPi4_64::kernel_opts(None), "");
}

#[test]
fn intel_nuc_first_stage() {
    let d = IntelNuc::from_config("Ubuntu 18.04.2 LTS", Ok(false), Ok(true)).ok().unwrap();
    assert_eq!(d.boot_manager.get_boot_type(), BootType::Grub);
    assert_eq!(
        IntelNuc::from_config("Ubuntu 18.04.2 LTS", Ok(true), Ok(true)).err().unwrap(),
        err(MigErrorKind::InvParam)
    );
    assert_eq!(
        IntelNuc::from_config("Ubuntu 18.04.2 LTS", Err(err(MigErrorKind::ExecProcess)), Ok(true)).err().unwrap(),
        err(MigErrorKind::ExecProcess)
    );
    assert_eq!(
        IntelNuc::from_config("Ubuntu 18.04.2 LTS", Ok(false), Ok(false)).err().unwrap(),
        err(MigErrorKind::InvState)
    );
    assert_eq!(
        IntelNuc::from_config("Fedora 30", Ok(false), Ok(true)).err().unwrap(),
        err(MigErrorKind::InvParam)
    );
    assert_eq!(IntelNuc::from_boot_type(BootType::Grub).boot_manager.get_boot_type(), BootType::Grub);
}

#[test]
fn uboot_setup_needs_a_scan() {
    let mut m = ubm();
    assert_eq!(m.setup_target().unwrap_err(), err(MigErrorKind::Displayed));
    m.scanned("/media/boot/boot");
    assert_eq!(m.setup_target().unwrap(), "/media/boot/boot");
    assert_eq!(m.mmc_index, 1);
    assert_eq!(UBootManager::for_stage2().setup_target().unwrap_err(), err(MigErrorKind::Displayed));
}
