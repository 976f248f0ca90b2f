use balena_migrate::fs_writer::layout_fits_check;
use balena_migrate::defs::{BootType, DeviceType, FileType, MigError, MigErrorKind, OSArch};
use balena_migrate::device::from_config;
use balena_migrate::disk_info::LsblkInfo;
use balena_migrate::fs_writer::{
    flash_result, format_plan_for, mkfs_args, part_check_for, write_result, partition_script, FlashResult, FsDumpBlocks, PartCheck,
};
use balena_migrate::migrate_info::{MigrateInfo, MigrateWifis};
use balena_migrate::migrator::{migrate, LinuxMigrator, MSWMigrator, MigMode, MIN_DISK_SIZE};
use balena_migrate::os_info::{
    check_disk_layout, disk_attrs, disk_attrs_check, os_name_from_release, DiskInfo, LinuxOSInfo, LinuxPathInfo, SysInfo,
};

fn err(kind: MigErrorKind) -> MigError {
    MigError { kind }
}

const LISTING: &str = r#"NAME="sda" KNAME="sda" MAJ:MIN="8:0" FSTYPE="" MOUNTPOINT="" LABEL="" UUID="" RO="0" SIZE="500107862016" TYPE="disk"
NAME="sda1" KNAME="sda1" MAJ:MIN="8:1" FSTYPE="ext4" MOUNTPOINT="/" LABEL="root" UUID="f5a6" RO="0" SIZE="499570991104" TYPE="part"
NAME="sr0" KNAME="sr0" MAJ:MIN="11:0" FSTYPE="" MOUNTPOINT="" LABEL="" UUID="" RO="0" SIZE="1073741312" TYPE="rom"
"#;

#[test]
fn os_name_from_os_release() {
    let text = "NAME=\"Ubuntu\"\nVERSION=\"18.04.2 LTS (Bionic Beaver)\"\nPRETTY_NAME=\"Ubuntu 18.04.2 LTS\"\nID=ubuntu\n";
    assert_eq!(os_name_from_release(text).unwrap(), "Ubuntu 18.04.2 LTS");
    assert_eq!(os_name_from_release("NAME=\"Ubuntu\"\nPRETTY_NAME=Ubuntu\n").unwrap_err().kind, MigErrorKind::NotFound);
    assert_eq!(os_name_from_release("PRETTY_NAME=\"\"").unwrap_err().kind, MigErrorKind::NotFound);
}

#[test]
fn defaults_know_nothing() {
    let s = SysInfo::default();
    assert!(s.os_name.is_none() && s.os_arch.is_none() && s.disk_info.is_none() && s.secure_boot.is_none());
    let d = DiskInfo::default();
    assert!(d.disk_dev.is_empty() && d.disk_size == 0 && d.root_path.is_none() && d.work_path.is_none());
}

#[test]
fn linux_os_info_setup() {
    let found = [Some(String::from("/bin/lsblk")), Some(String::from("/bin/mount"))];
    let info = LinuxOSInfo::new(&["lsblk", "mount"], &found, true, LISTING).ok().unwrap();
    assert_eq!(info.cmds.get("mount").unwrap(), "/bin/mount");
    assert_eq!(info.lsblk_info.get_blk_devices().len(), 1);
    assert_eq!(
        LinuxOSInfo::new(&["lsblk", "mount"], &[Some(String::from("/bin/lsblk")), None], true, LISTING).err().unwrap(),
        err(MigErrorKind::NotFound)
    );
    assert_eq!(
        LinuxOSInfo::new(&["mount"], &[Some(String::from("/bin/mount"))], true, LISTING).err().unwrap(),
        err(MigErrorKind::InvParam)
    );
    assert_eq!(LinuxOSInfo::new(&["lsblk"], &found[..1], false, LISTING).err().unwrap(), err(MigErrorKind::ExecProcess));
    assert_eq!(LinuxOSInfo::new(&["lsblk"], &found[..1], true, "garbage").err().unwrap(), err(MigErrorKind::InvParam));
}

#[test]
fn linux_path_info_from_parts() {
    let info = LsblkInfo::from_list(LISTING).unwrap();
    let (d, p) = info.get_path_info("/home").unwrap();
    let pi = LinuxPathInfo::from_parts("/home", d, p, Ok((2000, 500))).ok().unwrap();
    assert_eq!(pi.get_path(), "/home");
    assert_eq!(pi.get_drive(), "/dev/sda");
    assert_eq!(pi.get_partition(), "/dev/sda1");
    assert_eq!(pi.mountpoint, "/");
    assert_eq!(pi.get_fs_free(), 500);
    assert_eq!(pi.fs_size, 2000);
    assert_eq!(pi.label, Some(String::from("root")));
    assert_eq!(pi.uuid, Some(String::from("f5a6")));
    assert_eq!(
        LinuxPathInfo::from_parts("/home", d, p, Err(err(MigErrorKind::Upstream))).err().unwrap(),
        err(MigErrorKind::Upstream)
    );
    let disk_only = &info.get_blk_devices()[0];
    let bare = LsblkInfo::from_list(
        r#"NAME="sdb" KNAME="sdb" MAJ:MIN="8:16" FSTYPE="" MOUNTPOINT="" LABEL="" UUID="" RO="0" SIZE="9" TYPE="disk"
NAME="sdb1" KNAME="sdb1" MAJ:MIN="8:17" FSTYPE="" MOUNTPOINT="/mnt" LABEL="" UUID="" RO="0" SIZE="9" TYPE="part""#,
    )
    .unwrap();
    let bp = &bare.get_blk_devices()[0].children.as_ref().unwrap()[0];
    assert_eq!(LinuxPathInfo::from_parts("/mnt", disk_only, bp, Ok((1, 1))).err().unwrap(), err(MigErrorKind::Displayed));
}

#[test]
fn linux_migrator_init() {
    let dev = || from_config(DeviceType::IntelNuc, BootType::Grub);
    let m = LinuxMigrator::try_init(Ok(()), Ok(true), dev(), "/dev/sda", MIN_DISK_SIZE, None).ok().unwrap();
    assert_eq!(m.flash_device, "/dev/sda");
    assert_eq!(m.device.get_device_slug(), "intel-nuc");
    let m = LinuxMigrator::try_init(Ok(()), Ok(true), dev(), "/dev/sda", MIN_DISK_SIZE, Some("/dev/sdb")).ok().unwrap();
    assert_eq!(m.flash_device, "/dev/sdb");
    assert_eq!(
        LinuxMigrator::try_init(Ok(()), Ok(true), dev(), "/dev/sda", MIN_DISK_SIZE - 1, None).err().unwrap(),
        err(MigErrorKind::InvState)
    );
    assert_eq!(
        LinuxMigrator::try_init(Ok(()), Ok(false), dev(), "/dev/sda", MIN_DISK_SIZE, None).err().unwrap(),
        err(MigErrorKind::InvState)
    );
    assert_eq!(
        LinuxMigrator::try_init(Err(err(MigErrorKind::NotFound)), Ok(false), dev(), "/dev/sda", 0, None).err().unwrap(),
        err(MigErrorKind::NotFound)
    );
    assert_eq!(
        LinuxMigrator::try_init(Ok(()), Ok(true), Err(err(MigErrorKind::InvParam)), "/dev/sda", 0, None).err().unwrap(),
        err(MigErrorKind::InvParam)
    );
}

#[test]
fn migration_modes() {
    assert_eq!(migrate(MigMode::Immediate).unwrap(), true);
    assert_eq!(migrate(MigMode::Pretend).unwrap(), false);
    assert_eq!(migrate(MigMode::Agent).unwrap_err().kind, MigErrorKind::NotImpl);
    assert_eq!(LinuxMigrator::migrate(MigMode::Agent).unwrap_err().kind, MigErrorKind::NotImpl);
    assert_eq!(MSWMigrator::migrate(Err(err(MigErrorKind::Upstream)), MigMode::Immediate).unwrap_err().kind, MigErrorKind::Upstream);
}

#[test]
fn windows_migrator_init() {
    let m = MSWMigrator::try_init(Ok(()), Ok(()), Ok(()), true, "\\\\.\\PhysicalDrive0", MIN_DISK_SIZE).ok().unwrap();
    assert_eq!(m.flash_device, "\\\\.\\PhysicalDrive0");
    assert_eq!(
        MSWMigrator::try_init(Ok(()), Ok(()), Ok(()), false, "d", MIN_DISK_SIZE).err().unwrap(),
        err(MigErrorKind::Displayed)
    );
    assert_eq!(
        MSWMigrator::try_init(Ok(()), Err(err(MigErrorKind::NotFound)), Ok(()), true, "d", MIN_DISK_SIZE).err().unwrap(),
        err(MigErrorKind::Displayed)
    );
    assert_eq!(
        MSWMigrator::try_init(Ok(()), Ok(()), Ok(()), true, "d", 1000).err().unwrap(),
        err(MigErrorKind::Displayed)
    );
    assert_eq!(MSWMigrator::log_device(Some("/dev/sdb1"), "/dev/disk/by-uuid/x"), Some(String::from("/dev/sdb1")));
    assert_eq!(MSWMigrator::log_device(Some("/dev/disk/by-uuid/x"), "/dev/disk/by-uuid/x"), None);
    assert_eq!(MSWMigrator::log_device(None, "/dev/disk/by-uuid/x"), None);
}

#[test]
fn migrate_info_kernel_and_dump_space() {
    assert_eq!(MigrateInfo::kernel_file_type(OSArch::AMD64), FileType::KernelAMD64);
    assert_eq!(MigrateInfo::kernel_file_type(OSArch::ARMHF), FileType::KernelARMHF);
    assert_eq!(MigrateInfo::kernel_file_type(OSArch::I386), FileType::KernelI386);
    assert_eq!(MigrateInfo::fs_dump_space(Some(1), Some(2), Some(4), Some(8), Some(16)).unwrap(), 31);
    assert_eq!(MigrateInfo::fs_dump_space(Some(1), Some(2), None, None, Some(16)).unwrap(), 19);
    assert_eq!(MigrateInfo::fs_dump_space(None, Some(2), None, None, Some(16)).unwrap_err().kind, MigErrorKind::Displayed);
    assert_eq!(MigrateInfo::fs_dump_space(Some(1), Some(2), Some(4), Some(8), None).unwrap_err().kind, MigErrorKind::Displayed);
}

fn readme_blocks() -> FsDumpBlocks {
    FsDumpBlocks { boot: 81920, root_a: 638976, root_b: 638976, extended: 458752, state: 40960, data: 401408 }
}

#[test]
fn sfdisk_script_for_the_readme_dump() {
    assert_eq!(
        partition_script("/dev/sda", readme_blocks(), Some(false)),
        "label : dos\n\
         device : name=/dev/sda1, start=8192 size=81920 bootable type=e \n\
         device : name=/dev/sda2, start=90112 size=638976 type=83 \n\
         device : name=/dev/sda3, start=729088 size=638976 type=83 \n\
         device : name=/dev/sda4, start=1368064 size=458752 type=f \n\
         device : name=/dev/sda5, start=1376256 size=40960 type=83 \n\
         device : name=/dev/sda6, start=1425408 size=401408 type=83 \n"
    );
}

#[test]
fn sfdisk_script_fills_the_disk_by_default() {
    let b = FsDumpBlocks { boot: 100, root_a: 8192, root_b: 1, extended: 10, state: 8191, data: 5 };
    assert_eq!(
        partition_script("/dev/mmcblk0", b, None),
        "label : dos\n\
         device : name=/dev/mmcblk0p1, start=8192 size=100 bootable type=e \n\
         device : name=/dev/mmcblk0p2, start=16384 size=8192 type=83 \n\
         device : name=/dev/mmcblk0p3, start=24576 size=1 type=83 \n\
         device : name=/dev/mmcblk0p4, start=32768 type=f \n\
         device : name=/dev/mmcblk0p5, start=40960 size=8191 type=83 \n\
         device : name=/dev/mmcblk0p6, start=57344 type=83 \n"
    );
}

#[test]
fn flash_results() {
    assert_eq!(write_result(false, false), FlashResult::FailRecoverable);
    assert_eq!(write_result(true, false), FlashResult::FailNonRecoverable);
    assert_eq!(write_result(true, true), FlashResult::Success);
}

#[test]
fn layout_check_before_partitioning() {
    assert!(layout_fits_check(readme_blocks()));
    let mut b = readme_blocks();
    b.data = u64::MAX;
    assert!(!layout_fits_check(b));
    let mut b = readme_blocks();
    b.boot = u64::MAX - 8192;
    assert!(!layout_fits_check(b));
}

#[test]
fn wifi_selection_from_the_configuration() {
    assert_eq!(MigrateInfo::wifi_filter(&MigrateWifis::NONE), None);
    assert_eq!(MigrateInfo::wifi_filter(&MigrateWifis::ALL), Some(Vec::new()));
    assert_eq!(
        MigrateInfo::wifi_filter(&MigrateWifis::SOME(vec![String::from("Home")])),
        Some(vec![String::from("Home")])
    );
}

#[test]
fn migration_without_network_configuration_is_refused() {
    assert_eq!(MigrateInfo::network_check(0, 0, true).unwrap_err().kind, MigErrorKind::Displayed);
    assert!(MigrateInfo::network_check(0, 0, false).is_ok());
    assert!(MigrateInfo::network_check(1, 0, true).is_ok());
    assert!(MigrateInfo::network_check(0, 2, true).is_ok());
}

fn plan(indices: &[u16]) -> (Vec<(usize, String, bool)>, bool) {
    let (steps, complete) = format_plan_for(indices);
    (steps.into_iter().map(|s| (s.dev_idx, s.label, s.is_fat)).collect(), complete)
}

#[test]
fn format_plan_skips_the_extended_partition() {
    let (steps, complete) = plan(&[1, 2, 3, 4, 5, 6]);
    assert!(complete);
    assert_eq!(
        steps,
        vec![
            (0, String::from("resin-boot"), true),
            (1, String::from("resin-rootA"), false),
            (2, String::from("resin-rootB"), false),
            (4, String::from("resin-state"), false),
            (5, String::from("resin-data"), false),
        ]
    );
    let (steps, complete) = plan(&[1, 2, 3, 4, 5]);
    assert!(complete);
    assert_eq!(steps.iter().map(|s| s.0).collect::<Vec<_>>(), vec![0, 1, 2, 3, 4]);
    let (steps, complete) = plan(&[1, 2, 3, 4, 5, 6, 7]);
    assert!(complete);
    assert_eq!(steps.iter().map(|s| s.0).collect::<Vec<_>>(), vec![0, 1, 2, 4, 5]);
    let (steps, complete) = plan(&[1, 2, 3]);
    assert!(!complete);
    assert_eq!(steps.len(), 3);
}

#[test]
fn mkfs_arguments() {
    assert_eq!(
        mkfs_args(true, "resin-boot", PartCheck::ReadOnly, true, "/dev/sda1"),
        vec!["-n", "resin-boot", "-c", "/dev/sda1"]
    );
    assert_eq!(
        mkfs_args(false, "resin-data", PartCheck::ReadWrite, true, "/dev/sda6"),
        vec![
            "-O", "^64bit", "-E", "lazy_itable_init=0,lazy_journal_init=0", "-i", "8192", "-v", "-F", "-F", "-e",
            "remount-ro", "-D", "-L", "resin-data", "-cc", "/dev/sda6"
        ]
    );
    assert_eq!(
        mkfs_args(false, "resin-state", PartCheck::NoCheck, false, "/dev/sda5"),
        vec![
            "-O", "^64bit", "-E", "lazy_itable_init=0,lazy_journal_init=0", "-i", "8192", "-v", "-F", "-F", "-e",
            "remount-ro", "-L", "resin-state", "/dev/sda5"
        ]
    );
    assert_eq!(part_check_for(true, PartCheck::ReadWrite), PartCheck::ReadOnly);
    assert_eq!(part_check_for(false, PartCheck::ReadWrite), PartCheck::ReadWrite);
    assert_eq!(part_check_for(true, PartCheck::NoCheck), PartCheck::NoCheck);
}

#[test]
fn disk_layout_must_use_one_drive() {
    assert!(check_disk_layout(Some("/dev/sda"), Some("/dev/sda"), Some("/dev/sda")).is_ok());
    assert!(check_disk_layout(Some("/dev/sda"), None, Some("/dev/sda")).is_ok());
    assert_eq!(check_disk_layout(Some("/dev/sdb"), None, Some("/dev/sda")).unwrap_err(), err(MigErrorKind::InvParam));
    assert_eq!(
        check_disk_layout(Some("/dev/sda"), Some("/dev/sdb"), Some("/dev/sda")).unwrap_err(),
        err(MigErrorKind::InvParam)
    );
    assert_eq!(check_disk_layout(None, None, Some("/dev/sda")).unwrap_err(), err(MigErrorKind::InvState));
    assert_eq!(check_disk_layout(Some("/dev/sda"), None, None).unwrap_err(), err(MigErrorKind::InvState));
}

#[test]
fn disk_size_and_uuid_from_lsblk() {
    assert_eq!(disk_attrs(true, "SIZE UUID\n500107862016 f5a6-77b0").unwrap(), (500107862016, String::from("f5a6-77b0")));
    assert_eq!(disk_attrs(true, "SIZE UUID\n1000   abc").unwrap(), (1000, String::from("abc")));
    assert_eq!(disk_attrs(true, "SIZE\n500").unwrap(), (500, String::new()));
    assert_eq!(disk_attrs(true, "SIZE\nabc 12").unwrap(), (0, String::new()));
    assert_eq!(disk_attrs(true, "SIZE UUID").unwrap_err(), err(MigErrorKind::InvParam));
    assert_eq!(disk_attrs(false, "SIZE\n500").unwrap_err(), err(MigErrorKind::ExecProcess));
    assert_eq!(disk_attrs(true, "").unwrap_err(), err(MigErrorKind::ExecProcess));
    assert!(disk_attrs_check("SIZE\n500"));
    assert!(!disk_attrs_check("SIZE\n99999999999999999999999 x"));
    assert!(disk_attrs_check("SIZE\nx99999999999999999999999"));
}

#[test]
fn flash_outcome_needs_the_balena_boot_partition() {
    assert_eq!(flash_result(FlashResult::Success, true), FlashResult::Success);
    assert_eq!(flash_result(FlashResult::FailRecoverable, true), FlashResult::FailRecoverable);
    assert_eq!(flash_result(FlashResult::Success, false), FlashResult::FailNonRecoverable);
    assert_eq!(flash_result(FlashResult::FailRecoverable, false), FlashResult::FailNonRecoverable);
}

#[test]
fn migration_files_must_be_in_the_work_directory() {
    let json = "JSON data";
    let ok = MigrateInfo::check_balena_config(true, "/home/mig/config.json", "/home/mig", Ok("/dev/sda2"), "/dev/sda2", true, json);
    assert!(ok.is_ok());
    let d = err(MigErrorKind::Displayed);
    // not found, outside the work directory, on another partition, not JSON
    assert_eq!(MigrateInfo::check_balena_config(false, "/home/mig/config.json", "/home/mig", Ok("/dev/sda2"), "/dev/sda2", true, json).unwrap_err(), d);
    assert_eq!(MigrateInfo::check_balena_config(true, "/etc/config.json", "/home/mig", Ok("/dev/sda2"), "/dev/sda2", true, json).unwrap_err(), d);
    assert_eq!(MigrateInfo::check_balena_config(true, "/home/mig/config.json", "/home/mig", Ok("/dev/sdb1"), "/dev/sda2", true, json).unwrap_err(), d);
    assert_eq!(MigrateInfo::check_balena_config(true, "/home/mig/config.json", "/home/mig", Ok("/dev/sda2"), "/dev/sda2", true, "PNG image").unwrap_err(), d);
    assert_eq!(MigrateInfo::check_balena_config(true, "/home/mig/config.json", "/home/mig", Ok("/dev/sda2"), "/dev/sda2", false, "").unwrap_err(), d);
    // a failed partition lookup passes its error on
    assert_eq!(
        MigrateInfo::check_balena_config(true, "/home/mig/config.json", "/home/mig", Err(err(MigErrorKind::NotFound)), "/dev/sda2", true, json).unwrap_err(),
        err(MigErrorKind::NotFound)
    );
    let gz = "DOS/MBR boot sector (gzip compressed data, from Unix)";
    assert!(MigrateInfo::check_os_image(true, "/home/mig/balena.img.gz", "/home/mig", Ok("/dev/sda2"), "/dev/sda2", true, gz).is_ok());
    assert_eq!(MigrateInfo::check_os_image(true, "/home/mig/balena.img", "/home/mig", Ok("/dev/sda2"), "/dev/sda2", true, "DOS/MBR boot sector").unwrap_err(), d);
    let tgz = "POSIX tar archive (GNU) (gzip compressed data, from Unix)";
    assert!(MigrateInfo::check_dump(true, "/home/mig/resin-boot.tgz", "/home/mig", Ok("/dev/sda2"), "/dev/sda2", true, tgz).is_ok());
    assert!(MigrateInfo::check_file(true, "/home/mig/nm", "/home/mig", Ok("/dev/sda2"), "/dev/sda2", FileType::Text, true, "ASCII text").is_ok());
}

#[test]
fn log_device_of_the_second_stage() {
    let info = LsblkInfo::from_list(LISTING).unwrap();
    assert_eq!(
        MigrateInfo::log_device_info(&info, Some("/dev/sda1")),
        Some((String::from("/dev/sda1"), String::from("ext4")))
    );
    assert_eq!(MigrateInfo::log_device_info(&info, Some("/dev/sda2")), None);
    let no_type = LsblkInfo::from_list(r#"NAME="sdb" KNAME="sdb" MAJ:MIN="8:16" FSTYPE="" MOUNTPOINT="" LABEL="" UUID="" RO="0" SIZE="9" TYPE="disk"
NAME="sdb1" KNAME="sdb1" MAJ:MIN="8:17" FSTYPE="" MOUNTPOINT="" LABEL="" UUID="" RO="0" SIZE="8" TYPE="part""#).unwrap();
    assert_eq!(MigrateInfo::log_device_info(&no_type, Some("/dev/sdb1")), None);
    assert_eq!(MigrateInfo::log_device_info(&info, Some("/dev/sdz1")), None);
    assert_eq!(MigrateInfo::log_device_info(&info, None), None);
}
