use balena_migrate::defs::{MigError, MigErrorKind};
use balena_migrate::ensured_cmds::EnsuredCmds;
use balena_migrate::fs_writer::{part_reread_step, write_balena_os, FlashResult, FsDumpBlocks, PartCheck};
use balena_migrate::path_info::PathInfo;
use balena_migrate::stage2::config::{Stage2Config, Stage2Settings};
use balena_migrate::stage2::flow::{FailMode, Stage2, Stage2Action, Stage2Outcome, Stage2Step, STAGE2_MEM_THRESHOLD};
use balena_migrate::stage2::{ExecMode, Mounts, PathType, ScriptedExec};

fn mounts() -> Mounts {
    Mounts::from_boot(
        String::from("/tmp_mount/boot/balena-stage2.yml"),
        String::from("/dev/sda"),
        String::from("/dev/sda1"),
        String::from("/tmp_mount/boot"),
    )
}

#[test]
fn ensured_commands_are_recorded_and_found() {
    let mut cmds = EnsuredCmds::new();
    assert!(!cmds.has("mount"));
    assert_eq!(cmds.get("mount").unwrap_err().kind, MigErrorKind::InvParam);
    assert_eq!(cmds.ensure("mount", Some(String::from("/bin/mount"))).unwrap(), "/bin/mount");
    assert_eq!(cmds.ensure("dd", None).unwrap_err().kind, MigErrorKind::NotFound);
    assert!(cmds.has("mount"));
    assert!(!cmds.has("dd"));
    let r = cmds.ensure_cmds(
        &["mount", "chmod", "lsblk"],
        &[None, Some(String::from("/bin/chmod")), None],
    );
    assert_eq!(r.unwrap_err().kind, MigErrorKind::NotFound);
    assert_eq!(cmds.get("mount").unwrap(), "/bin/mount");
    assert_eq!(cmds.get("chmod").unwrap(), "/bin/chmod");
    assert!(!cmds.has("lsblk"));
    assert!(cmds.ensure_cmds(&["lsblk"], &[Some(String::from("/usr/bin/lsblk"))]).is_ok());
    assert_eq!(cmds.get("lsblk").unwrap(), "/usr/bin/lsblk");
}

#[test]
fn mount_table_starts_with_the_boot_partition() {
    let m = mounts();
    assert_eq!(m.get_boot_mountpoint(), "/tmp_mount/boot");
    assert_eq!(m.get_stage2_config(), "/tmp_mount/boot/balena-stage2.yml");
    assert_eq!(m.get_flash_device(), "/dev/sda");
    assert!(!m.is_work_no_copy());
    assert_eq!(m.get_work_path(), None);
    assert_eq!(m.get_log_path(), None);
    assert_eq!(Mounts::mountpoint_for("boot"), "/tmp_mount/boot");
    assert_eq!(Mounts::fs_types_to_try(Some("btrfs")), vec![String::from("btrfs")]);
    assert_eq!(Mounts::fs_types_to_try(None), vec!["ext4", "vfat", "ntfs", "ext2", "ext3"]);
}

#[test]
fn work_path_on_the_boot_partition() {
    let mut m = mounts();
    let work = PathType::Path(String::from("migrate"));
    assert!(!m.work_needs_mount(&work, "/dev/sda1"));
    let r = m.mount_all(Some(Ok(String::from("/tmp_mount/log"))), &work, "", Err(MigError { kind: MigErrorKind::NotFound }), None);
    assert!(r.is_ok());
    assert_eq!(m.get_work_path(), Some("/tmp_mount/boot/migrate"));
    assert_eq!(m.get_log_path(), Some("/tmp_mount/log"));
    assert!(!m.is_work_no_copy());
}

#[test]
fn work_device_of_its_own() {
    let mut m = mounts();
    let work = PathType::Mount {
        device: String::from("/dev/sdb1"),
        fstype: String::from("ext4"),
        path: String::from("balena"),
    };
    assert!(m.work_needs_mount(&work, "/dev/sdb1"));
    assert!(!m.work_needs_mount(&work, "/dev/sda1"));
    let r = m.mount_all(None, &work, "/dev/sdb1", Ok(String::from("/tmp_mount/work")), Some("/dev/sdb"));
    assert!(r.is_ok());
    assert_eq!(m.get_work_path(), Some("/tmp_mount/work/balena"));
    assert_eq!(m.work_mountpoint, Some(String::from("/tmp_mount/work")));
    assert!(m.is_work_no_copy());
    assert_eq!(m.get_log_path(), None);

    let mut m = mounts();
    let r = m.mount_all(Some(Err(MigError { kind: MigErrorKind::Upstream })), &work, "/dev/sdb1", Err(MigError { kind: MigErrorKind::Upstream }), None);
    assert_eq!(r.unwrap_err().kind, MigErrorKind::Displayed);
    assert_eq!(m.get_log_path(), None);

    let mut m = mounts();
    let r = m.mount_all(None, &work, "/dev/sda1", Err(MigError { kind: MigErrorKind::Upstream }), None);
    assert!(r.is_ok());
    assert_eq!(m.get_work_path(), Some("/tmp_mount/boot/balena"));
}

#[test]
fn balena_partitions_found() {
    let (all, boot, data) =
        Mounts::mount_balena(Ok(String::from("/tmp_mount/resin-boot")), true, true, true, Ok(String::from("/tmp_mount/resin-data")))
            .unwrap();
    assert!(all);
    assert_eq!(boot, "/tmp_mount/resin-boot");
    assert_eq!(data, Some(String::from("/tmp_mount/resin-data")));
    let (all, _, data) =
        Mounts::mount_balena(Ok(String::from("/b")), true, false, true, Ok(String::from("/d"))).unwrap();
    assert!(!all);
    assert_eq!(data, Some(String::from("/d")));
    let (all, _, data) =
        Mounts::mount_balena(Ok(String::from("/b")), true, true, true, Err(MigError { kind: MigErrorKind::Upstream })).unwrap();
    assert!(!all);
    assert_eq!(data, None);
    assert_eq!(
        Mounts::mount_balena(Err(MigError { kind: MigErrorKind::Upstream }), true, true, true, Ok(String::from("/d")))
            .unwrap_err()
            .kind,
        MigErrorKind::Displayed
    );
}

#[test]
fn scripted_execution_gathers_commands() {
    let mut cmds = EnsuredCmds::new();
    assert_eq!(ScriptedExec::new(true, &cmds).err().unwrap().kind, MigErrorKind::InvParam);
    let mut direct = ScriptedExec::new(false, &cmds).ok().unwrap();
    assert!(!direct.is_scripted());
    assert!(!direct.add_to_script("sync"));
    cmds.ensure("chmod", Some(String::from("/bin/chmod"))).unwrap();
    let mut s = ScriptedExec::new(true, &cmds).ok().unwrap();
    assert!(s.is_scripted());
    assert!(s.add_to_script("mount /dev/sda1 /mnt"));
    assert!(s.add_to_script("sync"));
    match s.exec_mode {
        ExecMode::Scriptified { buffer, chmod_cmd } => {
            assert_eq!(buffer, "mount /dev/sda1 /mnt\nsync\n");
            assert_eq!(chmod_cmd, "/bin/chmod");
        }
        ExecMode::Direct => panic!("script expected"),
    }
}

#[test]
fn stage2_failure_handling() {
    let mut st = Stage2::new(FailMode::Reboot);
    assert!(!st.recoverable_state);
    assert_eq!(st.error_exit(), FailMode::RescueShell);
    st.boot_restored(false);
    assert!(!st.recoverable_state);
    st.boot_restored(true);
    assert_eq!(st.error_exit(), FailMode::Reboot);
    assert!(st.flashed(FlashResult::Success).is_ok());
    assert_eq!(st.error_exit(), FailMode::Reboot);

    let mut st = Stage2::new(FailMode::Reboot);
    assert_eq!(st.flashed(FlashResult::FailRecoverable).unwrap_err().kind, MigErrorKind::Displayed);
    assert_eq!(st.error_exit(), FailMode::Reboot);
    assert_eq!(st.flashed(FlashResult::FailNonRecoverable).unwrap_err().kind, MigErrorKind::Displayed);
    assert_eq!(st.error_exit(), FailMode::RescueShell);
}

#[test]
fn stage2_copy_decisions() {
    assert!(!Stage2::watchdogs_needed(None));
    assert!(!Stage2::watchdogs_needed(Some(0)));
    assert!(Stage2::watchdogs_needed(Some(2)));
    assert_eq!(Stage2::required_copy_size(1000, 10, Some(100), &[1, 2, 3]), 1116);
    assert_eq!(Stage2::required_copy_size(1000, 10, None, &[]), 1010);
    assert_eq!(Stage2::copy_to_ram(true, Err(MigError { kind: MigErrorKind::Upstream }), 10).unwrap(), false);
    assert_eq!(Stage2::copy_to_ram(false, Ok((0, 1000 + STAGE2_MEM_THRESHOLD + 1)), 1000).unwrap(), true);
    assert_eq!(
        Stage2::copy_to_ram(false, Ok((0, 1000 + STAGE2_MEM_THRESHOLD)), 1000).unwrap_err().kind,
        MigErrorKind::InvState
    );
    assert_eq!(
        Stage2::copy_to_ram(false, Err(MigError { kind: MigErrorKind::Upstream }), 1000).unwrap_err().kind,
        MigErrorKind::Displayed
    );
}

#[test]
fn stage2_image_path() {
    let m = mounts();
    assert_eq!(Stage2::image_path(&m, "balena/image.gz"), "/migrate_tmp/balenaOS.img.gz");
    let mut m = mounts();
    let work = PathType::Mount { device: String::from("/dev/sdb1"), fstype: String::from("ext4"), path: String::from("w") };
    m.mount_all(None, &work, "/dev/sdb1", Ok(String::from("/tmp_mount/work")), Some("/dev/sdb")).unwrap();
    assert_eq!(Stage2::image_path(&m, "balena/image.gz"), "/tmp_mount/work/w/balena/image.gz");
}

#[test]
fn ensured_command_lines() {
    let mut cmds = EnsuredCmds::new();
    cmds.ensure("lsblk", Some(String::from("/bin/lsblk"))).unwrap();
    assert_eq!(cmds.call("lsblk", &["-b", "-P"]).unwrap(), vec!["/bin/lsblk", "-b", "-P"]);
    assert_eq!(cmds.call("lsblk", &[]).unwrap(), vec!["/bin/lsblk"]);
    assert_eq!(cmds.call("dd", &["if=/dev/zero"]).unwrap_err().kind, MigErrorKind::InvParam);
}

#[test]
fn stage2_log_file_location() {
    let m = mounts();
    assert_eq!(Stage2::log_file(&m, false), None);
    assert_eq!(Stage2::log_file(&m, true), None);
    let mut m = mounts();
    m.mount_all(None, &PathType::Path(String::from("w")), "", Err(MigError { kind: MigErrorKind::NotFound }), None).unwrap();
    assert_eq!(Stage2::log_file(&m, false), None);
    assert_eq!(Stage2::log_file(&m, true), Some(String::from("/tmp_mount/boot/w/migrate.log")));
    m.mount_all(Some(Ok(String::from("/tmp_mount/log"))), &PathType::Path(String::from("w")), "", Err(MigError { kind: MigErrorKind::NotFound }), None).unwrap();
    assert_eq!(Stage2::log_file(&m, false), Some(String::from("/tmp_mount/log/migrate.log")));
    let mut m = mounts();
    let work = PathType::Mount { device: String::from("/dev/sdb1"), fstype: String::from("ext4"), path: String::from("w") };
    m.mount_all(None, &work, "/dev/sdb1", Ok(String::from("/tmp_mount/work")), Some("/dev/sdb")).unwrap();
    assert_eq!(Stage2::log_file(&m, false), Some(String::from("/tmp_mount/work/w/migrate.log")));
}

#[test]
fn forced_flash_device() {
    let mut m = mounts();
    m.set_force_flash_device("/dev/sdc");
    assert_eq!(m.get_flash_device(), "/dev/sdc");
    assert_eq!(m.get_boot_mountpoint(), "/tmp_mount/boot");
}

#[test]
fn configured_balena_os_is_a_safe_reboot() {
    let mut st = Stage2::new(FailMode::Reboot);
    assert!(!st.recoverable_state);
    st.balena_configured();
    assert!(st.recoverable_state);
    assert_eq!(st.error_exit(), FailMode::Reboot);
}

#[test]
fn writing_the_file_systems_step_by_step() {
    let ok = FlashResult::Success;
    assert_eq!(write_balena_os(true, ok, true, true, true, true), FlashResult::Success);
    assert_eq!(write_balena_os(false, ok, true, true, true, true), FlashResult::FailRecoverable);
    assert_eq!(
        write_balena_os(true, FlashResult::FailRecoverable, false, false, false, false),
        FlashResult::FailRecoverable
    );
    assert_eq!(
        write_balena_os(true, FlashResult::FailNonRecoverable, false, false, false, false),
        FlashResult::FailNonRecoverable
    );
    assert_eq!(write_balena_os(true, ok, false, false, false, false), FlashResult::FailNonRecoverable);
    assert_eq!(write_balena_os(true, ok, true, false, false, false), FlashResult::FailNonRecoverable);
    assert_eq!(write_balena_os(true, ok, true, true, false, false), FlashResult::FailNonRecoverable);
    assert_eq!(write_balena_os(true, ok, true, true, true, false), FlashResult::FailNonRecoverable);
}

#[test]
fn waiting_for_the_new_partitions() {
    assert_eq!(part_reread_step(Some(5), 5, 0, 30), Ok(true));
    assert_eq!(part_reread_step(Some(6), 5, 31, 30), Ok(true));
    assert_eq!(part_reread_step(Some(4), 5, 30, 30), Ok(false));
    assert_eq!(part_reread_step(None, 5, 2, 30), Ok(false));
    assert_eq!(part_reread_step(None, 5, 31, 30), Err(MigError { kind: MigErrorKind::Timeout }));
}

#[test]
fn ensure_cmds_keeps_known_and_records_found() {
    let mut cmds = EnsuredCmds::new();
    assert!(cmds.ensure_cmds(&["df"], &[Some(String::from("/bin/df"))]).is_ok());
    // a known command keeps its path; the others take what their search found; the lookups go on
    // after a miss, and the miss is the error
    let r = cmds.ensure_cmds(
        &["df", "tar", "sfdisk"],
        &[Some(String::from("/usr/bin/df")), None, Some(String::from("/sbin/sfdisk"))],
    );
    assert_eq!(r.unwrap_err().kind, MigErrorKind::NotFound);
    assert_eq!(cmds.get("df").unwrap(), "/bin/df");
    assert_eq!(cmds.get("sfdisk").unwrap(), "/sbin/sfdisk");
    assert!(!cmds.has("tar"));
    // a command named twice takes the path of its first search
    assert!(cmds.ensure_cmds(&["mount", "mount"], &[Some(String::from("/bin/mount")), None]).is_ok());
    assert_eq!(cmds.get("mount").unwrap(), "/bin/mount");
}

#[test]
fn second_stage_steps_in_order() {
    let mut st = Stage2::new(FailMode::Reboot);
    assert_eq!(Stage2::first_step(), Stage2Action::Run(Stage2Step::MountLocations));
    assert_eq!(st.next(Stage2Step::MountLocations, Stage2Outcome::Done, false), Stage2Action::Run(Stage2Step::RestoreBoot));
    assert_eq!(st.next(Stage2Step::RestoreBoot, Stage2Outcome::Done, false), Stage2Action::Run(Stage2Step::SecureFiles));
    assert!(st.recoverable_state);
    assert_eq!(st.next(Stage2Step::SecureFiles, Stage2Outcome::Done, false), Stage2Action::Run(Stage2Step::UnmountBoot));
    assert_eq!(st.next(Stage2Step::UnmountBoot, Stage2Outcome::Done, false), Stage2Action::Run(Stage2Step::WriteBalena));
    assert_eq!(st.next(Stage2Step::WriteBalena, Stage2Outcome::Written(FlashResult::Success), false), Stage2Action::Run(Stage2Step::ConfigureBalena));
    assert_eq!(st.next(Stage2Step::ConfigureBalena, Stage2Outcome::Done, false), Stage2Action::Reboot);
    assert!(st.recoverable_state);
    // without flashing, the second stage reboots once the boot partition is unmounted
    let mut st = Stage2::new(FailMode::Reboot);
    assert_eq!(st.next(Stage2Step::UnmountBoot, Stage2Outcome::Done, true), Stage2Action::Reboot);
    // failures
    let mut st = Stage2::new(FailMode::Reboot);
    assert_eq!(st.next(Stage2Step::MountLocations, Stage2Outcome::Failed, false), Stage2Action::GiveUp(FailMode::RescueShell));
    assert_eq!(st.next(Stage2Step::RestoreBoot, Stage2Outcome::Failed, false), Stage2Action::Run(Stage2Step::SecureFiles));
    assert!(!st.recoverable_state);
    assert_eq!(st.next(Stage2Step::WriteBalena, Stage2Outcome::Written(FlashResult::FailRecoverable), false), Stage2Action::GiveUp(FailMode::Reboot));
    assert!(st.recoverable_state);
    assert_eq!(st.next(Stage2Step::SecureFiles, Stage2Outcome::Failed, false), Stage2Action::GiveUp(FailMode::Reboot));
    assert_eq!(
        st.next(Stage2Step::WriteBalena, Stage2Outcome::Written(FlashResult::FailNonRecoverable), false),
        Stage2Action::GiveUp(FailMode::RescueShell)
    );
    assert!(!st.recoverable_state);
}

fn path_info(path: &str, device: &str, drive: &str, mountpoint: &str, fs_type: &str) -> PathInfo {
    PathInfo {
        path: String::from(path),
        drive: String::from(drive),
        drive_size: 1 << 34,
        device: String::from(device),
        index: 1,
        mountpoint: String::from(mountpoint),
        fs_type: String::from(fs_type),
        uuid: None,
        part_uuid: None,
        part_label: None,
        part_size: 1 << 30,
        fs_size: 1 << 30,
        fs_free: 1 << 29,
    }
}

fn settings() -> Stage2Settings {
    Stage2Settings {
        gzip_internal: true,
        no_flash: false,
        has_backup: false,
        migrate_delay: 5,
        blocks: FsDumpBlocks { boot: 1, root_a: 2, root_b: 3, extended: 4, state: 5, data: 6 },
        max_data: None,
        check: PartCheck::ReadOnly,
        mkfs_direct: false,
        fail_mode: FailMode::RescueShell,
    }
}

#[test]
fn stage2_config_of_a_work_dir_on_the_boot_partition() {
    let boot = path_info("/boot", "/dev/sda1", "/dev/sda", "/boot", "vfat");
    let work = path_info("/boot/balena", "/dev/sda1", "/dev/sda", "/boot", "vfat");
    let c = Stage2Config::plan(
        &work,
        &boot,
        Some("/boot/balena/images/balena.img.gz"),
        &Vec::new(),
        "/boot/balena/config.json",
        Some("/dev/sdb1"),
        None,
        Vec::new(),
        settings(),
    )
    .unwrap();
    assert!(c.flasher);
    assert!(matches!(&c.work, PathType::Path(p) if p == "balena"));
    assert_eq!(c.work_drive, None);
    assert_eq!(c.image_rel_path, "images/balena.img.gz");
    assert_eq!(c.config_rel_path, "config.json");
    assert_eq!(c.log_device, Some(String::from("/dev/sdb1")));
    assert_eq!(c.migrate_delay, 5);
    assert_eq!(c.fail_mode, FailMode::RescueShell);
}

#[test]
fn stage2_config_of_a_work_dir_elsewhere() {
    let boot = path_info("/boot", "/dev/sda1", "/dev/sda", "/boot", "vfat");
    let work = path_info("/home/mig", "/dev/sdb2", "/dev/sdb", "/home", "ext4");
    let archives = vec![String::from("/home/mig/resin-boot.tgz"), String::from("/home/mig/resin-data.tgz")];
    let c = Stage2Config::plan(&work, &boot, None, &archives, "/home/mig/config.json", None, Some("/dev/sdc"), Vec::new(), settings())
        .unwrap();
    assert!(!c.flasher);
    match &c.work {
        PathType::Mount { device, fstype, path } => {
            assert_eq!((device.as_str(), fstype.as_str(), path.as_str()), ("/dev/sdb2", "ext4", "mig"));
        }
        _ => panic!("the work directory is mounted"),
    }
    assert_eq!(c.work_drive, Some(String::from("/dev/sdb")));
    assert_eq!(c.archives, vec![String::from("resin-boot.tgz"), String::from("resin-data.tgz")]);
    assert_eq!(c.force_flash_device, Some(String::from("/dev/sdc")));
    // a file outside the work directory
    let e = Stage2Config::plan(&work, &boot, None, &archives, "/etc/config.json", None, None, Vec::new(), settings());
    assert_eq!(e.err().unwrap().kind, MigErrorKind::InvParam);
    // a work directory outside its mountpoint
    let odd = path_info("/srv/mig", "/dev/sdb2", "/dev/sdb", "/home", "ext4");
    assert_eq!(Stage2Config::work_location(&odd, &boot).err().unwrap().kind, MigErrorKind::InvState);
}
