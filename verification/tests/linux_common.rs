use balena_migrate::linux_common::df_space_fits;
use balena_migrate::defs::{MigErrorKind, OSArch};
use balena_migrate::linux_common::{
    df_mountpoint, drive_from_partition, drive_to_partition, fs_space_from_df, get_kernel_root_info,
    get_os_arch, is_secure_boot, lower_char, secure_boot_state, whereis_candidates, whereis_result,
};

#[test]
fn os_arch_from_uname() {
    assert_eq!(get_os_arch(true, "x86_64").unwrap(), OSArch::AMD64);
    assert_eq!(get_os_arch(true, "X86_64").unwrap(), OSArch::AMD64);
    assert_eq!(get_os_arch(true, "i386").unwrap(), OSArch::I386);
    assert_eq!(get_os_arch(true, "ARMv7l").unwrap(), OSArch::ARMHF);
    assert_eq!(get_os_arch(true, "aarch64").unwrap_err().kind, MigErrorKind::InvParam);
    assert_eq!(get_os_arch(false, "x86_64").unwrap_err().kind, MigErrorKind::ExecProcess);
}

#[test]
fn lower_char_maps_ascii_capitals_only() {
    assert_eq!(lower_char('A'), 'a');
    assert_eq!(lower_char('Z'), 'z');
    assert_eq!(lower_char('a'), 'a');
    assert_eq!(lower_char('_'), '_');
    assert_eq!(lower_char('Ä'), 'Ä');
}

#[test]
fn whereis_candidates_in_order() {
    assert_eq!(
        whereis_candidates("mount"),
        vec![
            String::from("/bin/mount"),
            String::from("/usr/bin/mount"),
            String::from("/sbin/mount"),
            String::from("/usr/sbin/mount")
        ]
    );
}

#[test]
fn whereis_takes_the_first_path() {
    assert_eq!(whereis_result(true, "mokutil: /usr/bin/mokutil /usr/share/mokutil").unwrap(), "/usr/bin/mokutil");
    assert_eq!(whereis_result(true, "mokutil: /usr/bin/mokutil").unwrap(), "/usr/bin/mokutil");
    assert_eq!(whereis_result(true, "mokutil:").unwrap_err().kind, MigErrorKind::NotFound);
    assert_eq!(whereis_result(true, "").unwrap_err().kind, MigErrorKind::InvParam);
    assert_eq!(whereis_result(false, "mokutil: /usr/bin/mokutil").unwrap_err().kind, MigErrorKind::ExecProcess);
}

#[test]
fn secure_boot_from_mokutil() {
    assert_eq!(secure_boot_state("SecureBoot enabled\n").unwrap(), true);
    assert_eq!(secure_boot_state("EFI variables\nSecureBoot   disabled\n").unwrap(), false);
    assert_eq!(secure_boot_state("SecureBoot maybe\n").unwrap_err().kind, MigErrorKind::InvParam);
    assert_eq!(is_secure_boot(true, true, "SecureBoot enabled").unwrap(), true);
    assert_eq!(is_secure_boot(false, true, "SecureBoot enabled").unwrap(), false);
    assert_eq!(is_secure_boot(true, false, "SecureBoot enabled").unwrap(), false);
    assert_eq!(is_secure_boot(true, true, "nothing").unwrap_err().kind, MigErrorKind::InvParam);
}

#[test]
fn fs_space_from_df_output() {
    assert_eq!(fs_space_from_df(true, "1K-blocks Used\n1000K 400K").unwrap(), (1024000, 614400));
    assert_eq!(fs_space_from_df(true, "1K-blocks Used\n  1000   1000").unwrap(), (1024000, 0));
    assert_eq!(fs_space_from_df(true, "1K-blocks Used\n1000M 400").unwrap_err().kind, MigErrorKind::InvParam);
    assert_eq!(fs_space_from_df(true, "1000 400").unwrap_err().kind, MigErrorKind::InvParam);
    assert_eq!(fs_space_from_df(true, "a\nb\n1000 400").unwrap_err().kind, MigErrorKind::InvParam);
    assert_eq!(
        fs_space_from_df(true, "1K-blocks Used\n99999999999999999999 1").unwrap_err().kind,
        MigErrorKind::Upstream
    );
    assert_eq!(fs_space_from_df(false, "1K-blocks Used\n1000 400").unwrap_err().kind, MigErrorKind::InvParam);
}

#[test]
fn df_mountpoint_takes_sixth_field() {
    let out = "Filesystem 1K-blocks Used Available Use% Mounted on\n/dev/sda1 1000 400 600 40% /boot\n";
    assert_eq!(df_mountpoint(true, out).unwrap(), Some(String::from("/boot")));
    assert_eq!(df_mountpoint(true, "Filesystem 1K-blocks Used Available Use% Mounted on\n").unwrap(), None);
    assert_eq!(df_mountpoint(true, "head\n/dev/sda1 1000 400").unwrap_err().kind, MigErrorKind::InvState);
    assert_eq!(df_mountpoint(false, out).unwrap_err().kind, MigErrorKind::InvState);
}

#[test]
fn kernel_root_from_cmdline() {
    let (dev, fs) = get_kernel_root_info("BOOT_IMAGE=/vmlinuz root=UUID=abcd-01 ro rootfstype=ext4 quiet\n").unwrap();
    assert_eq!(dev, "/dev/disk/by-uuid/abcd-01");
    assert_eq!(fs, Some(String::from("ext4")));
    let (dev, fs) = get_kernel_root_info("console=tty1 ROOT=PARTUUID=4711-02 rootwait\n").unwrap();
    assert_eq!(dev, "/dev/disk/by-partuuid/4711-02");
    assert_eq!(fs, None);
    let (dev, _) = get_kernel_root_info("x root=/dev/mmcblk0p2 rootfstype=ext4").unwrap();
    assert_eq!(dev, "/dev/mmcblk0p2");
    assert_eq!(get_kernel_root_info("root=/dev/sda1 ro").unwrap_err().kind, MigErrorKind::NotFound);
    assert_eq!(get_kernel_root_info("quiet splash\n").unwrap_err().kind, MigErrorKind::NotFound);
}

#[test]
fn partition_device_of_drive() {
    assert_eq!(drive_to_partition("/dev/sda", 1).unwrap(), "/dev/sda1");
    assert_eq!(drive_to_partition("/dev/hdb", 12).unwrap(), "/dev/hdb12");
    assert_eq!(drive_to_partition("/dev/nvme0n1", 2).unwrap(), "/dev/nvme0n1p2");
    assert_eq!(drive_to_partition("/dev/mmcblk0", 1).unwrap(), "/dev/mmcblk0p1");
    assert_eq!(drive_to_partition("/dev/loop0", 1).unwrap_err().kind, MigErrorKind::InvParam);
}

#[test]
fn drive_of_partition_device() {
    assert_eq!(drive_from_partition("/dev/sda1").unwrap(), "/dev/sda");
    assert_eq!(drive_from_partition("/dev/sdb12").unwrap(), "/dev/sdb");
    assert_eq!(drive_from_partition("/dev/nvme0n1p2").unwrap(), "/dev/nvme0n1");
    assert_eq!(drive_from_partition("/dev/mmcblk0p1").unwrap(), "/dev/mmcblk0");
    assert_eq!(drive_from_partition("/dev/sda").unwrap_err().kind, MigErrorKind::InvParam);
    assert_eq!(drive_from_partition("/dev/loop0p1").unwrap_err().kind, MigErrorKind::InvParam);
}

#[test]
fn partition_and_drive_round_trip() {
    for (drive, n) in [("/dev/sdc", 3u64), ("/dev/nvme1n2", 7), ("/dev/mmcblk2", 1)] {
        let part = drive_to_partition(drive, n).unwrap();
        assert_eq!(drive_from_partition(&part).unwrap(), drive);
    }
}

#[test]
fn df_output_that_the_space_computation_takes() {
    assert!(df_space_fits("1K-blocks Used\n1000 400"));
    assert!(df_space_fits("1K-blocks Used\n1000 1000"));
    assert!(!df_space_fits("1K-blocks Used\n100 200"));
    assert!(!df_space_fits("1K-blocks Used\n99999999999999999 1"));
    assert!(df_space_fits("garbage"));
    assert!(df_space_fits("1K-blocks Used\nx 1"));
}
