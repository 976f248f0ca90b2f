use balena_migrate::boot_manager::grub::LabelType;
use balena_migrate::boot_manager::uboot::{BootFileType, UBootPartScan};
use balena_migrate::boot_manager::{
    from_boot_type, BootManager, EfiBootManager, GrubBootManager, RaspiBootManager, UBootManager, UEnvStrategy,
};
use balena_migrate::defs::{BootType, MigErrorKind};
use balena_migrate::edit::is_balena_text;

#[test]
fn raspi_config_comments_out_boot_settings() {
    let m = RaspiBootManager::new(BootType::Raspi).unwrap();
    let old = "dtparam=audio=on\n  kernel=kernel7.img\ninitramfs old.gz\narm_64bit=1\n";
    assert_eq!(
        m.config_txt(old, false),
        "## created by balena-migrate\ndtparam=audio=on\n#   kernel=kernel7.img\n# initramfs old.gz\narm_64bit=1\n\
         enable_uart=1\ninitramfs balena.initramfs.cpio.gz followkernel\nkernel balena.zImage\n"
    );
}

#[test]
fn raspi64_config_keeps_tag_of_own_file() {
    let m = RaspiBootManager::new(BootType::Raspi64).unwrap();
    assert_eq!(
        m.config_txt("## created by balena-migrate\narm_64bit=1\n", true),
        "## created by balena-migrate\n# arm_64bit=1\narm_64bit=1\nenable_uart=1\n\
         initramfs balena.initramfs.cpio.gz followkernel\nkernel balena.zImage\n"
    );
}

#[test]
fn raspi_cmdline_sets_root_and_consoles() {
    let m = RaspiBootManager::for_stage2(BootType::Raspi);
    let old = "dwc_otg.lpm_enable=0 console=serial0,115200 console=tty1 root=PARTUUID=abcd-02 rootfstype=ext4 \
               elevator=deadline fsck.repair=yes rootwait\n";
    assert_eq!(
        m.cmdline_txt(old, "PARTUUID=1234-02", "ext4", ""),
        "dwc_otg.lpm_enable=0   root=PARTUUID=1234-02 rootfstype=ext4 elevator=deadline fsck.repair=yes rootwait \
         console=tty1 console=serial0,115200\n"
    );
    assert_eq!(
        m.cmdline_txt("console=tty1 rootwait", "/dev/mmcblk0p2", "ext4", "quiet"),
        " rootwait root=/dev/mmcblk0p2 rootfstype=ext4 console=tty1 console=serial0,115200 quiet\n"
    );
}

#[test]
fn raspi_manager_refuses_other_boot_types() {
    assert_eq!(RaspiBootManager::new(BootType::Grub).err().unwrap().kind, MigErrorKind::Displayed);
    assert_eq!(RaspiBootManager::new(BootType::Raspi64).ok().unwrap().get_boot_type(), BootType::Raspi64);
}

#[test]
fn raspi_boot_space_counts_old_files_as_free() {
    assert!(RaspiBootManager::boot_space_ok(1000, Some(100), None, 9093));
    assert!(!RaspiBootManager::boot_space_ok(1000, Some(100), None, 9092));
    assert!(!RaspiBootManager::boot_space_ok(1000, None, None, 9192));
    assert!(RaspiBootManager::boot_space_ok(1000, Some(500), Some(500), 8193));
}

#[test]
fn raspi_dtb_files_and_backups() {
    assert!(RaspiBootManager::is_dtb_file("bcm2710-rpi-3-b.dtb"));
    assert!(RaspiBootManager::is_dtb_file("/boot/X.DTB"));
    assert!(!RaspiBootManager::is_dtb_file("overlays"));
    assert!(!RaspiBootManager::is_dtb_file("a.dtbo"));
    assert_eq!(RaspiBootManager::backup_name("config.txt", 1577836800), "config.txt-1577836800");
}

#[test]
fn uboot_big_endian_words() {
    let buf = [0x27u8, 0x05, 0x19, 0x56, 0x01];
    assert_eq!(UBootManager::u32_from_big_endian(&buf, 0), 0x2705_1956);
    assert_eq!(UBootManager::u32_from_big_endian(&buf, 1), 0x0519_5601);
    assert_eq!(UBootManager::u32_from_big_endian(&buf, 3), 0x5601);
    assert_eq!(UBootManager::u32_from_big_endian(&buf, 9), 0);
}

fn header(size: u32) -> Vec<u8> {
    let mut h = vec![0x27u8, 0x05, 0x19, 0x56];
    h.extend_from_slice(&[0u8; 8]);
    h.extend_from_slice(&size.to_be_bytes());
    h.extend_from_slice(&[0u8; 48]);
    h
}

#[test]
fn uboot_mbr_header_check() {
    assert_eq!(UBootManager::mbr_uboot_size(&header(4096)), Some(4096 + 0x40));
    assert_eq!(UBootManager::mbr_uboot_size(&header(0x8_0000)), Some(0x8_0040));
    assert_eq!(UBootManager::mbr_uboot_size(&[0u8; 64]), None);
}

#[test]
fn uboot_flash_device_and_partition_number() {
    assert_eq!(UBootManager::flash_device("/dev/mmcblk0p1").unwrap(), "/dev/mmcblk0");
    assert_eq!(UBootManager::flash_device("/dev/mmcblk1p12").unwrap_err().kind, MigErrorKind::InvState);
    assert_eq!(UBootManager::flash_device("/dev/sda1").unwrap_err().kind, MigErrorKind::InvState);
    assert_eq!(UBootManager::partition_number("/dev/mmcblk0p12").unwrap(), "12");
    assert_eq!(UBootManager::partition_number("/dev/mmcblk0").unwrap_err().kind, MigErrorKind::InvParam);
}

#[test]
fn uboot_target_file_names() {
    assert_eq!(
        UBootManager::get_target_file_name(BootFileType::KernelFile, "/boot", None),
        "/boot/vmlinuz-balena-migrate"
    );
    assert_eq!(
        UBootManager::get_target_file_name(BootFileType::Initramfs, "/boot/", None),
        "/boot/initrd.img-balena-migrate"
    );
    assert_eq!(
        UBootManager::get_target_file_name(BootFileType::DtbFile, "/boot", Some("am335x-boneblack.dtb")),
        "/boot/dtbs/balena-migrate/am335x-boneblack.dtb"
    );
    assert_eq!(UBootManager::get_target_file_name(BootFileType::DtbFile, "/boot", None), "/boot/dtbs/balena-migrate/");
}

#[test]
fn uboot_space_file_systems_and_install() {
    assert!(UBootManager::check_boot_req_space(&[100, 200], 8493));
    assert!(!UBootManager::check_boot_req_space(&[100, 200], 8492));
    assert!(UBootManager::fs_type_supported(None));
    assert!(UBootManager::fs_type_supported(Some("ext4")));
    assert!(!UBootManager::fs_type_supported(Some("ext3")));
    assert_eq!(UBootManager::check_install(true, false, true).unwrap(), true);
    assert_eq!(UBootManager::check_install(false, true, true).unwrap(), true);
    assert_eq!(UBootManager::check_install(false, false, true).unwrap_err().kind, MigErrorKind::InvState);
    assert_eq!(UBootManager::check_install(true, true, false).unwrap_err().kind, MigErrorKind::InvState);
}

#[test]
fn uboot_uenv_by_kernel_release() {
    assert_eq!(
        UBootManager::uenv_uname_text("root=/dev/mmcblk0p2", "quiet"),
        "## created by balena-migrate\n#Docs: http://elinux.org/Beagleboard:U-boot_partitioning_layout_2.0\n\n\
         uname_r=balena-migrate\n#dtb=\ncmdline=init=/lib/systemd/systemd quiet\nroot=/dev/mmcblk0p2\n"
    );
}

#[test]
fn uboot_uenv_manual_fills_every_place_holder() {
    let m = UBootManager::new(1, UEnvStrategy::Manual, vec![String::from("am335x-bonegreen.dtb")]);
    let t = m.uenv_manual_text("/k", "/i", "/d.dtb", "2", "/dev/mmcblk1p2", "ext4", "quiet");
    assert!(t.starts_with("## created by balena-migrate\n"));
    assert!(!t.contains("__"));
    assert!(t.contains("loadximage=echo debug: [/k] ... ; load mmc 1:2 ${loadaddr} /k\n"));
    assert!(t.contains("loadxfdt=echo debug: [/d.dtb] ... ;load mmc 1:2 ${fdtaddr} /d.dtb\n"));
    assert!(t.contains("root=/dev/mmcblk1p2 rootfstype=ext4 quiet ${cmdline}"));
    assert_eq!(UBootManager::for_stage2().get_boot_type(), BootType::UBoot);
}

#[test]
fn grub_label_type_from_fdisk() {
    let out = "Disk /dev/sda: 10 GiB\nDisklabel type: gpt\nDisk identifier: 0A";
    assert_eq!(LabelType::from_fdisk_output(true, out).unwrap(), LabelType::GPT);
    assert_eq!(LabelType::from_fdisk_output(true, "Disklabel type:   dos").unwrap(), LabelType::DOS);
    assert_eq!(LabelType::from_fdisk_output(true, "Disklabel type: sun").unwrap(), LabelType::OTHER);
    assert_eq!(LabelType::from_fdisk_output(true, "Disk /dev/sda").unwrap_err().kind, MigErrorKind::Upstream);
    assert_eq!(LabelType::from_fdisk_output(false, out).unwrap_err().kind, MigErrorKind::Upstream);
}

#[test]
fn grub_layout_and_modules() {
    assert_eq!(GrubBootManager::grub_boot_dir(true, "/mnt"), "/boot");
    assert_eq!(GrubBootManager::grub_boot_dir(false, "/boot"), "/");
    assert!(GrubBootManager::boot_layout_supported(false, "/boot"));
    assert!(GrubBootManager::boot_layout_supported(false, "/boot/"));
    assert!(!GrubBootManager::boot_layout_supported(false, "/mnt/boot"));
    assert!(GrubBootManager::boot_layout_supported(true, "/mnt/boot"));
    assert_eq!(GrubBootManager::part_mod(LabelType::GPT).unwrap(), "part_gpt");
    assert_eq!(GrubBootManager::part_mod(LabelType::DOS).unwrap(), "part_msdos");
    assert_eq!(GrubBootManager::part_mod(LabelType::OTHER).unwrap_err().kind, MigErrorKind::InvParam);
    assert_eq!(GrubBootManager::fstype_mod("ext3").unwrap(), "ext2");
    assert_eq!(GrubBootManager::fstype_mod("vfat").unwrap(), "fat");
    assert_eq!(GrubBootManager::fstype_mod("ntfs").unwrap_err().kind, MigErrorKind::InvParam);
}

#[test]
fn grub_entry_lines() {
    assert_eq!(
        GrubBootManager::root_cmd(Some("1234-ABCD"), "hd0", "gpt", 2),
        "search --no-floppy --fs-uuid --set=root 1234-ABCD"
    );
    assert_eq!(GrubBootManager::root_cmd(None, "hd0", "gpt", 2), "search --no-floppy --fs-uuid --set=root hd0,gpt2");
    assert_eq!(
        GrubBootManager::linux_line("/boot", "BOOT_IMAGE=/vmlinuz-5.4 root=UUID=x ro quiet DEBUG rootfstype=xfs", "ext4"),
        "/boot/balena.zImage root=UUID=x ro quiet rootfstype=ext4 debug"
    );
    assert_eq!(GrubBootManager::initrd_path("/"), "/balena.initramfs.cpio.gz");
    assert_eq!(GrubBootManager::initrd_path("/boot"), "/boot/balena.initramfs.cpio.gz");
}

#[test]
fn grub_cfg_fills_template() {
    let t = GrubBootManager::grub_cfg_text("part_gpt", "ext2", "search x", "/boot/balena.zImage ro", "/boot/i.gz");
    assert_eq!(
        t,
        "\n#!/bin/sh\nexec tail -n +3 $0\n# This file provides an easy way to add custom menu entries.  Simply type the\n\
         # menu entries you want to add after this comment.  Be careful not to change\n# the 'exec tail' line above.\n\n\
         menuentry \"balena-migrate\" {\n  insmod gzio\n  insmod part_gpt\n  insmod ext2\n\n  search x\n  \
         linux /boot/balena.zImage ro\n  initrd  /boot/i.gz\n}\n"
    );
}

#[test]
fn grub_space_and_version() {
    assert!(GrubBootManager::boot_space_ok(false, 100, true, 50, 100));
    assert!(!GrubBootManager::boot_space_ok(false, 100, false, 50, 149));
    assert!(GrubBootManager::boot_space_ok(true, 100, true, 50, 0));
    assert!(GrubBootManager::version_supported("2"));
    assert!(GrubBootManager::version_supported("3"));
    assert!(!GrubBootManager::version_supported("1"));
    assert!(GrubBootManager::version_supported("10"));
    assert!(GrubBootManager::version_supported("02"));
    assert!(!GrubBootManager::version_supported("01"));
    assert!(!GrubBootManager::version_supported("2a"));
    assert!(!GrubBootManager::version_supported(""));
}

#[test]
fn boot_managers_by_boot_type() {
    assert!(matches!(from_boot_type(BootType::MSWEfi), BootManager::Efi(EfiBootManager { msw_device: true })));
    assert_eq!(from_boot_type(BootType::MSWEfi).get_boot_type(), BootType::Efi);
    assert_eq!(from_boot_type(BootType::Raspi64).get_boot_type(), BootType::Raspi64);
    assert_eq!(from_boot_type(BootType::Grub).get_boot_type(), BootType::Grub);
    match from_boot_type(BootType::UBoot) {
        BootManager::UBoot(m) => {
            assert_eq!(m.mmc_index, 0);
            assert_eq!(m.strategy, UEnvStrategy::Manual);
            assert!(m.dtb_names.is_empty());
        }
        _ => panic!("u-boot manager expected"),
    }
    let efi = EfiBootManager::new(false);
    assert_eq!(efi.can_migrate().unwrap_err().kind, MigErrorKind::NotImpl);
    assert_eq!(efi.setup().unwrap_err().kind, MigErrorKind::NotImpl);
    assert_eq!(GrubBootManager::new().get_boot_type(), BootType::Grub);
}

#[test]
fn grub_version_from_version_output() {
    let v = |s: &str| GrubBootManager::grub_version(true, s).map(|(a, b)| (a, b));
    assert_eq!(v("grub-install (GRUB) 2.02-2ubuntu8.13").unwrap(), (String::from("2"), String::from("02")));
    assert_eq!(v("update-grub (GRUB) 2.02~beta2-36ubuntu3.22").unwrap(), (String::from("2"), String::from("02")));
    assert_eq!(v("grub-install (GRUB) 1.99 x").unwrap(), (String::from("1"), String::from("99")));
    assert_eq!(v("a (GRUB) 1.98-x (GRUB) 2.02-y").unwrap(), (String::from("2"), String::from("02")));
    assert_eq!(v("grub-install (GRUB) 2.06").unwrap_err().kind, MigErrorKind::InvParam);
    assert_eq!(v("(GRUB) 2.02-x").unwrap_err().kind, MigErrorKind::InvParam);
    assert_eq!(v("grub-install (GRUB) 2.02-x\nmore").unwrap_err().kind, MigErrorKind::InvParam);
    assert_eq!(GrubBootManager::grub_version(false, "x (GRUB) 2.02-y").unwrap_err().kind, MigErrorKind::ExecProcess);
    assert!(GrubBootManager::version_supported(&v("grub-install (GRUB) 2.02-2").unwrap().0));
}

#[test]
fn grub_partition_table_names() {
    assert_eq!(GrubBootManager::part_type(LabelType::GPT).unwrap(), "gpt");
    assert_eq!(GrubBootManager::part_type(LabelType::DOS).unwrap(), "msdos");
    assert_eq!(GrubBootManager::part_type(LabelType::OTHER).unwrap_err().kind, MigErrorKind::InvParam);
}

#[test]
fn raspi_config_written_by_the_migrator() {
    assert!(is_balena_text("## created by balena-migrate\nkernel balena.zImage\n"));
    assert!(is_balena_text("## created by balena-migrate"));
    assert!(!is_balena_text("dtparam=audio=on\n## created by balena-migrate\n"));
    assert!(!is_balena_text("## created by balena-migrate tool\n"));
    assert!(!is_balena_text(""));
}

#[test]
fn raspi_config_stays_tagged_once() {
    let m = RaspiBootManager::new(BootType::Raspi).unwrap();
    let first = m.config_txt("dtparam=audio=on\n", is_balena_text("dtparam=audio=on\n"));
    assert!(is_balena_text(&first));
    let second = m.config_txt(&first, is_balena_text(&first));
    assert!(is_balena_text(&second));
    assert_eq!(second.matches("## created by balena-migrate").count(), 1);
}

fn scan(fstype: Option<&str>, fits: bool, mlo: bool) -> UBootPartScan {
    UBootPartScan {
        lsblk_size: 1024 * 512,
        num_sectors: 1024,
        fstype: fstype.map(String::from),
        bootable: mlo,
        ptype: if mlo { 0xc } else { 0x83 },
        boot_files_fit: fits,
        has_mlo: mlo,
        has_uboot: mlo,
    }
}

#[test]
fn uboot_scan_picks_install_and_mlo_partitions() {
    let parts = vec![scan(Some("vfat"), false, true), scan(Some("ntfs"), true, false), scan(Some("ext4"), true, false)];
    assert_eq!(UBootManager::uboot_scan(&parts, 3, None).unwrap(), (Some(2), Some(0), false));
    let parts = vec![scan(None, true, false)];
    assert_eq!(UBootManager::uboot_scan(&parts, 1, Some(0x8_0000)).unwrap(), (Some(0), None, true));
}

#[test]
fn uboot_scan_refusals() {
    let kind = |r: Result<(Option<usize>, Option<usize>, bool), balena_migrate::defs::MigError>| r.unwrap_err().kind;
    // a partition that lsblk does not list
    assert_eq!(kind(UBootManager::uboot_scan(&[scan(Some("ext4"), true, true)], 0, None)), MigErrorKind::InvState);
    // sizes that do not agree
    let mut odd = scan(Some("ext4"), true, true);
    odd.lsblk_size = 1;
    assert_eq!(kind(UBootManager::uboot_scan(&[odd], 1, None)), MigErrorKind::InvState);
    // a u-boot too large for the master boot record
    assert_eq!(kind(UBootManager::uboot_scan(&[scan(Some("ext4"), true, false)], 1, Some(0x8_0001))), MigErrorKind::InvState);
    // no room for the boot files
    assert_eq!(kind(UBootManager::uboot_scan(&[scan(Some("vfat"), false, true)], 1, Some(100))), MigErrorKind::InvState);
    // no u-boot at all
    assert_eq!(kind(UBootManager::uboot_scan(&[scan(Some("ext4"), true, false)], 1, None)), MigErrorKind::InvState);
    // no partitions at all
    assert_eq!(kind(UBootManager::uboot_scan(&[], 0, Some(100))), MigErrorKind::InvState);
    // an MLO partition with a file system u-boot cannot read is not taken
    assert_eq!(kind(UBootManager::uboot_scan(&[scan(Some("ntfs"), false, true), scan(Some("ext4"), true, false)], 2, None)), MigErrorKind::InvState);
}
