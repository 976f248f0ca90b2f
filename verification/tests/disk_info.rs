use balena_migrate::defs::{MigError, MigErrorKind};
use balena_migrate::disk_info::{LsblkDevice, LsblkInfo, LsblkPartition};
use balena_migrate::path_info::PathInfo;

const LISTING: &str = r#"NAME="sda" KNAME="sda" MAJ:MIN="8:0" FSTYPE="" MOUNTPOINT="" LABEL="" UUID="" RO="0" SIZE="500107862016" TYPE="disk"
NAME="sda1" KNAME="sda1" MAJ:MIN="8:1" FSTYPE="vfat" MOUNTPOINT="/boot/efi" LABEL="ESP" UUID="42D3-AAB8" RO="0" SIZE="536870912" TYPE="part"
NAME="sda2" KNAME="sda2" MAJ:MIN="8:2" FSTYPE="ext4" MOUNTPOINT="/" LABEL="" UUID="f5a69346" RO="0" SIZE="499570991104" TYPE="part"
NAME="loop0" KNAME="loop0" MAJ:MIN="7:0" FSTYPE="squashfs" MOUNTPOINT="/snap/core/1" LABEL="" UUID="" RO="1" SIZE="57151488" TYPE="loop"
NAME="loop0" KNAME="loop0" MAJ:MIN="7:0" FSTYPE="" MOUNTPOINT="" LABEL="" UUID="" RO="1" SIZE="57151488" TYPE="disk"
NAME="mmcblk0" KNAME="mmcblk0" MAJ:MIN="179:0" FSTYPE="" MOUNTPOINT="" LABEL="" UUID="" RO="0" SIZE="" TYPE="disk"
NAME="mmcblk0p1" KNAME="mmcblk0p1" MAJ:MIN="179:1" FSTYPE="ext4" MOUNTPOINT="/mnt/data" LABEL="data" UUID="" RO="0" SIZE="1024" TYPE="part"
"#;

#[test]
fn listing_reads_disks_and_numbered_partitions() {
    let info = LsblkInfo::from_list(LISTING).unwrap();
    let devs = info.get_blk_devices();
    assert_eq!(devs.len(), 3);
    assert_eq!(devs[0].name, "sda");
    assert_eq!(devs[0].size, Some(500107862016));
    let parts = devs[0].children.as_ref().unwrap();
    assert_eq!(parts.len(), 2);
    assert_eq!(parts[0].index, Some(1));
    assert_eq!(parts[1].index, Some(2));
    assert_eq!(parts[0].label, Some(String::from("ESP")));
    assert_eq!(parts[1].label, None);
    assert_eq!(parts[1].fstype, Some(String::from("ext4")));
    assert_eq!(parts[1].mountpoint, Some(String::from("/")));
    assert_eq!(parts[1].partuuid, None);
    assert_eq!(devs[1].name, "loop0");
    assert!(devs[1].children.is_none());
    assert_eq!(devs[2].size, None);
}

#[test]
fn all_keeps_supported_disks_only() {
    let info = LsblkInfo::all(true, LISTING).unwrap();
    let names: Vec<&str> = info.get_blk_devices().iter().map(|d| d.name.as_str()).collect();
    assert_eq!(names, vec!["sda", "mmcblk0"]);
    assert_eq!(LsblkInfo::all(false, LISTING).err().unwrap(), MigError { kind: MigErrorKind::ExecProcess });
}

#[test]
fn listing_errors() {
    let part_first = r#"NAME="sda1" KNAME="sda1" MAJ:MIN="8:1" FSTYPE="" MOUNTPOINT="" LABEL="" UUID="" RO="0" SIZE="1" TYPE="part""#;
    assert_eq!(LsblkInfo::from_list(part_first).err().unwrap().kind, MigErrorKind::InvState);
    let short = r#"NAME="sda" KNAME="sda" TYPE="disk""#;
    assert_eq!(LsblkInfo::from_list(short).err().unwrap().kind, MigErrorKind::InvParam);
    let misordered = r#"KNAME="sda" NAME="sda" MAJ:MIN="8:0" FSTYPE="" MOUNTPOINT="" LABEL="" UUID="" RO="0" SIZE="1" TYPE="disk""#;
    assert_eq!(LsblkInfo::from_list(misordered).err().unwrap().kind, MigErrorKind::InvParam);
    let bad_size = r#"NAME="sda" KNAME="sda" MAJ:MIN="8:0" FSTYPE="" MOUNTPOINT="" LABEL="" UUID="" RO="0" SIZE="1x" TYPE="disk""#;
    assert_eq!(LsblkInfo::from_list(bad_size).err().unwrap().kind, MigErrorKind::Upstream);
    assert_eq!(LsblkInfo::from_list("").unwrap().get_blk_devices().len(), 0);
}

#[test]
fn listing_of_one_device() {
    let one = r#"NAME="sdb" KNAME="sdb" MAJ:MIN="8:16" FSTYPE="" MOUNTPOINT="" LABEL="" UUID="" RO="0" SIZE="100" TYPE="disk"
NAME="sdb1" KNAME="sdb1" MAJ:MIN="8:17" FSTYPE="ext4" MOUNTPOINT="" LABEL="" UUID="u1" RO="0" SIZE="90" TYPE="part""#;
    let d = LsblkInfo::for_device(true, one).ok().unwrap();
    assert_eq!(d.name, "sdb");
    assert_eq!(d.get_path(), "/dev/sdb");
    assert_eq!(d.children.as_ref().unwrap()[0].uuid, Some(String::from("u1")));
    assert_eq!(LsblkInfo::for_device(true, LISTING).err().unwrap().kind, MigErrorKind::InvState);
    assert_eq!(LsblkInfo::for_device(false, one).err().unwrap().kind, MigErrorKind::ExecProcess);
}

#[test]
fn partition_paths() {
    let info = LsblkInfo::from_list(LISTING).unwrap();
    let sda = &info.get_blk_devices()[0];
    let esp = sda.get_devinfo_from_part_name("sda1").unwrap();
    assert_eq!(esp.get_path(), "/dev/sda1");
    assert_eq!(esp.get_alt_path(), "/dev/disk/by-uuid/42D3-AAB8");
    let root = sda.get_devinfo_from_part_name("sda2").unwrap();
    assert_eq!(root.get_alt_path(), "/dev/disk/by-uuid/f5a69346");
    assert_eq!(sda.get_devinfo_from_part_name("sda3").err().unwrap().kind, MigErrorKind::NotFound);
    let mmc = &info.get_blk_devices()[2];
    assert_eq!(mmc.get_devinfo_from_part_name("mmcblk0p1").unwrap().get_alt_path(), "/dev/disk/by-label/data");
}

#[test]
fn partition_by_device_path() {
    let info = LsblkInfo::from_list(LISTING).unwrap();
    let (d, p) = info.get_devinfo_from_partition("/dev/sda2").unwrap();
    assert_eq!(d.name, "sda");
    assert_eq!(p.name, "sda2");
    let (d, p) = info.get_devinfo_from_partition("/dev/mmcblk0p1").unwrap();
    assert_eq!(d.name, "mmcblk0");
    assert_eq!(p.index, Some(1));
    assert_eq!(info.get_devinfo_from_partition("/dev/sdc1").err().unwrap().kind, MigErrorKind::NotFound);
    assert_eq!(info.get_devinfo_from_partition("/dev/sda9").err().unwrap().kind, MigErrorKind::NotFound);
    assert_eq!(info.get_devinfo_from_partition("/").err().unwrap().kind, MigErrorKind::InvParam);
}

#[test]
fn mount_of_a_path() {
    let info = LsblkInfo::from_list(LISTING).unwrap();
    let (_, p) = info.get_path_info("/boot/efi").unwrap();
    assert_eq!(p.name, "sda1");
    // of the mounts that lead a path, the one with the longest mountpoint is taken
    let (_, p) = info.get_path_info("/boot/efi/EFI/ubuntu").unwrap();
    assert_eq!(p.name, "sda1");
    let (_, p) = info.get_path_info("/home/user").unwrap();
    assert_eq!(p.name, "sda2");
    let (d, p) = info.get_path_info("/mnt/data").unwrap();
    assert_eq!((d.name.as_str(), p.name.as_str()), ("mmcblk0", "mmcblk0p1"));
    let (d, p) = info.get_path_info("/mnt/data/x").unwrap();
    assert_eq!((d.name.as_str(), p.name.as_str()), ("mmcblk0", "mmcblk0p1"));
    let none = LsblkInfo::from_list(r#"NAME="sda" KNAME="sda" MAJ:MIN="8:0" FSTYPE="" MOUNTPOINT="" LABEL="" UUID="" RO="0" SIZE="1" TYPE="disk""#).unwrap();
    assert_eq!(none.get_path_info("/").err().unwrap().kind, MigErrorKind::NotFound);
}

#[test]
fn path_info_of_mounted_paths() {
    let info = LsblkInfo::from_list(LISTING).unwrap();
    let (d, p, m) = PathInfo::find_mounted(&info, "/home/user", "/dev/sda2").ok().unwrap();
    assert_eq!(m, "/");
    let pi = PathInfo::from_mounted("/home/user", &m, d, p, Ok((1000, 400))).ok().unwrap();
    assert_eq!(pi.path, "/home/user");
    assert_eq!(pi.drive, "/dev/sda");
    assert_eq!(pi.device, "/dev/sda2");
    assert_eq!(pi.index, 2);
    assert_eq!(pi.drive_size, 500107862016);
    assert_eq!(pi.fs_type, "ext4");
    assert_eq!(pi.part_size, 499570991104);
    assert_eq!((pi.fs_size, pi.fs_free), (1000, 400));
    assert_eq!(pi.get_kernel_cmd(), "UUID=f5a69346");

    let (_, p, m) = PathInfo::find_mounted(&info, "/", "/dev/sda2").ok().unwrap();
    assert_eq!((p.name.as_str(), m.as_str()), ("sda2", "/"));
    assert_eq!(PathInfo::find_mounted(&info, "/", "/dev/sdz2").err().unwrap().kind, MigErrorKind::NotFound);
    assert_eq!(PathInfo::find_mounted(&info, "/", "/").err().unwrap().kind, MigErrorKind::InvParam);

    let (d, p, m) = PathInfo::find_mounted(&info, "/mnt/data", "/dev/sda2").ok().unwrap();
    assert_eq!(
        PathInfo::from_mounted("/mnt/data", &m, d, p, Ok((1, 1))).err().unwrap().kind,
        MigErrorKind::InvParam
    );
    assert_eq!(
        PathInfo::from_mounted("/mnt/data", &m, d, p, Err(MigError { kind: MigErrorKind::Upstream }))
            .err()
            .unwrap()
            .kind,
        MigErrorKind::Upstream
    );
}

#[test]
fn root_partition_must_be_mounted() {
    let listing = r#"NAME="sda" KNAME="sda" MAJ:MIN="8:0" FSTYPE="" MOUNTPOINT="" LABEL="" UUID="" RO="0" SIZE="10" TYPE="disk"
NAME="sda1" KNAME="sda1" MAJ:MIN="8:1" FSTYPE="ext4" MOUNTPOINT="" LABEL="" UUID="" RO="0" SIZE="9" TYPE="part""#;
    let info = LsblkInfo::from_list(listing).unwrap();
    assert_eq!(PathInfo::find_mounted(&info, "/", "/dev/sda1").err().unwrap().kind, MigErrorKind::InvState);
}

#[test]
fn partition_of_a_disk_whose_name_starts_another() {
    let listing = r#"NAME="mmcblk1" KNAME="mmcblk1" MAJ:MIN="179:0" FSTYPE="" MOUNTPOINT="" LABEL="" UUID="" RO="0" SIZE="100" TYPE="disk"
NAME="mmcblk1p1" KNAME="mmcblk1p1" MAJ:MIN="179:1" FSTYPE="ext4" MOUNTPOINT="" LABEL="" UUID="" RO="0" SIZE="90" TYPE="part"
NAME="mmcblk10" KNAME="mmcblk10" MAJ:MIN="179:10" FSTYPE="" MOUNTPOINT="" LABEL="" UUID="" RO="0" SIZE="200" TYPE="disk"
NAME="mmcblk10p1" KNAME="mmcblk10p1" MAJ:MIN="179:11" FSTYPE="ext4" MOUNTPOINT="" LABEL="" UUID="" RO="0" SIZE="190" TYPE="part"
"#;
    let info = LsblkInfo::from_list(listing).unwrap();
    let (d, p) = info.get_devinfo_from_partition("/dev/mmcblk10p1").unwrap();
    assert_eq!(d.name, "mmcblk10");
    assert_eq!(p.name, "mmcblk10p1");
    let (d, _) = info.get_devinfo_from_partition("/dev/mmcblk1p1").unwrap();
    assert_eq!(d.name, "mmcblk1");
}

fn partition_with(fstype: Option<&str>, size: Option<u64>) -> LsblkPartition {
    LsblkPartition {
        name: String::from("sdb1"),
        kname: String::from("sdb1"),
        maj_min: String::from("8:17"),
        ro: String::from("0"),
        uuid: None,
        fstype: fstype.map(String::from),
        mountpoint: Some(String::from("/data")),
        label: None,
        parttype: None,
        partlabel: None,
        partuuid: None,
        size,
        index: Some(1),
    }
}

#[test]
fn path_info_needs_a_file_system_type_and_a_size() {
    let disk = LsblkDevice {
        name: String::from("sdb"),
        kname: String::from("sdb"),
        maj_min: String::from("8:16"),
        uuid: None,
        size: Some(1000),
        children: None,
    };
    let ok = PathInfo::from_mounted("/data", "/data", &disk, &partition_with(Some("ext4"), Some(900)), Ok((10, 5)));
    let ok = ok.ok().unwrap();
    assert_eq!(ok.part_size, 900);
    assert!(ok.check_attributes().is_ok());
    // an empty type or a size of 0 is taken, and the first stage's check refuses it
    for part in [partition_with(Some(""), Some(900)), partition_with(Some("ext4"), Some(0))] {
        let pi = PathInfo::from_mounted("/data", "/data", &disk, &part, Ok((10, 5))).ok().unwrap();
        assert_eq!(pi.check_attributes().unwrap_err().kind, MigErrorKind::InvParam);
    }
    for part in [partition_with(None, Some(900)), partition_with(Some("ext4"), None)] {
        let r = PathInfo::from_mounted("/data", "/data", &disk, &part, Ok((10, 5)));
        assert_eq!(r.err().unwrap().kind, MigErrorKind::InvParam);
    }
}
