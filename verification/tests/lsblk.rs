use balena_migrate::defs::MigErrorKind;
use balena_migrate::lsblk_info::block_device::BlockDevice;
use balena_migrate::lsblk_info::calls::{lsblk_results, udev_params};
use balena_migrate::lsblk_info::parse::parse_lsblk_line;
use balena_migrate::lsblk_info::partition::Partition;
use balena_migrate::lsblk_info::result_params::ResultParams;
use balena_migrate::lsblk_info::{supported_maj_min, LsblkInfo};

fn params(ps: &[(&str, &str)]) -> ResultParams {
    ResultParams::new(ps.iter().map(|(a, b)| (a.to_string(), b.to_string())).collect())
}

fn disk(name: &str, mm: &str) -> ResultParams {
    params(&[("NAME", name), ("KNAME", name), ("MAJ:MIN", mm), ("SIZE", "1000"), ("TYPE", "disk")])
}

fn part(name: &str, mp: &str, uuid: &str, label: &str) -> ResultParams {
    params(&[
        ("NAME", name),
        ("KNAME", name),
        ("MAJ:MIN", "8:1"),
        ("SIZE", "500"),
        ("RO", "0"),
        ("MOUNTPOINT", mp),
        ("UUID", uuid),
        ("LABEL", label),
        ("FSTYPE", "ext4"),
        ("TYPE", "part"),
    ])
}

fn udev(partuuid: &str, n: &str) -> ResultParams {
    params(&[
        ("DEVTYPE", "partition"),
        ("ID_PART_TABLE_TYPE", "dos"),
        ("ID_PART_ENTRY_TYPE", "0x83"),
        ("ID_PART_ENTRY_UUID", partuuid),
        ("ID_PART_ENTRY_NUMBER", n),
    ])
}

fn none() -> ResultParams {
    params(&[])
}

const LSBLK_OUTPUT1: &str = r##"NAME="sda" KNAME="sda" MAJ:MIN="8:0" FSTYPE="" MOUNTPOINT="" LABEL="" UUID="" PARTUUID="" RO="0" SIZE="2000365289472" TYPE="disk"
NAME="sda1" KNAME="sda1" MAJ:MIN="8:1" FSTYPE="ext4" MOUNTPOINT="/run/media/thomas/003bd8b2-bc1d-4fc0-a08b-a72427945ff5" LABEL="" UUID="003bd8b2-bc1d-4fc0-a08b-a72427945ff5" PARTUUID="406be993-ed9b-41eb-8902-1603bd368d88" RO="0" SIZE="2000363192320" TYPE="part"
NAME="nvme0n1" KNAME="nvme0n1" MAJ:MIN="259:0" FSTYPE="" MOUNTPOINT="" LABEL="" UUID="" PARTUUID="" RO="0" SIZE="512110190592" TYPE="disk"
NAME="nvme0n1p1" KNAME="nvme0n1p1" MAJ:MIN="259:1" FSTYPE="vfat" MOUNTPOINT="/boot/efi" LABEL="ESP" UUID="42D3-AAB8" PARTUUID="ea85e980-ee1a-464a-928a-dde13eec7e83" RO="0" SIZE="713031680" TYPE="part"
NAME="nvme0n1p2" KNAME="nvme0n1p2" MAJ:MIN="259:2" FSTYPE="" MOUNTPOINT="" LABEL="" UUID="" PARTUUID="87d21a9d-d97c-44cc-a32f-95f396169174" RO="0" SIZE="134217728" TYPE="part"
NAME="nvme0n1p3" KNAME="nvme0n1p3" MAJ:MIN="259:3" FSTYPE="BitLocker" MOUNTPOINT="" LABEL="" UUID="" PARTUUID="ffd6781b-4f09-4378-a2f8-54aa294eb265" RO="0" SIZE="79322677248" TYPE="part"
NAME="nvme0n1p4" KNAME="nvme0n1p4" MAJ:MIN="259:4" FSTYPE="ntfs" MOUNTPOINT="" LABEL="WINRETOOLS" UUID="500EC0840EC06516" PARTUUID="5646ec29-6cdd-401a-96ce-bbfa62a4b7cb" RO="0" SIZE="1038090240" TYPE="part"
NAME="nvme0n1p5" KNAME="nvme0n1p5" MAJ:MIN="259:5" FSTYPE="ntfs" MOUNTPOINT="" LABEL="Image" UUID="C614C0AC14C0A0B3" PARTUUID="a2ef7db6-6201-45f7-906b-a38da95ca5bd" RO="0" SIZE="10257170432" TYPE="part"
NAME="nvme0n1p6" KNAME="nvme0n1p6" MAJ:MIN="259:6" FSTYPE="ntfs" MOUNTPOINT="" LABEL="DELLSUPPORT" UUID="AA88E9D888E9A2D5" PARTUUID="3c84360b-7732-4344-b39c-f92ca7ef1db3" RO="0" SIZE="1212153856" TYPE="part"
NAME="nvme0n1p7" KNAME="nvme0n1p7" MAJ:MIN="259:7" FSTYPE="ext4" MOUNTPOINT="/mnt/ubuntu" LABEL="" UUID="b305522d-faa7-49fc-a7d1-70dae48bcc3e" PARTUUID="02cf676b-12b6-4510-88e3-804bf71e00f1" RO="0" SIZE="209715200000" TYPE="part"
NAME="nvme0n1p8" KNAME="nvme0n1p8" MAJ:MIN="259:8" FSTYPE="ext4" MOUNTPOINT="/" LABEL="" UUID="f5a69346-5cc1-4d1f-b2d5-b17149fdac09" PARTUUID="f4e91901-1892-44d2-b45f-6ae9f26227f4" RO="0" SIZE="209715200000" TYPE="part"
"##;

#[test]
fn read_output_ok1() -> () {
    parse_lsblk_line(LSBLK_OUTPUT1).unwrap();
}

#[test]
fn lsblk_output_of_several_lines_reads_as_one_list() {
    let r = parse_lsblk_line("NAME=\"sda\" TYPE=\"disk\"\nNAME=\"sda1\" TYPE=\"part\"\n").unwrap();
    assert_eq!(r.get_str("NAME").unwrap(), "sda1");
    assert_eq!(r.get_str("TYPE").unwrap(), "part");
}

#[test]
fn lsblk_line_parses_into_parameters() {
    let r = parse_lsblk_line(r#"NAME="sda1" MOUNTPOINT="/mnt/my disk" LABEL="""#).unwrap();
    assert_eq!(r.get_str("NAME").unwrap(), "sda1");
    assert_eq!(r.get_opt_pathbuf("MOUNTPOINT"), Some(String::from("/mnt/my disk")));
    assert_eq!(r.get_opt_str("LABEL"), None);
}

#[test]
fn lsblk_line_of_wrong_shape_is_refused() {
    assert_eq!(parse_lsblk_line("NAME=sda").unwrap_err().kind, MigErrorKind::Displayed);
    assert_eq!(parse_lsblk_line("NAME=\"sda\" x").unwrap_err().kind, MigErrorKind::Displayed);
    assert_eq!(parse_lsblk_line("NAME=\"sda\"x").unwrap_err().kind, MigErrorKind::Displayed);
    assert_eq!(parse_lsblk_line("").unwrap_err().kind, MigErrorKind::Displayed);
}

#[test]
fn result_params_last_value_wins() {
    let r = params(&[("A", "1"), ("A", "2"), ("N", "x7"), ("S", "65536")]);
    assert_eq!(r.get_str("A").unwrap(), "2");
    assert_eq!(r.get_u64("A").unwrap(), 2);
    assert_eq!(r.get_str("B").unwrap_err().kind, MigErrorKind::NotFound);
    assert_eq!(r.get_u64("N").unwrap_err().kind, MigErrorKind::Upstream);
    assert_eq!(r.get_opt_u64("B").unwrap(), None);
    assert_eq!(r.get_u16("S").unwrap_err().kind, MigErrorKind::Upstream);
    assert_eq!(r.get_u16("B").unwrap_err().kind, MigErrorKind::NotFound);
}

#[test]
fn supported_major_numbers() {
    assert!(supported_maj_min("8:0"));
    assert!(supported_maj_min("179:0"));
    assert!(!supported_maj_min("7:0"));
    assert!(!supported_maj_min("8:"));
    assert!(!supported_maj_min("8"));
}

#[test]
fn partition_from_lsblk_and_udev() {
    let p = Partition::new(&part("sda1", "/", "u1", "root"), &udev("p1", "1")).unwrap();
    assert_eq!(p.get_path(), "/dev/sda1");
    assert_eq!(p.index, 1);
    assert!(!p.ro);
    assert_eq!(p.partuuid, Some(String::from("p1")));
    let e = Partition::new(&part("sda1", "/", "u1", "root"), &none()).unwrap_err();
    assert_eq!(e.kind, MigErrorKind::NotFound);
    let e = Partition::from_path(&vec![], &udev("p1", "1")).unwrap_err();
    assert_eq!(e.kind, MigErrorKind::InvParam);
}

fn sample() -> LsblkInfo {
    let ls = vec![
        disk("sda", "8:0"),
        part("sda1", "/boot", "u1", "boot"),
        part("sda2", "/", "u2", "root"),
        disk("loop0", "7:0"),
        disk("sdb", "8:16"),
        part("sdb1", "/boot/efi", "u3", "efi"),
    ];
    let us = vec![none(), udev("p1", "1"), udev("p2", "2"), none(), none(), udev("p3", "1")];
    LsblkInfo::new(&ls, &us).unwrap()
}

#[test]
fn lsblk_info_keeps_supported_disks() {
    let info = sample();
    let names: Vec<&str> = info.get_blk_devices().iter().map(|d| d.name.as_str()).collect();
    assert_eq!(names, vec!["sda", "sdb"]);
    assert_eq!(info.get_blk_devices()[0].children.as_ref().unwrap().len(), 2);
}

#[test]
fn lsblk_info_lookups() {
    let info = sample();
    let (d, p) = info.get_devices_for_partuuid("p2").unwrap();
    assert_eq!((d.name.as_str(), p.name.as_str()), ("sda", "sda2"));
    let (_, p) = info.get_devices_for_uuid("u3").unwrap();
    assert_eq!(p.name, "sdb1");
    let (_, p) = info.get_devices_for_label("boot").unwrap();
    assert_eq!(p.name, "sda1");
    assert_eq!(info.get_devices_for_label("nope").unwrap_err().kind, MigErrorKind::NotFound);
    let (d, p) = info.get_devices_for_partition("/dev/sdb1").unwrap();
    assert_eq!((d.name.as_str(), p.name.as_str()), ("sdb", "sdb1"));
    assert_eq!(info.get_devices_for_partition("/").unwrap_err().kind, MigErrorKind::InvParam);
}

#[test]
fn lsblk_info_path_lookup_prefers_exact_then_longest_mount() {
    let info = sample();
    let (_, p) = info.get_devices_for_path("/boot").unwrap();
    assert_eq!(p.name, "sda1");
    // "/" and "/boot" both lead "/boot/grub": the longest mountpoint wins
    let (_, p) = info.get_devices_for_path("/boot/grub").unwrap();
    assert_eq!(p.name, "sda1");
    let (_, p) = info.get_devices_for_path("/home").unwrap();
    assert_eq!(p.name, "sda2");
}

#[test]
fn lsblk_info_refuses_partition_before_disk() {
    let e = LsblkInfo::new(&vec![part("sda1", "/", "u", "l")], &vec![udev("p", "1")]).unwrap_err();
    assert_eq!(e.kind, MigErrorKind::InvParam);
}

#[test]
fn block_device_from_device_path() {
    let ls = vec![disk("sda", "8:0"), part("sda1", "/", "u1", "root")];
    let us = vec![params(&[("DEVTYPE", "disk")]), udev("p1", "1")];
    let d = BlockDevice::from_device_path(&ls, &us).unwrap();
    assert_eq!(d.get_path(), "/dev/sda");
    assert_eq!(d.get_devinfo_from_part_name("sda1").unwrap().index, 1);
    assert_eq!(d.get_devinfo_from_part_name("sda9").unwrap_err().kind, MigErrorKind::NotFound);
    let d = BlockDevice::new(&disk("sdc", "8:32")).unwrap();
    assert_eq!(d.size, 1000);
}

#[test]
fn lsblk_output_line_by_line() {
    let rs = lsblk_results(true, "NAME=\"sda\" TYPE=\"disk\"\nNAME=\"sda1\" TYPE=\"part\"").unwrap();
    assert_eq!(rs.len(), 2);
    assert_eq!(rs[0].get_str("NAME").unwrap(), "sda");
    assert_eq!(rs[1].get_str("TYPE").unwrap(), "part");
    assert!(lsblk_results(true, "").unwrap().is_empty());
    assert_eq!(lsblk_results(true, "NAME=\"sda\"\nbad").unwrap_err().kind, MigErrorKind::Displayed);
    assert_eq!(lsblk_results(false, "NAME=\"sda\"").unwrap_err().kind, MigErrorKind::Upstream);
}

#[test]
fn udevadm_properties() {
    let p = udev_params(true, "DEVTYPE=partition\nID_PART_ENTRY_NUMBER=1\nX=a=b\nEMPTY=").unwrap();
    assert_eq!(p.get_str("DEVTYPE").unwrap(), "partition");
    assert_eq!(p.get_u64("ID_PART_ENTRY_NUMBER").unwrap(), 1);
    assert_eq!(p.get_str("X").unwrap(), "a=b");
    assert_eq!(p.get_str("EMPTY").unwrap(), "");
    assert_eq!(udev_params(true, "=x").unwrap_err().kind, MigErrorKind::Displayed);
    assert_eq!(udev_params(true, "A=1\nnovalue").unwrap_err().kind, MigErrorKind::Displayed);
    assert_eq!(udev_params(false, "A=1").unwrap_err().kind, MigErrorKind::Upstream);
}

#[test]
fn printed_parameters_read_back() {
    // a line printed from (NAME, sda1), (LABEL, ""), (MOUNTPOINT, /mnt/a b), (K:X, 1) reads back
    // as the parameters with a value
    let r = parse_lsblk_line(r#"NAME="sda1" LABEL="" MOUNTPOINT="/mnt/a b" K:X="1""#).unwrap();
    assert_eq!(r.get_str("NAME").unwrap(), "sda1");
    assert_eq!(r.get_opt_str("LABEL"), None);
    assert_eq!(r.get_str("MOUNTPOINT").unwrap(), "/mnt/a b");
    assert_eq!(r.get_str("K:X").unwrap(), "1");
}
