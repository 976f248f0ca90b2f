use balena_migrate::defs::MigErrorKind;
use balena_migrate::migrator::{msw_stage1_plan, MSWMigrator, MigMode, STAGE1_MEM_THRESHOLD};
use balena_migrate::stage2::PathType;

#[test]
fn init_mswin() {}

#[test]
fn msw_migrate_requires_admin() {
    let r = MSWMigrator::migrate(Ok(false), MigMode::Immediate);
    assert_eq!(r.unwrap_err().kind, MigErrorKind::Displayed);
    assert_eq!(MSWMigrator::migrate(Ok(true), MigMode::Immediate).unwrap(), true);
    assert_eq!(MSWMigrator::migrate(Ok(true), MigMode::Pretend).unwrap(), false);
}

#[test]
fn msw_work_dir_on_the_boot_device() {
    let (work, total, warn) =
        msw_stage1_plan("/dev/sda1", "/dev/sda1", "/mig", "/dev/disk/by-uuid/1", "/", "ntfs", &[100, 200], 1 << 30)
            .unwrap();
    assert!(matches!(work, PathType::Path(p) if p == "/mig"));
    assert_eq!(total, 300);
    assert!(!warn);
}

#[test]
fn msw_work_dir_on_another_device() {
    let (work, total, warn) = msw_stage1_plan(
        "/dev/sdb2",
        "/dev/sda1",
        "/media/usb/balena/work",
        "/dev/disk/by-uuid/77",
        "/media/usb",
        "vfat",
        &[10, 20, 30],
        STAGE1_MEM_THRESHOLD + 59,
    )
    .unwrap();
    match work {
        PathType::Mount { device, fstype, path } => {
            assert_eq!(device, "/dev/disk/by-uuid/77");
            assert_eq!(fstype, "vfat");
            assert_eq!(path, "balena/work");
        }
        _ => panic!("the work directory must be mounted"),
    }
    assert_eq!(total, 60);
    assert!(warn);
    // more to copy than there is memory: the warning is due
    let (_, _, warn) = msw_stage1_plan("/dev/a", "/dev/a", "/w", "", "/", "", &[100], 50).unwrap();
    assert!(warn);
    // a work path outside the mountpoint of its device
    let e = msw_stage1_plan("/dev/sdb2", "/dev/sda1", "/other/work", "", "/media/usb", "vfat", &[], 0).unwrap_err();
    assert_eq!(e.kind, balena_migrate::defs::MigErrorKind::Upstream);
}
