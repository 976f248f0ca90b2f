use balena_migrate::defs::{FileType, MigErrorKind};
use balena_migrate::file_type::{expect_type, is_file_type};

fn is(t: FileType, s: &str) -> bool {
    is_file_type(t, true, s).unwrap()
}

#[test]
fn kernel_descriptions() {
    assert!(is(FileType::KernelARMHF, "Linux kernel ARM boot executable zImage (little-endian)"));
    assert!(is(FileType::KernelAMD64, "Linux kernel x86 boot executable bzImage, version 4.15.0-43-generic"));
    assert!(is(FileType::KernelAMD64, "x86 boot sector"));
    assert!(is(FileType::KernelAARCH64, "MS-DOS executable"));
    assert!(is(FileType::KernelI386, "Linux kernel i386 boot executable bzImage, version 2.6"));
    assert!(!is(FileType::KernelARMHF, "Linux kernel x86 boot executable bzImage"));
    assert!(!is(FileType::KernelARMHF, "Linux kernel ARM boot executable zImage\nsecond line"));
}

#[test]
fn image_descriptions() {
    let gz = "DOS/MBR boot sector; partition 1 : ID=0xc, active (gzip compressed data, was \"resin.img\", from Unix)";
    assert!(is(FileType::GZipOSImage, gz));
    assert!(!is(FileType::OSImage, gz));
    assert!(is(FileType::OSImage, "DOS/MBR boot sector"));
    assert!(is(FileType::OSImage, "x86 boot sector"));
    assert!(!is(FileType::OSImage, "x86 boot sector, code offset 0x63"));
    assert!(!is(FileType::GZipOSImage, "DOS/MBR boot sector; partition 1"));
    assert!(!is(FileType::GZipOSImage, "DOS/MBR boot sector (gzip compressed data)x"));
    assert!(is(FileType::GZipOSImage, "x86 boot sector(gzip compressed data)"));
    assert!(is(FileType::InitRD, "ASCII cpio archive (SVR4 with no CRC) (gzip compressed data, from Unix)"));
    assert!(is(FileType::GZipTar, "POSIX tar archive (GNU) (gzip compressed data, last modified: Mon Jul  1 2019)"));
    assert!(!is(FileType::GZipTar, "POSIX tar archive (GNU)"));
}

#[test]
fn text_descriptions() {
    assert!(is(FileType::Json, "JSON data"));
    assert!(is(FileType::Json, "ASCII text, with very long lines"));
    assert!(is(FileType::Text, "ASCII text"));
    assert!(!is(FileType::Text, "UTF-8 Unicode text"));
    assert!(is(FileType::DTB, "Device Tree Blob version 17, size=36012"));
    assert!(is(FileType::DTB, "data"));
}

#[test]
fn file_type_errors() {
    assert_eq!(is_file_type(FileType::Text, false, "ASCII text").unwrap_err().kind, MigErrorKind::InvParam);
    assert_eq!(is_file_type(FileType::Text, true, "").unwrap_err().kind, MigErrorKind::InvParam);
    assert!(expect_type(FileType::Text, true, "ASCII text").is_ok());
    assert_eq!(expect_type(FileType::Json, true, "data").unwrap_err().kind, MigErrorKind::Displayed);
    assert_eq!(expect_type(FileType::Json, false, "data").unwrap_err().kind, MigErrorKind::InvParam);
}
