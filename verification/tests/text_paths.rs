use balena_migrate::edit::{cat, contains, kv_replace_all, kv_replace_first, leads_with_exec, replace_all, string_of, trim_end_len};
use balena_migrate::num::{parse_u16, parse_u64, u64_to_string};
use balena_migrate::paths::{extension, file_name, join, path_equal, path_has_prefix};
use balena_migrate::boot_manager::{RaspiBootManager, UBootManager};
use balena_migrate::text::{chars_of, lines, split_ws, to_string};

fn cs(s: &str) -> Vec<char> {
    s.chars().collect()
}

#[test]
fn lines_split_like_str_lines() {
    assert_eq!(lines("a\r\nb\n\nc"), vec!["a", "b", "", "c"]);
    assert_eq!(lines("a\n"), vec!["a"]);
    assert_eq!(lines(""), Vec::<String>::new());
    assert_eq!(lines("x\r"), vec!["x\r"]);
}

#[test]
fn words_split_on_unicode_whitespace() {
    assert_eq!(split_ws("  a\tb\u{3000}c  "), vec!["a", "b", "c"]);
    assert_eq!(split_ws("   "), Vec::<String>::new());
}

#[test]
fn string_wrappers_change_their_argument() {
    // appending characters and slices, and comparing slices, through the functions that do it
    assert_eq!(to_string("abäc"), "abäc");
    assert_eq!(u64_to_string(907), "907");
    assert_eq!(RaspiBootManager::backup_name("cmdline.txt", 42), "cmdline.txt-42");
    assert!(UBootManager::fs_type_supported(Some("vfat")));
    assert!(!UBootManager::fs_type_supported(Some("vfa")));
    assert!(!UBootManager::fs_type_supported(Some("vfat ")));
    assert_eq!(chars_of("äb"), vec!['ä', 'b']);
}

#[test]
fn decimal_numbers_parse_and_render() {
    assert_eq!(parse_u64("+5"), Some(5));
    assert_eq!(parse_u64("18446744073709551615"), Some(u64::MAX));
    assert_eq!(parse_u64("18446744073709551616"), None);
    assert_eq!(parse_u64(""), None);
    assert_eq!(parse_u64("-1"), None);
    assert_eq!(parse_u16("65536"), None);
    assert_eq!(parse_u16("65535"), Some(65535));
    assert_eq!(u64_to_string(0), "0");
    assert_eq!(u64_to_string(1234567890), "1234567890");
}

#[test]
fn paths_compare_by_components() {
    assert!(path_equal(&cs("/a//b/"), &cs("/a/b")));
    assert!(path_equal(&cs("/a/./b"), &cs("/a/b")));
    assert!(!path_equal(&cs("/a/b"), &cs("a/b")));
    assert!(path_has_prefix(&cs("/boot/efi"), &cs("/boot")));
    assert!(!path_has_prefix(&cs("/bootx"), &cs("/boot")));
    assert!(path_has_prefix(&cs("/anything"), &cs("/")));
}

#[test]
fn file_names_and_extensions() {
    assert_eq!(file_name(&cs("/dev/sda1")), Some(cs("sda1")));
    assert_eq!(file_name(&cs("/dev/..")), None);
    assert_eq!(file_name(&cs("/")), None);
    assert_eq!(extension(&cs("/boot/bcm2710-rpi-3-b.DTB")), Some(cs("DTB")));
    assert_eq!(extension(&cs("/boot/.dtb")), None);
    assert_eq!(extension(&cs("/boot/foo.")), Some(cs("")));
    assert_eq!(extension(&cs("/boot/foo")), None);
}

#[test]
fn paths_join_like_path_join() {
    assert_eq!(join("/dev", "sda"), "/dev/sda");
    assert_eq!(join("/dev/", "sda"), "/dev/sda");
    assert_eq!(join("/mnt", "/boot"), "/boot");
    assert_eq!(join("", "a"), "a");
}

#[test]
fn replace_all_replaces_left_to_right() {
    assert_eq!(replace_all("aaa", "aa", "b"), "ba");
    assert_eq!(replace_all("x__A__y__A__", "__A__", "1"), "x1y1");
    assert_eq!(replace_all("none", "zz", "q"), "none");
}

#[test]
fn trim_end_and_search() {
    let v = cs("abc \t\n");
    assert_eq!(trim_end_len(&v), 3);
    assert!(contains(&cs("hello world"), &cs("o w")));
    assert!(!contains(&cs("hello"), &cs("hello!")));
    assert!(contains(&cs("x"), &cs("")));
    assert_eq!(string_of(&cat(&cs("ab"), &cs("cd"))), "abcd");
}

#[test]
fn kernel_parameters_are_replaced() {
    let r = kv_replace_first(&cs("a root=/dev/sda2  b"), &cs("root="), &cs("root=X "));
    assert_eq!(string_of(&r), "a root=X b");
    let r = kv_replace_first(&cs("root= a"), &cs("root="), &cs("root=X "));
    assert_eq!(string_of(&r), "root= a");
    let r = kv_replace_all(&cs("console=ttyS0 a console=tty1"), &cs("console="), &cs(" "));
    assert_eq!(string_of(&r), " a  ");
    assert!(leads_with_exec(&cs("  kernel=x"), &cs("kernel")));
    assert!(!leads_with_exec(&cs("#kernel=x"), &cs("kernel")));
}

#[test]
fn trimming_twice_trims_once() {
    let v = cs("value  \r\n ");
    let n = trim_end_len(&v);
    assert_eq!(n, 5);
    assert_eq!(trim_end_len(&v[..n]), n);
}
