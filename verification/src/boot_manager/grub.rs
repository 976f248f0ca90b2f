use vstd::prelude::*;
use crate::boot_manager::GrubBootManager;
use crate::defs::{MigError, MigErrorKind, MIG_INITRD_NAME, MIG_KERNEL_NAME};
use crate::edit::{replace_all, replaced};
use crate::linux_common::{ascii_lower, lower_eq};
use crate::lsblk_info::parse::{lemma_run_ws, run_nonws, run_nonws_exec, run_ws, run_ws_exec};
use crate::num::{all_ascii_digits, decimal, digits_value, u64_to_string};
use crate::paths::{join, path_eq, path_equal, path_join};
use crate::text::{
    chars_of, is_ascii_digit, lines, push_str, split_ws, starts_at, starts_at_exec, str_eq, string_from_chars,
    strings_view, text_lines, text_words, to_string,
};

verus! {

/// The grub menu entry that boots the migration environment.
pub const GRUB_CFG_TEMPLATE: &'static str = r##"
#!/bin/sh
exec tail -n +3 $0
# This file provides an easy way to add custom menu entries.  Simply type the
# menu entries you want to add after this comment.  Be careful not to change
# the 'exec tail' line above.

menuentry "balena-migrate" {
  insmod gzio
  insmod __PART_MOD__
  insmod __FSTYPE_MOD__

  __ROOT_CMD__
  linux __LINUX__
  initrd  __INITRD_NAME__
}
"##;

/// The partition table types of a disk.
#[derive(Debug, Clone, Copy, PartialEq, Eq, Structural)]
pub enum LabelType {
    GPT,
    DOS,
    OTHER,
}

/// The label type that a line of `fdisk -l` states (the pattern `^Disklabel type:\s*(\S+)$`).
pub open spec fn disk_label_of(line: Seq<char>) -> Option<Seq<char>> {
    let k = "Disklabel type:"@.len() as int;
    let v = run_ws(line, k);
    if starts_at(line, 0, "Disklabel type:"@) && v < line.len() && run_nonws(line, v) == line.len() {
        Some(line.skip(v))
    } else {
        None
    }
}

/// The label type stated by the first line of `lines` that states one.
pub open spec fn first_disk_label(lines: Seq<Seq<char>>) -> Option<Seq<char>>
    decreases lines.len(),
{
    if lines.len() == 0 {
        None
    } else {
        match disk_label_of(lines[0]) {
            Some(l) => Some(l),
            None => first_disk_label(lines.skip(1)),
        }
    }
}

/// The label type that a name stands for.
pub open spec fn label_type_of(name: Seq<char>) -> LabelType {
    if name == "gpt"@ {
        LabelType::GPT
    } else if name == "dos"@ {
        LabelType::DOS
    } else {
        LabelType::OTHER
    }
}

impl LabelType {
    /// The label type of a disk from the result of `fdisk -l` (its success and its output).
    pub fn from_fdisk_output(success: bool, stdout: &str) -> (r: Result<LabelType, MigError>)
        ensures
            !success ==> r == Err::<LabelType, MigError>(MigError { kind: MigErrorKind::Upstream }),
            success ==> match first_disk_label(text_lines(stdout@)) {
                Some(l) => r == Ok::<LabelType, MigError>(label_type_of(l)),
                None => r == Err::<LabelType, MigError>(MigError { kind: MigErrorKind::Upstream }),
            },
    {
        if !success {
            return Err(MigError::from_kind(MigErrorKind::Upstream));
        }
        let ls = lines(stdout);
        let key = chars_of("Disklabel type:");
        let mut i: usize = 0;
        assert(strings_view(ls@).skip(0) =~= strings_view(ls@));
        while i < ls.len()
            invariant
                success,
                i <= ls@.len(),
                key@ == "Disklabel type:"@,
                strings_view(ls@) == text_lines(stdout@),
                first_disk_label(strings_view(ls@).skip(i as int)) == first_disk_label(text_lines(
                    stdout@,
                )),
            decreases ls.len() - i,
        {
            let line = chars_of(ls[i].as_str());
            assert(strings_view(ls@).skip(i as int)[0] == line@);
            assert(strings_view(ls@).skip(i as int).skip(1) =~= strings_view(ls@).skip(i + 1));
            if starts_at_exec(line.as_slice(), 0, key.as_slice()) {
                let v = run_ws_exec(line.as_slice(), key.len());
                if v < line.len() && run_nonws_exec(line.as_slice(), v) == line.len() {
                    let name = string_from_chars(line.as_slice(), v, line.len());
                    assert(line@.subrange(v as int, line@.len() as int) =~= line@.skip(v as int));
                    if str_eq(name.as_str(), "gpt") {
                        return Ok(LabelType::GPT);
                    } else if str_eq(name.as_str(), "dos") {
                        return Ok(LabelType::DOS);
                    } else {
                        return Ok(LabelType::OTHER);
                    }
                }
            }
            i = i + 1;
        }
        Err(MigError::from_kind(MigErrorKind::Upstream))
    }
}

/// A kernel command line word that the migration boot drops: a boot image, `debug` (in any case)
/// or a root file system type.
pub open spec fn dropped_word(w: Seq<char>) -> bool {
    (w.len() >= 11 && lower_eq(w.take(11), "boot_image="@)) || lower_eq(w, "debug"@) || (w.len()
        >= 11 && w.take(11) == "rootfstype="@)
}

/// The words of the running kernel's command line that the migration boot keeps, each after a
/// space.
pub open spec fn kept_words(words: Seq<Seq<char>>) -> Seq<char>
    decreases words.len(),
{
    if words.len() == 0 {
        Seq::empty()
    } else if dropped_word(words.last()) {
        kept_words(words.drop_last())
    } else {
        kept_words(words.drop_last()) + " "@ + words.last()
    }
}

/// The `linux` line of the menu entry: the kernel under the grub boot directory, the kept words
/// of the running command line, the root file system type and `debug`.
pub open spec fn grub_linux(grub_boot: Seq<char>, cmdline: Seq<char>, root_fs_type: Seq<char>) -> Seq<
    char,
> {
    path_join(grub_boot, MIG_KERNEL_NAME@) + kept_words(text_words(cmdline)) + " rootfstype="@
        + root_fs_type + " debug"@
}

/// The name grub gives a partition table type.
pub open spec fn part_type_of(label: LabelType) -> Option<Seq<char>> {
    match label {
        LabelType::GPT => Some("gpt"@),
        LabelType::DOS => Some("msdos"@),
        LabelType::OTHER => None,
    }
}

/// The grub module of a partition table type: `part_` and the type's name.
pub open spec fn part_mod_of(label: LabelType) -> Option<Seq<char>> {
    match part_type_of(label) {
        Some(t) => Some("part_"@ + t),
        None => None,
    }
}

/// The grub module that reads a file system type.
pub open spec fn fstype_mod_of(fs_type: Seq<char>) -> Option<Seq<char>> {
    if fs_type == "ext2"@ || fs_type == "ext3"@ || fs_type == "ext4"@ {
        Some("ext2"@)
    } else if fs_type == "vfat"@ {
        Some("fat"@)
    } else {
        None
    }
}

/// Grub reads the ext family (ext2, ext3 and ext4) with its `ext2` module and FAT with its
/// `fat` module; it has no module for any other file system type of a boot partition.
pub proof fn lemma_fstype_mod(fs_type: Seq<char>)
    ensures
        seq!["ext2"@, "ext3"@, "ext4"@].contains(fs_type) ==> fstype_mod_of(fs_type) == Some("ext2"@),
        fs_type == "vfat"@ ==> fstype_mod_of(fs_type) == Some("fat"@),
        !seq!["ext2"@, "ext3"@, "ext4"@, "vfat"@].contains(fs_type) ==> fstype_mod_of(fs_type) is None,
{
    reveal_strlit("ext2");
    reveal_strlit("ext3");
    reveal_strlit("ext4");
    reveal_strlit("vfat");
    let e = seq!["ext2"@, "ext3"@, "ext4"@];
    if e.contains(fs_type) {
        let k = choose|k: int| 0 <= k < e.len() && e[k] == fs_type;
        assert(e[0] == "ext2"@ && e[1] == "ext3"@ && e[2] == "ext4"@);
        assert(k == 0 || k == 1 || k == 2);
    }
    let a = seq!["ext2"@, "ext3"@, "ext4"@, "vfat"@];
    if fs_type == "ext2"@ {
        assert(a[0] == fs_type);
    } else if fs_type == "ext3"@ {
        assert(a[1] == fs_type);
    } else if fs_type == "ext4"@ {
        assert(a[2] == fs_type);
    } else if fs_type == "vfat"@ {
        assert(a[3] == fs_type);
    }
    if fs_type == "vfat"@ {
        assert(fs_type[0] == 'v');
        assert("ext2"@[0] == 'e' && "ext3"@[0] == 'e' && "ext4"@[0] == 'e');
    }
}

/// The grub command that finds the boot partition: by file system UUID, or by drive, table type
/// and partition index.
pub open spec fn grub_root_cmd(uuid: Option<Seq<char>>, drive: Seq<char>, part_type: Seq<char>, index: u16) -> Seq<
    char,
> {
    match uuid {
        Some(u) => "search --no-floppy --fs-uuid --set=root "@ + u,
        None => "search --no-floppy --fs-uuid --set=root "@ + drive + ","@ + part_type + decimal(
            index as nat,
        ),
    }
}

/// The menu entry file with its place holders filled in.
pub open spec fn grub_cfg(
    part_mod: Seq<char>,
    fstype_mod: Seq<char>,
    root_cmd: Seq<char>,
    linux: Seq<char>,
    initrd: Seq<char>,
) -> Seq<char> {
    let t1 = replaced(GRUB_CFG_TEMPLATE@, "__PART_MOD__"@, part_mod);
    let t2 = replaced(t1, "__FSTYPE_MOD__"@, fstype_mod);
    let t3 = replaced(t2, "__ROOT_CMD__"@, root_cmd);
    let t4 = replaced(t3, "__LINUX__"@, linux);
    replaced(t4, "__INITRD_NAME__"@, initrd)
}

fn starts_lower(w: &[char], p: &str) -> (r: bool)
    ensures
        r == (w@.len() >= p@.len() && lower_eq(w@.take(p@.len() as int), p@)),
{
    let pv = chars_of(p);
    if w.len() < pv.len() {
        return false;
    }
    let mut i: usize = 0;
    while i < pv.len()
        invariant
            pv@ == p@,
            pv@.len() <= w@.len(),
            i <= pv@.len(),
            forall|k: int| 0 <= k < i ==> ascii_lower(#[trigger] w@[k]) == pv@[k],
        decreases pv.len() - i,
    {
        let c = w[i];
        let l = if 'A' <= c && c <= 'Z' {
            if c == 'A' { 'a' } else if c == 'B' { 'b' } else if c == 'C' { 'c' } else if c == 'D' { 'd' }
            else if c == 'E' { 'e' } else if c == 'F' { 'f' } else if c == 'G' { 'g' } else if c == 'H' { 'h' }
            else if c == 'I' { 'i' } else if c == 'J' { 'j' } else if c == 'K' { 'k' } else if c == 'L' { 'l' }
            else if c == 'M' { 'm' } else if c == 'N' { 'n' } else if c == 'O' { 'o' } else if c == 'P' { 'p' }
            else if c == 'Q' { 'q' } else if c == 'R' { 'r' } else if c == 'S' { 's' } else if c == 'T' { 't' }
            else if c == 'U' { 'u' } else if c == 'V' { 'v' } else if c == 'W' { 'w' } else if c == 'X' { 'x' }
            else if c == 'Y' { 'y' } else { 'z' }
        } else {
            c
        };
        assert(l == ascii_lower(c));
        if l != pv[i] {
            assert(ascii_lower(w@.take(pv@.len() as int)[i as int]) != p@[i as int]);
            return false;
        }
        i = i + 1;
    }
    true
}

fn dropped_word_exec(w: &[char]) -> (r: bool)
    ensures
        r == dropped_word(w@),
{
    proof {
        reveal_strlit("boot_image=");
        reveal_strlit("debug");
        reveal_strlit("rootfstype=");
    }
    let image = starts_lower(w, "boot_image=");
    let debug = w.len() == 5 && starts_lower(w, "debug");
    let rfs = chars_of("rootfstype=");
    let fstype = starts_at_exec(w, 0, rfs.as_slice());
    proof {
        if w@.len() == 5 {
            assert(w@.take(5) =~= w@);
        }
    }
    image || debug || fstype
}

impl GrubBootManager {
    /// The grub boot directory as the menu entry sees it: `/boot` on the root partition, or the
    /// root of a boot partition mounted on `/boot`.
    pub fn grub_boot_dir(same_device: bool, boot_mountpoint: &str) -> (r: String)
        requires
            same_device || path_eq(boot_mountpoint@, "/boot"@),
        ensures
            same_device ==> r@ == "/boot"@,
            !same_device ==> r@ == "/"@,
    {
        if same_device {
            to_string("/boot")
        } else {
            to_string("/")
        }
    }

    /// Whether a boot partition mounted elsewhere than on `/boot` keeps the migration from
    /// being set up (the grub entry is only written for these two layouts).
    pub fn boot_layout_supported(same_device: bool, boot_mountpoint: &str) -> (r: bool)
        ensures
            r == (same_device || path_eq(boot_mountpoint@, "/boot"@)),
    {
        if same_device {
            return true;
        }
        let m = chars_of(boot_mountpoint);
        let b = chars_of("/boot");
        path_equal(m.as_slice(), b.as_slice())
    }

    /// The name grub gives the partition table type of the boot drive.
    pub fn part_type(label: LabelType) -> (r: Result<String, MigError>)
        ensures
            match part_type_of(label) {
                Some(t) => r matches Ok(s) && s@ == t,
                None => r == Err::<String, MigError>(MigError { kind: MigErrorKind::InvParam }),
            },
    {
        match label {
            LabelType::GPT => Ok(to_string("gpt")),
            LabelType::DOS => Ok(to_string("msdos")),
            LabelType::OTHER => Err(MigError::from_kind(MigErrorKind::InvParam)),
        }
    }

    /// The grub module for the partition table type of the boot drive.
    pub fn part_mod(label: LabelType) -> (r: Result<String, MigError>)
        ensures
            match part_mod_of(label) {
                Some(m) => r matches Ok(s) && s@ == m,
                None => r == Err::<String, MigError>(MigError { kind: MigErrorKind::InvParam }),
            },
    {
        proof {
            reveal_strlit("part_");
            reveal_strlit("gpt");
            reveal_strlit("msdos");
            reveal_strlit("part_gpt");
            reveal_strlit("part_msdos");
            assert("part_"@ + "gpt"@ =~= "part_gpt"@);
            assert("part_"@ + "msdos"@ =~= "part_msdos"@);
        }
        match label {
            LabelType::GPT => Ok(to_string("part_gpt")),
            LabelType::DOS => Ok(to_string("part_msdos")),
            LabelType::OTHER => Err(MigError::from_kind(MigErrorKind::InvParam)),
        }
    }

    /// The grub module for the file system type of the boot partition.
    pub fn fstype_mod(fs_type: &str) -> (r: Result<String, MigError>)
        ensures
            match fstype_mod_of(fs_type@) {
                Some(m) => r matches Ok(s) && s@ == m,
                None => r == Err::<String, MigError>(MigError { kind: MigErrorKind::InvParam }),
            },
    {
        if str_eq(fs_type, "ext2") || str_eq(fs_type, "ext3") || str_eq(fs_type, "ext4") {
            Ok(to_string("ext2"))
        } else if str_eq(fs_type, "vfat") {
            Ok(to_string("fat"))
        } else {
            Err(MigError::from_kind(MigErrorKind::InvParam))
        }
    }

    /// The grub command that finds the boot partition.
    pub fn root_cmd(uuid: Option<&str>, drive: &str, part_type: &str, index: u16) -> (r: String)
        ensures
            r@ == grub_root_cmd(
                match uuid {
                    Some(u) => Some(u@),
                    None => None,
                },
                drive@,
                part_type@,
                index,
            ),
    {
        let mut r = to_string("search --no-floppy --fs-uuid --set=root ");
        match uuid {
            Some(u) => {
                push_str(&mut r, u);
            },
            None => {
                push_str(&mut r, drive);
                push_str(&mut r, ",");
                push_str(&mut r, part_type);
                let n = u64_to_string(index as u64);
                push_str(&mut r, n.as_str());
            },
        }
        r
    }

    /// The `linux` line of the menu entry from the grub boot directory, the running kernel's
    /// command line and the root file system type.
    pub fn linux_line(grub_boot: &str, cmdline: &str, root_fs_type: &str) -> (r: String)
        ensures
            r@ == grub_linux(grub_boot@, cmdline@, root_fs_type@),
    {
        let mut r = join(grub_boot, MIG_KERNEL_NAME);
        let ghost head = r@;
        let words = split_ws(cmdline);
        let mut i: usize = 0;
        while i < words.len()
            invariant
                i <= words@.len(),
                strings_view(words@) == text_words(cmdline@),
                r@ == head + kept_words(strings_view(words@).take(i as int)),
            decreases words.len() - i,
        {
            let w = chars_of(words[i].as_str());
            let ghost before = r@;
            proof {
                assert(strings_view(words@)[i as int] == w@);
                assert(strings_view(words@).take(i + 1).drop_last() =~= strings_view(words@).take(
                    i as int,
                ));
            }
            if !dropped_word_exec(w.as_slice()) {
                push_str(&mut r, " ");
                push_str(&mut r, words[i].as_str());
                assert(before + " "@ + w@ =~= head + (kept_words(strings_view(words@).take(i as int))
                    + " "@ + w@));
            }
            i = i + 1;
        }
        assert(strings_view(words@).take(words@.len() as int) =~= strings_view(words@));
        push_str(&mut r, " rootfstype=");
        push_str(&mut r, root_fs_type);
        push_str(&mut r, " debug");
        r
    }

    /// The menu entry file.
    pub fn grub_cfg_text(part_mod: &str, fstype_mod: &str, root_cmd: &str, linux: &str, initrd: &str) -> (r:
        String)
        ensures
            r@ == grub_cfg(part_mod@, fstype_mod@, root_cmd@, linux@, initrd@),
    {
        proof {
            reveal_strlit("__PART_MOD__");
            reveal_strlit("__FSTYPE_MOD__");
            reveal_strlit("__ROOT_CMD__");
            reveal_strlit("__LINUX__");
            reveal_strlit("__INITRD_NAME__");
        }
        let t = replace_all(GRUB_CFG_TEMPLATE, "__PART_MOD__", part_mod);
        let t = replace_all(t.as_str(), "__FSTYPE_MOD__", fstype_mod);
        let t = replace_all(t.as_str(), "__ROOT_CMD__", root_cmd);
        let t = replace_all(t.as_str(), "__LINUX__", linux);
        replace_all(t.as_str(), "__INITRD_NAME__", initrd)
    }

    /// The initramfs path of the menu entry.
    pub fn initrd_path(grub_boot: &str) -> (r: String)
        ensures
            r@ == path_join(grub_boot@, MIG_INITRD_NAME@),
    {
        join(grub_boot, MIG_INITRD_NAME)
    }

    /// Whether the boot directory has room for the migration kernel and initramfs that are not
    /// there yet.
    pub fn boot_space_ok(
        kernel_present: bool,
        kernel_size: u64,
        initrd_present: bool,
        initrd_size: u64,
        fs_free: u64,
    ) -> (r: bool)
        requires
            (if kernel_present { 0 } else { kernel_size as int }) + (if initrd_present {
                0
            } else {
                initrd_size as int
            }) <= u64::MAX,
        ensures
            r == !(fs_free < (if kernel_present { 0 } else { kernel_size as int }) + (
            if initrd_present {
                0
            } else {
                initrd_size as int
            })),
    {
        let k = if kernel_present { 0 } else { kernel_size };
        let i = if initrd_present { 0 } else { initrd_size };
        !(fs_free < k + i)
    }

    /// Whether a grub major version is supported: it must be a decimal number of at least 2.
    pub fn version_supported(major: &str) -> (r: bool)
        ensures
            r == (major@.len() > 0 && all_ascii_digits(major@) && digits_value(major@) >= 2),
    {
        let v = chars_of(major);
        if v.len() == 0 {
            return false;
        }
        let mut big = false;
        let mut small: u32 = 0;
        let mut i: usize = 0;
        while i < v.len()
            invariant
                v@ == major@,
                i <= v@.len(),
                forall|k: int| 0 <= k < i ==> is_ascii_digit(#[trigger] v@[k]),
                big ==> digits_value(v@.take(i as int)) >= 2,
                !big ==> digits_value(v@.take(i as int)) == small && small < 2,
            decreases v.len() - i,
        {
            let c = v[i];
            if !('0' <= c && c <= '9') {
                assert(!all_ascii_digits(major@)) by {
                    assert(!is_ascii_digit(major@[i as int]));
                }
                return false;
            }
            assert(v@.take(i + 1).drop_last() =~= v@.take(i as int));
            assert(v@.take(i + 1).last() == c);
            let d: u32 = (c as u32) - 48;
            if !big {
                let n = small * 10 + d;
                if n >= 2 {
                    big = true;
                } else {
                    small = n;
                }
            }
            i = i + 1;
        }
        assert(v@.take(v@.len() as int) =~= v@);
        big
    }
}


// The version that `grub-install --version` or `update-grub --version` reports is read as the
// pattern `^.*\s+\(GRUB\)\s+([0-9]+)\.([0-9]+)[^0-9].*$` reads it: the text before the
// whitespace that precedes `(GRUB)` has no line feed, the major and minor numbers are runs of
// ASCII digits followed by some other character, and the rest after that has no line feed.
// Where several places fit, the last one counts.

/// End of the run of ASCII digits that starts at `i`.
pub open spec fn run_dec(s: Seq<char>, i: int) -> int
    decreases s.len() - i,
{
    if i < 0 || i >= s.len() || !is_ascii_digit(s[i]) {
        i
    } else {
        run_dec(s, i + 1)
    }
}

/// `s` holds no line feed from `i` on.
pub open spec fn no_newline_after(s: Seq<char>, i: int) -> bool {
    forall|k: int| i <= k < s.len() ==> s[k] != '\n'
}

/// Position of the first line feed of `s` at or after `i`, or the length of `s`.
pub open spec fn first_newline(s: Seq<char>, i: int) -> int
    decreases s.len() - i,
{
    if i < 0 || i >= s.len() || s[i] == '\n' {
        i
    } else {
        first_newline(s, i + 1)
    }
}

/// The major and minor version when the whitespace before `(GRUB)` starts at `p`.
pub open spec fn grub_version_at(s: Seq<char>, p: int) -> Option<(Seq<char>, Seq<char>)> {
    let q = run_ws(s, p);
    let r = run_ws(s, q + 6);
    let e1 = run_dec(s, r);
    let e2 = run_dec(s, e1 + 1);
    if 0 <= p && q > p && starts_at(s, q, "(GRUB)"@) && r > q + 6 && e1 > r && e1 < s.len() && s[e1]
        == '.' && e2 > e1 + 1 && e2 < s.len() && no_newline_after(s, e2 + 1) {
        Some((s.subrange(r, e1), s.subrange(e1 + 1, e2)))
    } else {
        None
    }
}

/// The version found at the last start at or before `p`.
pub open spec fn last_grub_version(s: Seq<char>, p: int) -> Option<(Seq<char>, Seq<char>)>
    decreases p + 1,
{
    if p < 0 {
        None
    } else {
        match grub_version_at(s, p) {
            Some(v) => Some(v),
            None => last_grub_version(s, p - 1),
        }
    }
}

/// The major and minor version stated by a grub version text.
pub open spec fn grub_version_of(s: Seq<char>) -> Option<(Seq<char>, Seq<char>)> {
    last_grub_version(s, first_newline(s, 0))
}

proof fn lemma_run_dec(s: Seq<char>, i: int)
    requires
        0 <= i <= s.len(),
    ensures
        i <= run_dec(s, i) <= s.len(),
    decreases s.len() - i,
{
    if i < s.len() && is_ascii_digit(s[i]) {
        lemma_run_dec(s, i + 1);
    }
}

proof fn lemma_first_newline(s: Seq<char>, i: int)
    requires
        0 <= i <= s.len(),
    ensures
        i <= first_newline(s, i) <= s.len(),
    decreases s.len() - i,
{
    if i < s.len() && s[i] != '\n' {
        lemma_first_newline(s, i + 1);
    }
}

fn run_dec_exec(v: &[char], i: usize) -> (r: usize)
    requires
        i <= v@.len(),
    ensures
        r == run_dec(v@, i as int),
        i <= r <= v@.len(),
{
    let mut j = i;
    while j < v.len() && '0' <= v[j] && v[j] <= '9'
        invariant
            i <= j <= v@.len(),
            run_dec(v@, j as int) == run_dec(v@, i as int),
        decreases v.len() - j,
    {
        j = j + 1;
    }
    j
}

fn no_newline_exec(v: &[char], i: usize) -> (r: bool)
    requires
        i <= v@.len(),
    ensures
        r == no_newline_after(v@, i as int),
{
    let mut k = i;
    while k < v.len()
        invariant
            i <= k <= v@.len(),
            forall|t: int| i <= t < k ==> v@[t] != '\n',
        decreases v.len() - k,
    {
        if v[k] == '\n' {
            return false;
        }
        k = k + 1;
    }
    true
}

fn grub_version_at_exec(v: &[char], p: usize) -> (r: Option<(String, String)>)
    requires
        p <= v@.len(),
    ensures
        match r {
            Some((a, b)) => grub_version_at(v@, p as int) == Some((a@, b@)),
            None => grub_version_at(v@, p as int) is None,
        },
{
    proof {
        reveal_strlit("(GRUB)");
        lemma_run_ws(v@, p as int);
    }
    let q = run_ws_exec(v, p);
    let grub = chars_of("(GRUB)");
    assert(grub@.len() == 6);
    if !(q > p && starts_at_exec(v, q, grub.as_slice())) {
        return None;
    }
    let n = v.len();
    assert(q + 6 <= n);
    proof {
        lemma_run_ws(v@, q + 6);
    }
    let r = run_ws_exec(v, q + 6);
    proof {
        lemma_run_dec(v@, r as int);
    }
    let e1 = run_dec_exec(v, r);
    if !(r > q + 6 && e1 > r && e1 < v.len() && v[e1] == '.') {
        return None;
    }
    let e2 = run_dec_exec(v, e1 + 1);
    if !(e2 > e1 + 1 && e2 < v.len()) {
        return None;
    }
    if !no_newline_exec(v, e2 + 1) {
        return None;
    }
    Some((string_from_chars(v, r, e1), string_from_chars(v, e1 + 1, e2)))
}

impl GrubBootManager {
    /// The major and minor version of grub from the result of its `--version` call (its
    /// success and its output).
    pub fn grub_version(success: bool, stdout: &str) -> (r: Result<(String, String), MigError>)
        ensures
            !success ==> r == Err::<(String, String), MigError>(MigError { kind: MigErrorKind::ExecProcess }),
            success ==> match grub_version_of(stdout@) {
                Some((major, minor)) => r matches Ok((a, b)) && a@ == major && b@ == minor,
                None => r == Err::<(String, String), MigError>(MigError { kind: MigErrorKind::InvParam }),
            },
    {
        if !success {
            return Err(MigError::from_kind(MigErrorKind::ExecProcess));
        }
        let v = chars_of(stdout);
        let mut nl: usize = 0;
        while nl < v.len() && v[nl] != '\n'
            invariant
                nl <= v@.len(),
                first_newline(v@, nl as int) == first_newline(v@, 0),
            decreases v.len() - nl,
        {
            nl = nl + 1;
        }
        let mut p = nl;
        loop
            invariant
                success,
                p <= nl,
                nl <= v@.len(),
                nl == first_newline(v@, 0),
                v@ == stdout@,
                last_grub_version(v@, nl as int) == last_grub_version(v@, p as int),
            decreases p,
        {
            match grub_version_at_exec(v.as_slice(), p) {
                Some(ver) => {
                    return Ok(ver);
                },
                None => {},
            }
            if p == 0 {
                assert(last_grub_version(v@, -1) is None);
                return Err(MigError::from_kind(MigErrorKind::InvParam));
            }
            p = p - 1;
        }
    }
}

} // verus!
