use vstd::prelude::*;
use crate::boot_manager::UBootManager;
use crate::defs::{MigError, MigErrorKind, BALENA_FILE_TAG};
use crate::edit::{
    lemma_replaced_absent, lemma_replaced_frame, lemma_replaced_whole, lemma_replaced_without_lead,
    occurs_in, replace_all, replaced,
};
use crate::linux_common::{digits_to_end, digits_to_end_exec, run_digits_exec, starts_with_lit};
use crate::lsblk_info::run_digits;
use crate::num::{decimal, u64_to_string};
use crate::paths::{join, path_join};
use crate::text::{
    chars_of, digit_char, is_digit, push_str, starts_at, starts_at_exec, str_eq, string_from_chars,
    to_string,
};

verus! {

/// Where u-boot sits on a device that boots it from the master boot record.
pub const UBOOT_MBR_OFFSET: u64 = 0x60000;

/// The size of the u-boot image header.
pub const UBOOT_HDR_SIZE: u64 = 0x40;

/// The largest u-boot image that fits the master boot record area.
pub const UBOOT_MAX_SIZE: u64 = 0x80000;

/// The magic word that starts a u-boot image header.
pub const UBOOT_MAGIC_WORD: u32 = 0x2705_1956;

/// The kernel release name under which the migration files are installed for u-boot.
pub const BALENA_UBOOT_UNAME: &'static str = "balena-migrate";

/// The u-boot environment that boots the migration files by kernel release name.
pub const UENV_TXT1: &'static str = r###"
#Docs: http://elinux.org/Beagleboard:U-boot_partitioning_layout_2.0

uname_r=__BALENA_KERNEL_UNAME_R__
#dtb=
cmdline=init=/lib/systemd/systemd __KERNEL_CMDLINE__
__ROOT_DEV_ID__
"###;

/// The u-boot environment that loads the migration kernel, initramfs and device tree itself.
pub const UENV_TXT2: &'static str = r###"
loadaddr=0x82000000
fdtaddr=0x88000000
rdaddr=0x88080000

initrd_high=0xffffffff
fdt_high=0xffffffff

loadximage=echo debug: [__KERNEL_PATH__] ... ; load mmc __DRIVE__:__PARTITION__ ${loadaddr} __KERNEL_PATH__
loadxfdt=echo debug: [__DTB_PATH__] ... ;load mmc __DRIVE__:__PARTITION__ ${fdtaddr} __DTB_PATH__
loadxrd=echo debug: [__INITRD_PATH__] ... ; load mmc __DRIVE__:__PARTITION__ ${rdaddr} __INITRD_PATH__; setenv rdsize ${filesize}
# loaduEnvtxt=load mmc __DRIVE__:__PARTITION__ ${loadaddr} /boot/uEnv.txt ; env import -t ${loadaddr} ${filesize};
check_uboot_overlays=if test -n ${enable_uboot_overlays}; then setenv enable_uboot_overlays ;fi;
loadall=run check_uboot_overlays; run loadximage; run loadxrd; run loadxfdt;

mmcargs=setenv bootargs console=tty0 console=${console} ${optargs} ${cape_disable} ${cape_enable} root=__ROOT_DEV__ rootfstype=__ROOT_FSTYPE__ __MISC_OPTS__ ${cmdline}

uenvcmd=run loadall; run mmcargs; echo debug: [${bootargs}] ... ; echo debug: [bootz ${loadaddr} ${rdaddr}:${rdsize} ${fdtaddr}] ... ; bootz ${loadaddr} ${rdaddr}:${rdsize} ${fdtaddr};
"###;

/// The value of big endian bytes.
pub open spec fn be_value(s: Seq<u8>) -> nat
    decreases s.len(),
{
    if s.len() == 0 {
        0
    } else {
        be_value(s.drop_last()) * 256 + s.last() as nat
    }
}

/// 256 to the power `n`.
pub open spec fn pow256(n: nat) -> nat
    decreases n,
{
    if n == 0 {
        1
    } else {
        256 * pow256((n - 1) as nat)
    }
}

proof fn lemma_be_bound(s: Seq<u8>)
    ensures
        be_value(s) < pow256(s.len()),
    decreases s.len(),
{
    if s.len() > 0 {
        lemma_be_bound(s.drop_last());
    }
}

/// The (at most four) bytes of `buffer` from `offset` on.
pub open spec fn word_bytes(buffer: Seq<u8>, offset: int) -> Seq<u8> {
    let from = if offset < buffer.len() { offset } else { buffer.len() as int };
    let to = if from + 4 < buffer.len() { from + 4 } else { buffer.len() as int };
    buffer.subrange(from, to)
}

/// The size of the u-boot image that a header announces (its size field and the header), or
/// `None` when the header does not start with the magic word.
pub open spec fn uboot_image_size(header: Seq<u8>) -> Option<nat> {
    if be_value(word_bytes(header, 0)) == UBOOT_MAGIC_WORD {
        Some(be_value(word_bytes(header, 12)) + UBOOT_HDR_SIZE as nat)
    } else {
        None
    }
}

/// The device that a mmc root partition lies on: the text ends in `/dev/mmcblk<d>p<d>` (one
/// digit each), and the device is that end without `p<d>` (the pattern `(/dev/mmcblk\d)p\d$`).
pub open spec fn mmc_flash_device(root: Seq<char>) -> Option<Seq<char>> {
    let n = root.len() as int;
    if n >= 14 && root.subrange(n - 14, n - 3) == "/dev/mmcblk"@ && is_digit(root[n - 3])
        && root[n - 2] == 'p' && is_digit(root[n - 1]) {
        Some(root.subrange(n - 14, n - 2))
    } else {
        None
    }
}

/// The partition number of a mmc partition name `/dev/mmcblk<digits>p<digits>` (the pattern
/// `^/dev/mmcblk\d+p(\d+)$`).
pub open spec fn mmc_part_num(dev: Seq<char>) -> Option<Seq<char>> {
    let e = run_digits(dev, 11);
    if dev.len() > 11 && dev.take(11) == "/dev/mmcblk"@ && e > 11 && e < dev.len() && dev[e] == 'p'
        && digits_to_end(dev, e + 1) {
        Some(dev.skip(e + 1))
    } else {
        None
    }
}

/// The boot files that u-boot loads.
#[derive(Debug, Clone, Copy, PartialEq, Eq, Structural)]
pub enum BootFileType {
    KernelFile,
    Initramfs,
    DtbFile,
}

/// Where a boot file is installed under `base`; without a file name, a device tree file stands
/// for its directory.
pub open spec fn target_file_name(file_type: BootFileType, base: Seq<char>, file: Option<Seq<char>>) -> Seq<
    char,
> {
    match file_type {
        BootFileType::KernelFile => path_join(base, "vmlinuz-"@ + BALENA_UBOOT_UNAME@),
        BootFileType::Initramfs => path_join(base, "initrd.img-"@ + BALENA_UBOOT_UNAME@),
        BootFileType::DtbFile => {
            let dir = path_join(base, "dtbs/"@ + BALENA_UBOOT_UNAME@ + "/"@);
            match file {
                Some(f) => path_join(dir, f),
                None => dir,
            }
        },
    }
}

/// The sum of a list of sizes.
pub open spec fn sum(s: Seq<u64>) -> nat
    decreases s.len(),
{
    if s.len() == 0 {
        0
    } else {
        sum(s.drop_last()) + s.last() as nat
    }
}

/// The file systems u-boot can read.
pub open spec fn uboot_fs_type(fs_type: Option<Seq<char>>) -> bool {
    match fs_type {
        None => true,
        Some(t) => t == "vfat"@ || t == "ext2"@ || t == "ext4"@,
    }
}

/// The u-boot environment for the kernel release strategy.
pub open spec fn uenv_uname(root_dev_id: Seq<char>, kernel_opts: Seq<char>) -> Seq<char> {
    let t0 = BALENA_FILE_TAG@ + UENV_TXT1@;
    let t1 = replaced(t0, "__BALENA_KERNEL_UNAME_R__"@, BALENA_UBOOT_UNAME@);
    let t2 = replaced(t1, "__ROOT_DEV_ID__"@, root_dev_id);
    replaced(t2, "__KERNEL_CMDLINE__"@, kernel_opts)
}

/// The u-boot environment for the manual strategy, from the paths of the installed files as
/// u-boot sees them.
pub open spec fn uenv_manual(
    kernel: Seq<char>,
    initrd: Seq<char>,
    dtb: Seq<char>,
    mmc_index: u8,
    part_num: Seq<char>,
    root_dev: Seq<char>,
    root_fs_type: Seq<char>,
    misc_opts: Seq<char>,
) -> Seq<char> {
    let t0 = BALENA_FILE_TAG@ + UENV_TXT2@;
    let t1 = replaced(t0, "__DTB_PATH__"@, dtb);
    let t2 = replaced(t1, "__INITRD_PATH__"@, initrd);
    let t3 = replaced(t2, "__KERNEL_PATH__"@, kernel);
    let t4 = replaced(t3, "__DRIVE__"@, decimal(mmc_index as nat));
    let t5 = replaced(t4, "__PARTITION__"@, part_num);
    let t6 = replaced(t5, "__ROOT_DEV__"@, root_dev);
    let t7 = replaced(t6, "__ROOT_FSTYPE__"@, root_fs_type);
    replaced(t7, "__MISC_OPTS__"@, misc_opts)
}

proof fn lemma_literals()
    ensures
        "__BALENA_KERNEL_UNAME_R__"@.len() > 0,
        "__ROOT_DEV_ID__"@.len() > 0,
        "__KERNEL_CMDLINE__"@.len() > 0,
        "__DTB_PATH__"@.len() > 0,
        "__INITRD_PATH__"@.len() > 0,
        "__KERNEL_PATH__"@.len() > 0,
        "__DRIVE__"@.len() > 0,
        "__PARTITION__"@.len() > 0,
        "__ROOT_DEV__"@.len() > 0,
        "__ROOT_FSTYPE__"@.len() > 0,
        "__MISC_OPTS__"@.len() > 0,
{
    reveal_strlit("__BALENA_KERNEL_UNAME_R__");
    reveal_strlit("__ROOT_DEV_ID__");
    reveal_strlit("__KERNEL_CMDLINE__");
    reveal_strlit("__DTB_PATH__");
    reveal_strlit("__INITRD_PATH__");
    reveal_strlit("__KERNEL_PATH__");
    reveal_strlit("__DRIVE__");
    reveal_strlit("__PARTITION__");
    reveal_strlit("__ROOT_DEV__");
    reveal_strlit("__ROOT_FSTYPE__");
    reveal_strlit("__MISC_OPTS__");
}

impl UBootManager {
    /// The value of the (at most four) big endian bytes of `buffer` from `offset` on.
    pub fn u32_from_big_endian(buffer: &[u8], offset: usize) -> (r: u32)
        ensures
            r == be_value(word_bytes(buffer@, offset as int)),
    {
        let from = if offset < buffer.len() { offset } else { buffer.len() };
        let to = if buffer.len() - from > 4 { from + 4 } else { buffer.len() };
        let mut res: u32 = 0;
        let mut k = from;
        while k < to
            invariant
                from <= k <= to <= buffer@.len(),
                to - from <= 4,
                res == be_value(buffer@.subrange(from as int, k as int)),
            decreases to - k,
        {
            proof {
                lemma_be_bound(buffer@.subrange(from as int, k as int));
                assert(pow256((k - from) as nat) <= 16777216) by {
                    reveal_with_fuel(pow256, 4);
                }
                assert(buffer@.subrange(from as int, k + 1).drop_last() =~= buffer@.subrange(
                    from as int,
                    k as int,
                ));
            }
            res = res * 0x100 + buffer[k] as u32;
            k = k + 1;
        }
        proof {
            assert(word_bytes(buffer@, offset as int) =~= buffer@.subrange(from as int, to as int));
        }
        res
    }

    /// The flash device behind the root device, which must be a mmc partition.
    pub fn flash_device(root_dev: &str) -> (r: Result<String, MigError>)
        ensures
            match mmc_flash_device(root_dev@) {
                Some(d) => r matches Ok(s) && s@ == d,
                None => r == Err::<String, MigError>(MigError { kind: MigErrorKind::InvState }),
            },
    {
        proof {
            reveal_strlit("/dev/mmcblk");
        }
        let v = chars_of(root_dev);
        let n = v.len();
        if n >= 14 {
            let lit = chars_of("/dev/mmcblk");
            if starts_at_exec(v.as_slice(), n - 14, lit.as_slice()) && digit_char(v[n - 3])
                && v[n - 2] == 'p' && digit_char(v[n - 1]) {
                return Ok(string_from_chars(v.as_slice(), n - 14, n - 2));
            }
        }
        Err(MigError::from_kind(MigErrorKind::InvState))
    }

    /// The partition number of the mmc partition that the migration files are installed on.
    pub fn partition_number(dev_name: &str) -> (r: Result<String, MigError>)
        ensures
            match mmc_part_num(dev_name@) {
                Some(p) => r matches Ok(s) && s@ == p,
                None => r == Err::<String, MigError>(MigError { kind: MigErrorKind::InvParam }),
            },
    {
        proof {
            reveal_strlit("/dev/mmcblk");
        }
        let v = chars_of(dev_name);
        if v.len() > 11 && starts_with_lit(v.as_slice(), "/dev/mmcblk") {
            let e = run_digits_exec(v.as_slice(), 11);
            if e > 11 && e < v.len() && v[e] == 'p' && digits_to_end_exec(v.as_slice(), e + 1) {
                let r = string_from_chars(v.as_slice(), e + 1, v.len());
                assert(v@.subrange(e + 1, v@.len() as int) =~= v@.skip(e + 1));
                return Ok(r);
            }
        }
        Err(MigError::from_kind(MigErrorKind::InvParam))
    }

    /// Where a boot file is installed under `base` (`file` names a device tree file).
    pub fn get_target_file_name(file_type: BootFileType, base: &str, file: Option<&str>) -> (r:
        String)
        ensures
            r@ == target_file_name(
                file_type,
                base@,
                match file {
                    Some(f) => Some(f@),
                    None => None,
                },
            ),
    {
        match file_type {
            BootFileType::KernelFile => {
                let mut name = to_string("vmlinuz-");
                push_str(&mut name, BALENA_UBOOT_UNAME);
                join(base, name.as_str())
            },
            BootFileType::Initramfs => {
                let mut name = to_string("initrd.img-");
                push_str(&mut name, BALENA_UBOOT_UNAME);
                join(base, name.as_str())
            },
            BootFileType::DtbFile => {
                let mut name = to_string("dtbs/");
                push_str(&mut name, BALENA_UBOOT_UNAME);
                push_str(&mut name, "/");
                let dir = join(base, name.as_str());
                match file {
                    Some(f) => join(dir.as_str(), f),
                    None => dir,
                }
            },
        }
    }

    /// Whether a boot partition with `fs_free` bytes free takes the migration files: 8 KiB and
    /// the space each file requires must stay below it.
    pub fn check_boot_req_space(required: &[u64], fs_free: u64) -> (r: bool)
        requires
            8192 + sum(required@) <= u64::MAX,
        ensures
            r == (8192 + sum(required@) < fs_free),
    {
        let mut total: u64 = 8192;
        let mut k: usize = 0;
        while k < required.len()
            invariant
                k <= required@.len(),
                8192 + sum(required@) <= u64::MAX,
                total == 8192 + sum(required@.take(k as int)),
            decreases required.len() - k,
        {
            proof {
                assert(required@.take(k + 1).drop_last() =~= required@.take(k as int));
                lemma_sum_prefix(required@, k + 1);
            }
            total = total + required[k];
            k = k + 1;
        }
        assert(required@.take(required@.len() as int) =~= required@);
        total < fs_free
    }

    /// Whether u-boot can read a partition's file system (one without a known type is tried).
    pub fn fs_type_supported(fs_type: Option<&str>) -> (r: bool)
        ensures
            r == uboot_fs_type(
                match fs_type {
                    Some(t) => Some(t@),
                    None => None,
                },
            ),
    {
        match fs_type {
            None => true,
            Some(t) => str_eq(t, "vfat") || str_eq(t, "ext2") || str_eq(t, "ext4"),
        }
    }

    /// Whether the scan of the flash device found what the migration needs: a u-boot, in the
    /// master boot record or as files, and a partition to install to.
    pub fn check_install(in_mbr: bool, has_mlo: bool, has_install_path: bool) -> (r: Result<
        bool,
        MigError,
    >)
        ensures
            (in_mbr || has_mlo) && has_install_path ==> r == Ok::<bool, MigError>(true),
            !((in_mbr || has_mlo) && has_install_path) ==> r == Err::<bool, MigError>(
                MigError { kind: MigErrorKind::InvState },
            ),
    {
        if (in_mbr || has_mlo) && has_install_path {
            Ok(true)
        } else {
            Err(MigError::from_kind(MigErrorKind::InvState))
        }
    }

    /// The u-boot environment for the kernel release strategy, from the root device as the
    /// kernel names it and the extra kernel options.
    pub fn uenv_uname_text(root_dev_id: &str, kernel_opts: &str) -> (r: String)
        ensures
            r@ == uenv_uname(root_dev_id@, kernel_opts@),
    {
        proof {
            lemma_literals();
        }
        let mut t = to_string(BALENA_FILE_TAG);
        push_str(&mut t, UENV_TXT1);
        let t = replace_all(t.as_str(), "__BALENA_KERNEL_UNAME_R__", BALENA_UBOOT_UNAME);
        let t = replace_all(t.as_str(), "__ROOT_DEV_ID__", root_dev_id);
        replace_all(t.as_str(), "__KERNEL_CMDLINE__", kernel_opts)
    }

    /// The u-boot environment for the manual strategy, from the paths of the installed kernel,
    /// initramfs and device tree as u-boot sees them, the partition number and the root device
    /// and file system type.
    pub fn uenv_manual_text(
        &self,
        kernel: &str,
        initrd: &str,
        dtb: &str,
        part_num: &str,
        root_dev: &str,
        root_fs_type: &str,
        misc_opts: &str,
    ) -> (r: String)
        ensures
            r@ == uenv_manual(
                kernel@,
                initrd@,
                dtb@,
                self.mmc_index,
                part_num@,
                root_dev@,
                root_fs_type@,
                misc_opts@,
            ),
    {
        proof {
            lemma_literals();
        }
        let mut t = to_string(BALENA_FILE_TAG);
        push_str(&mut t, UENV_TXT2);
        let t = replace_all(t.as_str(), "__DTB_PATH__", dtb);
        let t = replace_all(t.as_str(), "__INITRD_PATH__", initrd);
        let t = replace_all(t.as_str(), "__KERNEL_PATH__", kernel);
        let drive = u64_to_string(self.mmc_index as u64);
        let t = replace_all(t.as_str(), "__DRIVE__", drive.as_str());
        let t = replace_all(t.as_str(), "__PARTITION__", part_num);
        let t = replace_all(t.as_str(), "__ROOT_DEV__", root_dev);
        let t = replace_all(t.as_str(), "__ROOT_FSTYPE__", root_fs_type);
        replace_all(t.as_str(), "__MISC_OPTS__", misc_opts)
    }
}

pub(crate) proof fn lemma_sum_prefix(s: Seq<u64>, k: int)
    requires
        0 <= k <= s.len(),
    ensures
        sum(s.take(k)) <= sum(s),
    decreases s.len() - k,
{
    if k < s.len() {
        lemma_sum_prefix(s, k + 1);
        assert(s.take(k + 1).drop_last() =~= s.take(k));
    } else {
        assert(s.take(k) =~= s);
    }
}

/// The four big endian bytes of a 32 bit number have that number as their value.
pub proof fn lemma_be_round_trip(n: u32)
    ensures
        be_value(seq![(n >> 24u32) as u8, ((n >> 16u32) & 0xffu32) as u8, ((n >> 8u32) & 0xffu32) as u8, (n & 0xffu32) as u8]) == n,
{
    let b0 = (n >> 24u32) as u8;
    let b1 = ((n >> 16u32) & 0xffu32) as u8;
    let b2 = ((n >> 8u32) & 0xffu32) as u8;
    let b3 = (n & 0xffu32) as u8;
    let s = seq![b0, b1, b2, b3];
    assert(s.drop_last() =~= seq![b0, b1, b2]);
    assert(s.drop_last().drop_last() =~= seq![b0, b1]);
    assert(s.drop_last().drop_last().drop_last() =~= seq![b0]);
    assert(s.drop_last().drop_last().drop_last().drop_last() =~= Seq::<u8>::empty());
    reveal_with_fuel(be_value, 5);
    assert(((b0 as u32) * 256 + (b1 as u32)) * 256 * 256 + (b2 as u32) * 256 + (b3 as u32) == n) by (bit_vector)
        requires
            b0 == (n >> 24u32) as u8,
            b1 == ((n >> 16u32) & 0xffu32) as u8,
            b2 == ((n >> 8u32) & 0xffu32) as u8,
            b3 == (n & 0xffu32) as u8,
    ;
}

/// What the scan of the flash device learns of one partition of its master boot record: the
/// size `lsblk` gives the partition at the same index, the partition's sector count, type and
/// boot flag from the record, its file system type, whether the migration's boot files fit
/// onto it, and whether it holds `MLO` and `u-boot.img`.
#[derive(Debug)]
pub struct UBootPartScan {
    pub lsblk_size: u64,
    pub num_sectors: u64,
    pub fstype: Option<String>,
    pub bootable: bool,
    pub ptype: u8,
    pub boot_files_fit: bool,
    pub has_mlo: bool,
    pub has_uboot: bool,
}

/// The file system type of a scanned partition, as text.
pub open spec fn scan_fstype(p: UBootPartScan) -> Option<Seq<char>> {
    match p.fstype {
        Some(t) => Some(t@),
        None => None,
    }
}

/// Whether a partition is one the scan looks for: with `mlo`, a bootable FAT partition that
/// holds `MLO` and `u-boot.img`; else one to install the boot files to. Either must have a file
/// system u-boot reads.
pub open spec fn scan_pick(p: UBootPartScan, mlo: bool) -> bool {
    &&& uboot_fs_type(scan_fstype(p))
    &&& if mlo {
        p.bootable && (p.ptype == 0xe || p.ptype == 0xc) && p.has_mlo && p.has_uboot
    } else {
        p.boot_files_fit
    }
}

/// `a` is the first partition the scan picks (see `scan_pick`).
pub open spec fn scan_first(ps: Seq<UBootPartScan>, a: int, mlo: bool) -> bool {
    &&& 0 <= a < ps.len()
    &&& scan_pick(ps[a], mlo)
    &&& forall|k: int| 0 <= k < a ==> !scan_pick(#[trigger] ps[k], mlo)
}

/// No partition is one the scan picks.
pub open spec fn scan_none(ps: Seq<UBootPartScan>, mlo: bool) -> bool {
    forall|k: int| 0 <= k < ps.len() ==> !scan_pick(#[trigger] ps[k], mlo)
}

/// Every partition of the record has an `lsblk` partition at its index, of the size of its
/// sectors.
pub open spec fn scan_sane(ps: Seq<UBootPartScan>, n_lsblk: nat) -> bool {
    forall|k: int| 0 <= k < ps.len() ==> k < n_lsblk && (#[trigger] ps[k]).lsblk_size == ps[k].num_sectors * 512
}

/// Whether u-boot can be set up from the scan: the record agrees with `lsblk`, a u-boot in the
/// master boot record is not too large, there is a partition to install to, and a u-boot is
/// found as files or in the master boot record.
pub open spec fn scan_ok(ps: Seq<UBootPartScan>, n_lsblk: nat, mbr_uboot_size: Option<u64>) -> bool {
    &&& scan_sane(ps, n_lsblk)
    &&& (mbr_uboot_size matches Some(z) ==> z <= UBOOT_MAX_SIZE)
    &&& !scan_none(ps, false)
    &&& (!scan_none(ps, true) || mbr_uboot_size is Some)
}

impl UBootManager {
    /// The size of the u-boot image in the master boot record, from the header read there:
    /// none where the header does not start with the magic word.
    pub fn mbr_uboot_size(header: &[u8]) -> (r: Option<u64>)
        ensures
            match uboot_image_size(header@) {
                None => r is None,
                Some(n) => r == Some(n as u64),
            },
    {
        let magic = UBootManager::u32_from_big_endian(header, 0);
        if magic == UBOOT_MAGIC_WORD {
            Some(UBootManager::u32_from_big_endian(header, 12) as u64 + UBOOT_HDR_SIZE)
        } else {
            None
        }
    }

    /// What the scan of the flash device decides, from its partitions in the order of the
    /// master boot record, the number of partitions `lsblk` lists (0 where it lists none) and
    /// the size of a u-boot in the master boot record: the partition to install to (the first
    /// that fits), the partition that holds u-boot as files (the first, if any) and whether
    /// u-boot is in the master boot record. Anything else is an invalid state.
    pub fn uboot_scan(parts: &[UBootPartScan], n_lsblk: usize, mbr_uboot_size: Option<u64>) -> (r: Result<
        (Option<usize>, Option<usize>, bool),
        MigError,
    >)
        ensures
            !scan_ok(parts@, n_lsblk as nat, mbr_uboot_size) ==> r == Err::<(Option<usize>, Option<usize>, bool), MigError>(
                MigError { kind: MigErrorKind::InvState },
            ),
            scan_ok(parts@, n_lsblk as nat, mbr_uboot_size) ==> (r matches Ok((install, mlo, in_mbr)) && {
                &&& install matches Some(a) && scan_first(parts@, a as int, false)
                &&& match mlo {
                    Some(b) => scan_first(parts@, b as int, true),
                    None => scan_none(parts@, true),
                }
                &&& in_mbr == (mbr_uboot_size is Some)
            }),
    {
        let mut install: Option<usize> = None;
        let mut mlo: Option<usize> = None;
        let mut i: usize = 0;
        while i < parts.len()
            invariant
                i <= parts@.len(),
                scan_sane(parts@.take(i as int), n_lsblk as nat),
                install is None ==> forall|k: int| 0 <= k < i ==> !scan_pick(#[trigger] parts@[k], false),
                install matches Some(a) ==> a < i && scan_first(parts@, a as int, false),
                mlo is None ==> forall|k: int| 0 <= k < i ==> !scan_pick(#[trigger] parts@[k], true),
                mlo matches Some(b) ==> b < i && scan_first(parts@, b as int, true),
            decreases parts.len() - i,
        {
            let p = &parts[i];
            let fits = match p.num_sectors.checked_mul(512) {
                Some(n) => n == p.lsblk_size,
                None => false,
            };
            if i >= n_lsblk || !fits {
                assert(!scan_sane(parts@, n_lsblk as nat)) by {
                    assert(!(i < n_lsblk && parts@[i as int].lsblk_size == parts@[i as int].num_sectors * 512));
                }
                return Err(MigError::from_kind(MigErrorKind::InvState));
            }
            assert(parts@.take(i + 1) =~= parts@.take(i as int).push(parts@[i as int]));
            let fs_ok = match &p.fstype {
                Some(t) => UBootManager::fs_type_supported(Some(t.as_str())),
                None => UBootManager::fs_type_supported(None),
            };
            if fs_ok {
                if install.is_none() && p.boot_files_fit {
                    install = Some(i);
                }
                if mlo.is_none() && p.bootable && (p.ptype == 0xe || p.ptype == 0xc) && p.has_mlo && p.has_uboot {
                    mlo = Some(i);
                }
            }
            i = i + 1;
        }
        assert(parts@.take(parts@.len() as int) =~= parts@);
        match mbr_uboot_size {
            Some(z) => {
                if z > UBOOT_MAX_SIZE {
                    return Err(MigError::from_kind(MigErrorKind::InvState));
                }
            },
            None => {},
        }
        let in_mbr = mbr_uboot_size.is_some();
        match UBootManager::check_install(in_mbr, mlo.is_some(), install.is_some()) {
            Err(e) => Err(e),
            Ok(_) => Ok((install, mlo, in_mbr)),
        }
    }
}

/// A placeholder of the u-boot templates: underscores and capital letters, led by an underscore.
pub open spec fn placeholder(f: Seq<char>) -> bool {
    &&& f.len() > 0
    &&& f[0] == '_'
    &&& forall|k: int| 0 <= k < f.len() ==> #[trigger] f[k] == '_' || ('A' <= f[k] && f[k] <= 'Z')
}

/// Template text that no placeholder touches: neither underscores nor capital letters.
pub open spec fn plain(w: Seq<char>) -> bool {
    &&& w.len() > 0
    &&& forall|k: int| 0 <= k < w.len() ==> #[trigger] w[k] != '_' && !('A' <= w[k] && w[k] <= 'Z')
}

proof fn lemma_placeholders()
    ensures
        placeholder("__DTB_PATH__"@),
        placeholder("__INITRD_PATH__"@),
        placeholder("__KERNEL_PATH__"@),
        placeholder("__DRIVE__"@),
        placeholder("__PARTITION__"@),
        placeholder("__ROOT_DEV__"@),
        placeholder("__ROOT_FSTYPE__"@),
        placeholder("__MISC_OPTS__"@),
{
    reveal_strlit("__DTB_PATH__");
    reveal_strlit("__INITRD_PATH__");
    reveal_strlit("__KERNEL_PATH__");
    reveal_strlit("__DRIVE__");
    reveal_strlit("__PARTITION__");
    reveal_strlit("__ROOT_DEV__");
    reveal_strlit("__ROOT_FSTYPE__");
    reveal_strlit("__MISC_OPTS__");
}

/// The three load commands of the manual template, each with the path it loads.
proof fn lemma_uenv_txt2_loads()
    ensures
        UENV_TXT2@.len() == 1083,
        UENV_TXT2@.subrange(182, 211) == " ${loadaddr} "@ + "__KERNEL_PATH__"@ + "\n"@,
        UENV_TXT2@.subrange(284, 309) == " ${fdtaddr} "@ + "__DTB_PATH__"@ + "\n"@,
        UENV_TXT2@.subrange(385, 438) == " ${rdaddr} "@ + "__INITRD_PATH__"@
            + "; setenv rdsize ${filesize}"@,
        plain(" ${loadaddr} "@),
        plain(" ${fdtaddr} "@),
        plain(" ${rdaddr} "@),
        plain("\n"@),
        plain("; setenv rdsize ${filesize}"@),
{
    reveal_strlit(r###"
loadaddr=0x82000000
fdtaddr=0x88000000
rdaddr=0x88080000

initrd_high=0xffffffff
fdt_high=0xffffffff

loadximage=echo debug: [__KERNEL_PATH__] ... ; load mmc __DRIVE__:__PARTITION__ ${loadaddr} __KERNEL_PATH__
loadxfdt=echo debug: [__DTB_PATH__] ... ;load mmc __DRIVE__:__PARTITION__ ${fdtaddr} __DTB_PATH__
loadxrd=echo debug: [__INITRD_PATH__] ... ; load mmc __DRIVE__:__PARTITION__ ${rdaddr} __INITRD_PATH__; setenv rdsize ${filesize}
# loaduEnvtxt=load mmc __DRIVE__:__PARTITION__ ${loadaddr} /boot/uEnv.txt ; env import -t ${loadaddr} ${filesize};
check_uboot_overlays=if test -n ${enable_uboot_overlays}; then setenv enable_uboot_overlays ;fi;
loadall=run check_uboot_overlays; run loadximage; run loadxrd; run loadxfdt;

mmcargs=setenv bootargs console=tty0 console=${console} ${optargs} ${cape_disable} ${cape_enable} root=__ROOT_DEV__ rootfstype=__ROOT_FSTYPE__ __MISC_OPTS__ ${cmdline}

uenvcmd=run loadall; run mmcargs; echo debug: [${bootargs}] ... ; echo debug: [bootz ${loadaddr} ${rdaddr}:${rdsize} ${fdtaddr}] ... ; bootz ${loadaddr} ${rdaddr}:${rdsize} ${fdtaddr};
"###);
    reveal_strlit(" ${loadaddr} ");
    reveal_strlit(" ${fdtaddr} ");
    reveal_strlit(" ${rdaddr} ");
    reveal_strlit("\n");
    reveal_strlit("; setenv rdsize ${filesize}");
    reveal_strlit("__KERNEL_PATH__");
    reveal_strlit("__DTB_PATH__");
    reveal_strlit("__INITRD_PATH__");
    assert(UENV_TXT2@.subrange(182, 211) =~= " ${loadaddr} "@ + "__KERNEL_PATH__"@ + "\n"@);
    assert(UENV_TXT2@.subrange(284, 309) =~= " ${fdtaddr} "@ + "__DTB_PATH__"@ + "\n"@);
    assert(UENV_TXT2@.subrange(385, 438) =~= " ${rdaddr} "@ + "__INITRD_PATH__"@
        + "; setenv rdsize ${filesize}"@);
}

proof fn lemma_placeholders_apart()
    ensures
        !occurs_in("__INITRD_PATH__"@, "__DTB_PATH__"@),
        !occurs_in("__KERNEL_PATH__"@, "__DTB_PATH__"@),
        !occurs_in("__KERNEL_PATH__"@, "__INITRD_PATH__"@),
{
    reveal_strlit("__DTB_PATH__");
    reveal_strlit("__INITRD_PATH__");
    reveal_strlit("__KERNEL_PATH__");
    let d = "__DTB_PATH__"@;
    let i = "__INITRD_PATH__"@;
    let k = "__KERNEL_PATH__"@;
    assert forall|j: int| !#[trigger] starts_at(i, j, d) by {
        if starts_at(i, j, d) {
            assert(i.subrange(j, j + d.len())[2] == i[j + 2]);
        }
    }
    assert forall|j: int| !#[trigger] starts_at(k, j, d) by {
        if starts_at(k, j, d) {
            assert(k.subrange(j, j + d.len())[2] == k[j + 2]);
        }
    }
    assert forall|j: int| !#[trigger] starts_at(k, j, i) by {
        if starts_at(k, j, i) {
            assert(k.subrange(j, j + i.len())[2] == k[j + 2]);
        }
    }
}

/// Filling a placeholder in a text that holds `l + m + r`, with `l` and `r` plain: the middle
/// stays as it is where it holds no occurrence of the placeholder.
proof fn lemma_fill_around(
    a: Seq<char>,
    l: Seq<char>,
    m: Seq<char>,
    r: Seq<char>,
    b: Seq<char>,
    f: Seq<char>,
    t: Seq<char>,
)
    requires
        placeholder(f),
        plain(l),
        plain(r),
    ensures
        replaced(a + l + m + r + b, f, t) == replaced(a, f, t) + l + replaced(m, f, t) + r
            + replaced(b, f, t),
        !occurs_in(m, f) ==> replaced(m, f, t) == m,
        m == f ==> replaced(m, f, t) == t,
{
    assert forall|w: Seq<char>| plain(w) implies #[trigger] replaced(w, f, t) == w && !f.contains(
        w[0],
    ) && !f.contains(w.last()) by {
        if w.contains(f[0]) {
            let k = choose|k: int| 0 <= k < w.len() && w[k] == f[0];
            assert(w[k] == '_');
        }
        lemma_replaced_without_lead(w, f, t);
        if f.contains(w[0]) {
            let k = choose|k: int| 0 <= k < f.len() && f[k] == w[0];
            assert(f[k] == w[0]);
        }
        if f.contains(w.last()) {
            let k = choose|k: int| 0 <= k < f.len() && f[k] == w.last();
            assert(f[k] == w[w.len() - 1]);
        }
    }
    assert(replaced(l, f, t) == l);
    assert(replaced(r, f, t) == r);
    lemma_replaced_frame(a, l, m, r, b, f, t);
    if !occurs_in(m, f) {
        lemma_replaced_absent(m, f, t);
    }
    if m == f {
        lemma_replaced_whole(f, t);
    }
}

/// The u-boot environment of the manual strategy loads the initramfs from the initrd path: its
/// `loadxrd` command reads `initrd` into `${rdaddr}` (where `initrd` holds none of the
/// placeholders that are filled after it).
pub proof fn lemma_uenv_manual_loads_initrd(
    kernel: Seq<char>,
    initrd: Seq<char>,
    dtb: Seq<char>,
    mmc_index: u8,
    part_num: Seq<char>,
    root_dev: Seq<char>,
    root_fs_type: Seq<char>,
    misc_opts: Seq<char>,
)
    requires
        !occurs_in(initrd, "__KERNEL_PATH__"@),
        !occurs_in(initrd, "__DRIVE__"@),
        !occurs_in(initrd, "__PARTITION__"@),
        !occurs_in(initrd, "__ROOT_DEV__"@),
        !occurs_in(initrd, "__ROOT_FSTYPE__"@),
        !occurs_in(initrd, "__MISC_OPTS__"@),
    ensures
        exists|a: Seq<char>, b: Seq<char>|
            uenv_manual(kernel, initrd, dtb, mmc_index, part_num, root_dev, root_fs_type, misc_opts)
                == #[trigger] (a + " ${rdaddr} "@ + initrd + "; setenv rdsize ${filesize}"@ + b),
{
    lemma_uenv_txt2_loads();
    lemma_placeholders();
    lemma_placeholders_apart();
    let l = " ${rdaddr} "@;
    let r = "; setenv rdsize ${filesize}"@;
    let m = "__INITRD_PATH__"@;
    let u = UENV_TXT2@;
    let a0 = BALENA_FILE_TAG@ + u.subrange(0, 385);
    let b0 = u.subrange(438, 1083);
    assert(u =~= u.subrange(0, 385) + u.subrange(385, 438) + b0);
    assert(BALENA_FILE_TAG@ + u =~= a0 + l + m + r + b0);
    lemma_fill_around(a0, l, m, r, b0, "__DTB_PATH__"@, dtb);
    let a1 = replaced(a0, "__DTB_PATH__"@, dtb);
    let b1 = replaced(b0, "__DTB_PATH__"@, dtb);
    lemma_fill_around(a1, l, m, r, b1, "__INITRD_PATH__"@, initrd);
    let a2 = replaced(a1, "__INITRD_PATH__"@, initrd);
    let b2 = replaced(b1, "__INITRD_PATH__"@, initrd);
    lemma_fill_around(a2, l, initrd, r, b2, "__KERNEL_PATH__"@, kernel);
    let a3 = replaced(a2, "__KERNEL_PATH__"@, kernel);
    let b3 = replaced(b2, "__KERNEL_PATH__"@, kernel);
    let d = decimal(mmc_index as nat);
    lemma_fill_around(a3, l, initrd, r, b3, "__DRIVE__"@, d);
    let a4 = replaced(a3, "__DRIVE__"@, d);
    let b4 = replaced(b3, "__DRIVE__"@, d);
    lemma_fill_around(a4, l, initrd, r, b4, "__PARTITION__"@, part_num);
    let a5 = replaced(a4, "__PARTITION__"@, part_num);
    let b5 = replaced(b4, "__PARTITION__"@, part_num);
    lemma_fill_around(a5, l, initrd, r, b5, "__ROOT_DEV__"@, root_dev);
    let a6 = replaced(a5, "__ROOT_DEV__"@, root_dev);
    let b6 = replaced(b5, "__ROOT_DEV__"@, root_dev);
    lemma_fill_around(a6, l, initrd, r, b6, "__ROOT_FSTYPE__"@, root_fs_type);
    let a7 = replaced(a6, "__ROOT_FSTYPE__"@, root_fs_type);
    let b7 = replaced(b6, "__ROOT_FSTYPE__"@, root_fs_type);
    lemma_fill_around(a7, l, initrd, r, b7, "__MISC_OPTS__"@, misc_opts);
    let a8 = replaced(a7, "__MISC_OPTS__"@, misc_opts);
    let b8 = replaced(b7, "__MISC_OPTS__"@, misc_opts);
    assert(uenv_manual(kernel, initrd, dtb, mmc_index, part_num, root_dev, root_fs_type, misc_opts)
        == a8 + l + initrd + r + b8);
}

/// The u-boot environment of the manual strategy loads the kernel from the kernel path: its
/// `loadximage` command reads `kernel` into `${loadaddr}` (where `kernel` holds none of the
/// placeholders that are filled after it).
pub proof fn lemma_uenv_manual_loads_kernel(
    kernel: Seq<char>,
    initrd: Seq<char>,
    dtb: Seq<char>,
    mmc_index: u8,
    part_num: Seq<char>,
    root_dev: Seq<char>,
    root_fs_type: Seq<char>,
    misc_opts: Seq<char>,
)
    requires
        !occurs_in(kernel, "__DRIVE__"@),
        !occurs_in(kernel, "__PARTITION__"@),
        !occurs_in(kernel, "__ROOT_DEV__"@),
        !occurs_in(kernel, "__ROOT_FSTYPE__"@),
        !occurs_in(kernel, "__MISC_OPTS__"@),
    ensures
        exists|a: Seq<char>, b: Seq<char>|
            uenv_manual(kernel, initrd, dtb, mmc_index, part_num, root_dev, root_fs_type, misc_opts)
                == #[trigger] (a + " ${loadaddr} "@ + kernel + "\n"@ + b),
{
    lemma_uenv_txt2_loads();
    lemma_placeholders();
    lemma_placeholders_apart();
    let l = " ${loadaddr} "@;
    let r = "\n"@;
    let m = "__KERNEL_PATH__"@;
    let u = UENV_TXT2@;
    let a0 = BALENA_FILE_TAG@ + u.subrange(0, 182);
    let b0 = u.subrange(211, 1083);
    assert(u =~= u.subrange(0, 182) + u.subrange(182, 211) + b0);
    assert(BALENA_FILE_TAG@ + u =~= a0 + l + m + r + b0);
    lemma_fill_around(a0, l, m, r, b0, "__DTB_PATH__"@, dtb);
    let a1 = replaced(a0, "__DTB_PATH__"@, dtb);
    let b1 = replaced(b0, "__DTB_PATH__"@, dtb);
    lemma_fill_around(a1, l, m, r, b1, "__INITRD_PATH__"@, initrd);
    let a2 = replaced(a1, "__INITRD_PATH__"@, initrd);
    let b2 = replaced(b1, "__INITRD_PATH__"@, initrd);
    lemma_fill_around(a2, l, m, r, b2, "__KERNEL_PATH__"@, kernel);
    let a3 = replaced(a2, "__KERNEL_PATH__"@, kernel);
    let b3 = replaced(b2, "__KERNEL_PATH__"@, kernel);
    let d = decimal(mmc_index as nat);
    lemma_fill_around(a3, l, kernel, r, b3, "__DRIVE__"@, d);
    let a4 = replaced(a3, "__DRIVE__"@, d);
    let b4 = replaced(b3, "__DRIVE__"@, d);
    lemma_fill_around(a4, l, kernel, r, b4, "__PARTITION__"@, part_num);
    let a5 = replaced(a4, "__PARTITION__"@, part_num);
    let b5 = replaced(b4, "__PARTITION__"@, part_num);
    lemma_fill_around(a5, l, kernel, r, b5, "__ROOT_DEV__"@, root_dev);
    let a6 = replaced(a5, "__ROOT_DEV__"@, root_dev);
    let b6 = replaced(b5, "__ROOT_DEV__"@, root_dev);
    lemma_fill_around(a6, l, kernel, r, b6, "__ROOT_FSTYPE__"@, root_fs_type);
    let a7 = replaced(a6, "__ROOT_FSTYPE__"@, root_fs_type);
    let b7 = replaced(b6, "__ROOT_FSTYPE__"@, root_fs_type);
    lemma_fill_around(a7, l, kernel, r, b7, "__MISC_OPTS__"@, misc_opts);
    let a8 = replaced(a7, "__MISC_OPTS__"@, misc_opts);
    let b8 = replaced(b7, "__MISC_OPTS__"@, misc_opts);
    assert(uenv_manual(kernel, initrd, dtb, mmc_index, part_num, root_dev, root_fs_type, misc_opts)
        == a8 + l + kernel + r + b8);
}

/// The u-boot environment of the manual strategy loads the device tree from the device tree
/// path: its `loadxfdt` command reads `dtb` into `${fdtaddr}` (where `dtb` holds none of the
/// placeholders that are filled after it).
pub proof fn lemma_uenv_manual_loads_dtb(
    kernel: Seq<char>,
    initrd: Seq<char>,
    dtb: Seq<char>,
    mmc_index: u8,
    part_num: Seq<char>,
    root_dev: Seq<char>,
    root_fs_type: Seq<char>,
    misc_opts: Seq<char>,
)
    requires
        !occurs_in(dtb, "__INITRD_PATH__"@),
        !occurs_in(dtb, "__KERNEL_PATH__"@),
        !occurs_in(dtb, "__DRIVE__"@),
        !occurs_in(dtb, "__PARTITION__"@),
        !occurs_in(dtb, "__ROOT_DEV__"@),
        !occurs_in(dtb, "__ROOT_FSTYPE__"@),
        !occurs_in(dtb, "__MISC_OPTS__"@),
    ensures
        exists|a: Seq<char>, b: Seq<char>|
            uenv_manual(kernel, initrd, dtb, mmc_index, part_num, root_dev, root_fs_type, misc_opts)
                == #[trigger] (a + " ${fdtaddr} "@ + dtb + "\n"@ + b),
{
    lemma_uenv_txt2_loads();
    lemma_placeholders();
    let l = " ${fdtaddr} "@;
    let r = "\n"@;
    let m = "__DTB_PATH__"@;
    let u = UENV_TXT2@;
    let a0 = BALENA_FILE_TAG@ + u.subrange(0, 284);
    let b0 = u.subrange(309, 1083);
    assert(u =~= u.subrange(0, 284) + u.subrange(284, 309) + b0);
    assert(BALENA_FILE_TAG@ + u =~= a0 + l + m + r + b0);
    lemma_fill_around(a0, l, m, r, b0, "__DTB_PATH__"@, dtb);
    let a1 = replaced(a0, "__DTB_PATH__"@, dtb);
    let b1 = replaced(b0, "__DTB_PATH__"@, dtb);
    lemma_fill_around(a1, l, dtb, r, b1, "__INITRD_PATH__"@, initrd);
    let a2 = replaced(a1, "__INITRD_PATH__"@, initrd);
    let b2 = replaced(b1, "__INITRD_PATH__"@, initrd);
    lemma_fill_around(a2, l, dtb, r, b2, "__KERNEL_PATH__"@, kernel);
    let a3 = replaced(a2, "__KERNEL_PATH__"@, kernel);
    let b3 = replaced(b2, "__KERNEL_PATH__"@, kernel);
    let d = decimal(mmc_index as nat);
    lemma_fill_around(a3, l, dtb, r, b3, "__DRIVE__"@, d);
    let a4 = replaced(a3, "__DRIVE__"@, d);
    let b4 = replaced(b3, "__DRIVE__"@, d);
    lemma_fill_around(a4, l, dtb, r, b4, "__PARTITION__"@, part_num);
    let a5 = replaced(a4, "__PARTITION__"@, part_num);
    let b5 = replaced(b4, "__PARTITION__"@, part_num);
    lemma_fill_around(a5, l, dtb, r, b5, "__ROOT_DEV__"@, root_dev);
    let a6 = replaced(a5, "__ROOT_DEV__"@, root_dev);
    let b6 = replaced(b5, "__ROOT_DEV__"@, root_dev);
    lemma_fill_around(a6, l, dtb, r, b6, "__ROOT_FSTYPE__"@, root_fs_type);
    let a7 = replaced(a6, "__ROOT_FSTYPE__"@, root_fs_type);
    let b7 = replaced(b6, "__ROOT_FSTYPE__"@, root_fs_type);
    lemma_fill_around(a7, l, dtb, r, b7, "__MISC_OPTS__"@, misc_opts);
    let a8 = replaced(a7, "__MISC_OPTS__"@, misc_opts);
    let b8 = replaced(b7, "__MISC_OPTS__"@, misc_opts);
    assert(uenv_manual(kernel, initrd, dtb, mmc_index, part_num, root_dev, root_fs_type, misc_opts)
        == a8 + l + dtb + r + b8);
}

} // verus!
