use vstd::prelude::*;
use crate::defs::{MigError, MigErrorKind};
use crate::extract::part_names;
use crate::num::{decimal, u64_to_string};
use crate::text::{chars_of, digit_char, is_digit, push_str, strings_view, to_string};

verus! {

/// The size of a disk block.
pub const DEF_BLOCK_SIZE: u64 = 512;

/// Partitions start on multiples of 4 MiB ...
pub const DEFAULT_PARTITION_ALIGNMENT_KIB: u64 = 4096;

/// ... that is, of this many blocks.
pub const ALIGNMENT_BLOCKS: u64 = 8192;

/// Whether the data partition fills the disk when the configuration does not say.
pub const DEFAULT_MAX_DATA: bool = true;

/// How an attempt to write balena OS to the disk ended: well, failed with the old system still
/// bootable, or failed for good.
#[derive(Debug, Clone, Copy, PartialEq, Eq, Structural)]
pub enum FlashResult {
    Success,
    FailRecoverable,
    FailNonRecoverable,
}

/// The block sizes of the partitions of a balena OS file system dump.
#[derive(Debug, Clone, Copy, PartialEq, Eq, Structural)]
pub struct FsDumpBlocks {
    pub boot: u64,
    pub root_a: u64,
    pub root_b: u64,
    pub extended: u64,
    pub state: u64,
    pub data: u64,
}

/// `x` rounded up to the alignment.
pub open spec fn align_up(x: int) -> int {
    if x % (ALIGNMENT_BLOCKS as int) == 0 {
        x
    } else {
        (x / (ALIGNMENT_BLOCKS as int) + 1) * (ALIGNMENT_BLOCKS as int)
    }
}

/// The start blocks of the six partitions: boot, root A, root B, the extended partition, state
/// and data. Each primary starts at the alignment after the one before; state starts one
/// alignment into the extended partition, and data one alignment beyond the end of state,
/// rounded up.
pub open spec fn part_starts(b: FsDumpBlocks) -> Seq<int> {
    let a = ALIGNMENT_BLOCKS as int;
    let s1 = a;
    let s2 = align_up(s1 + b.boot);
    let s3 = align_up(s2 + b.root_a);
    let s4 = align_up(s3 + b.root_b);
    let s5 = s4 + a;
    let e5 = s5 + b.state;
    let s6 = if e5 % a != 0 {
        (e5 / a + 2) * a
    } else {
        e5 + a
    };
    seq![s1, s2, s3, s4, s5, s6]
}

/// All block counts and starts fit the arithmetic of the partitioning.
pub open spec fn layout_fits(b: FsDumpBlocks) -> bool {
    let s = part_starts(b);
    s[5] + b.data <= u64::MAX && s[3] + b.extended <= u64::MAX && s[1] + b.root_a + ALIGNMENT_BLOCKS
        <= u64::MAX && s[2] + b.root_b + ALIGNMENT_BLOCKS <= u64::MAX && s[0] + b.boot + ALIGNMENT_BLOCKS
        <= u64::MAX && s[4] + b.state + 2 * ALIGNMENT_BLOCKS <= u64::MAX
}

/// The partition name stem of a device: with a `p` where the device name ends in a digit (the
/// pattern `^.*\d+$`).
pub open spec fn part_stub(dev: Seq<char>) -> Seq<char> {
    if dev.len() > 0 && is_digit(dev.last()) {
        dev + seq!['p']
    } else {
        dev
    }
}

/// One `device : ...` line of the sfdisk script; `size` is none for a partition that runs to
/// the end of the disk.
pub open spec fn part_line(stub: Seq<char>, n: nat, start: nat, size: Option<nat>, tail: Seq<char>) -> Seq<char> {
    "device : name="@ + stub + decimal(n) + ", start="@ + decimal(start) + match size {
        Some(z) => " size="@ + decimal(z),
        None => Seq::empty(),
    } + tail
}

/// The sfdisk script that partitions a device for a balena OS file system dump.
pub open spec fn sfdisk_script(dev: Seq<char>, b: FsDumpBlocks, max_data: bool) -> Seq<char> {
    let stub = part_stub(dev);
    let s = part_starts(b);
    "label : dos\n"@ + part_line(stub, 1, s[0] as nat, Some(b.boot as nat), " bootable type=e \n"@)
        + part_line(stub, 2, s[1] as nat, Some(b.root_a as nat), " type=83 \n"@) + part_line(
        stub,
        3,
        s[2] as nat,
        Some(b.root_b as nat),
        " type=83 \n"@,
    ) + part_line(
        stub,
        4,
        s[3] as nat,
        if max_data {
            None
        } else {
            Some(b.extended as nat)
        },
        " type=f \n"@,
    ) + part_line(stub, 5, s[4] as nat, Some(b.state as nat), " type=83 \n"@) + part_line(
        stub,
        6,
        s[5] as nat,
        if max_data {
            None
        } else {
            Some(b.data as nat)
        },
        " type=83 \n"@,
    )
}

fn align_up_exec(x: u64) -> (r: u64)
    requires
        x + ALIGNMENT_BLOCKS <= u64::MAX,
    ensures
        r == align_up(x as int),
        x <= r,
        (r as int) % (ALIGNMENT_BLOCKS as int) == 0,
{
    if x % ALIGNMENT_BLOCKS != 0 {
        let r = (x / ALIGNMENT_BLOCKS + 1) * ALIGNMENT_BLOCKS;
        assert(x <= r && r % 8192 == 0 && r <= x + 8192) by (nonlinear_arith)
            requires
                r == (x / 8192 + 1) * 8192,
        ;
        r
    } else {
        x
    }
}

fn push_part_line(s: &mut String, stub: &str, n: u64, start: u64, size: Option<u64>, tail: &str)
    ensures
        final(s)@ == old(s)@ + part_line(
            stub@,
            n as nat,
            start as nat,
            match size {
                Some(z) => Some(z as nat),
                None => None,
            },
            tail@,
        ),
{
    push_str(s, "device : name=");
    push_str(s, stub);
    let t = u64_to_string(n);
    push_str(s, t.as_str());
    push_str(s, ", start=");
    let t = u64_to_string(start);
    push_str(s, t.as_str());
    match size {
        Some(z) => {
            push_str(s, " size=");
            let t = u64_to_string(z);
            push_str(s, t.as_str());
        },
        None => {},
    }
    push_str(s, tail);
}

fn align_up_wide(x: u128) -> (r: u128)
    requires
        x <= 0x1_0000_0000_0000_0000_0000,
    ensures
        r == align_up(x as int),
        x <= r <= x + 8192,
{
    if x % 8192 != 0 {
        let r = (x / 8192 + 1) * 8192;
        assert(x <= r && r <= x + 8192) by (nonlinear_arith)
            requires
                r == (x / 8192 + 1) * 8192,
        ;
        r
    } else {
        x
    }
}

/// Whether the partitioning of a dump fits the arithmetic (what `partition_script` needs).
pub fn layout_fits_check(b: FsDumpBlocks) -> (r: bool)
    ensures
        r == layout_fits(b),
{
    let a: u128 = 8192;
    let max: u128 = 0xFFFF_FFFF_FFFF_FFFF;
    let s1: u128 = a;
    let s2 = align_up_wide(s1 + b.boot as u128);
    let s3 = align_up_wide(s2 + b.root_a as u128);
    let s4 = align_up_wide(s3 + b.root_b as u128);
    let s5 = s4 + a;
    let e5 = s5 + b.state as u128;
    let s6 = if e5 % a != 0 {
        (e5 / a + 2) * a
    } else {
        e5 + a
    };
    s6 + b.data as u128 <= max && s4 + b.extended as u128 <= max && s2 + b.root_a as u128 + a <= max && s3
        + b.root_b as u128 + a <= max && s1 + b.boot as u128 + a <= max && s5 + b.state as u128 + 2 * a <= max
}

/// The sfdisk script for `device`; `max_data` is the configured choice, if any.
pub fn partition_script(device: &str, blocks: FsDumpBlocks, max_data: Option<bool>) -> (r: String)
    requires
        layout_fits(blocks),
    ensures
        r@ == sfdisk_script(
            device@,
            blocks,
            match max_data {
                Some(m) => m,
                None => DEFAULT_MAX_DATA,
            },
        ),
{
    let v = chars_of(device);
    let mut stub = to_string(device);
    if v.len() > 0 && digit_char(v[v.len() - 1]) {
        push_str(&mut stub, "p");
        proof {
            reveal_strlit("p");
        }
    }
    assert(stub@ == part_stub(device@));
    let max = match max_data {
        Some(m) => m,
        None => DEFAULT_MAX_DATA,
    };
    let ghost s = part_starts(blocks);
    let s1: u64 = ALIGNMENT_BLOCKS;
    let s2 = align_up_exec(s1 + blocks.boot);
    let s3 = align_up_exec(s2 + blocks.root_a);
    let s4 = align_up_exec(s3 + blocks.root_b);
    let s5 = s4 + ALIGNMENT_BLOCKS;
    let e5 = s5 + blocks.state;
    let s6 = if e5 % ALIGNMENT_BLOCKS != 0 {
        let r = (e5 / ALIGNMENT_BLOCKS + 2) * ALIGNMENT_BLOCKS;
        assert(r <= e5 + 2 * 8192) by (nonlinear_arith)
            requires
                r == (e5 / 8192 + 2) * 8192,
        ;
        r
    } else {
        e5 + ALIGNMENT_BLOCKS
    };
    assert(s1 == s[0] && s2 == s[1] && s3 == s[2] && s4 == s[3] && s5 == s[4] && s6 == s[5]);
    let mut r = to_string("label : dos\n");
    push_part_line(&mut r, stub.as_str(), 1, s1, Some(blocks.boot), " bootable type=e \n");
    push_part_line(&mut r, stub.as_str(), 2, s2, Some(blocks.root_a), " type=83 \n");
    push_part_line(&mut r, stub.as_str(), 3, s3, Some(blocks.root_b), " type=83 \n");
    push_part_line(
        &mut r,
        stub.as_str(),
        4,
        s4,
        if max {
            None
        } else {
            Some(blocks.extended)
        },
        " type=f \n",
    );
    push_part_line(&mut r, stub.as_str(), 5, s5, Some(blocks.state), " type=83 \n");
    push_part_line(
        &mut r,
        stub.as_str(),
        6,
        s6,
        if max {
            None
        } else {
            Some(blocks.data)
        },
        " type=83 \n",
    );
    r
}

/// How a write to the disk ended (partitioning it, or writing the image to it), from whether
/// the write started and whether it completed: one that never started leaves the old system
/// intact, one that started and failed does not.
pub fn write_result(started: bool, completed: bool) -> (r: FlashResult)
    ensures
        !started ==> r == FlashResult::FailRecoverable,
        started && !completed ==> r == FlashResult::FailNonRecoverable,
        started && completed ==> r == FlashResult::Success,
{
    if !started {
        FlashResult::FailRecoverable
    } else if !completed {
        FlashResult::FailNonRecoverable
    } else {
        FlashResult::Success
    }
}

/// How flashing the image ended, from how writing it ended and whether the balena boot
/// partition mounted afterwards: without it the disk holds neither system.
pub fn flash_result(written: FlashResult, boot_mounted: bool) -> (r: FlashResult)
    ensures
        !boot_mounted ==> r == FlashResult::FailNonRecoverable,
        boot_mounted ==> r == written,
{
    if boot_mounted {
        written
    } else {
        FlashResult::FailNonRecoverable
    }
}

/// How writing the file systems of a dump to the disk ended, from the outcome of each step in
/// order: finding the commands it needs, partitioning (see `write_result`), seeing the new
/// partitions, formatting them, mounting them and unpacking the archives onto them. A step
/// counts only once the steps before it succeeded. A failure before partitioning leaves the old
/// system intact; one after it does not.
pub fn write_balena_os(
    cmds_found: bool,
    partitioned: FlashResult,
    reread: bool,
    formatted: bool,
    mounted: bool,
    written: bool,
) -> (r: FlashResult)
    ensures
        r == if !cmds_found {
            FlashResult::FailRecoverable
        } else if !(partitioned is Success) {
            partitioned
        } else if reread && formatted && mounted && written {
            FlashResult::Success
        } else {
            FlashResult::FailNonRecoverable
        },
{
    if !cmds_found {
        return FlashResult::FailRecoverable;
    }
    match partitioned {
        FlashResult::Success => {},
        _ => {
            return partitioned;
        },
    }
    if reread && formatted && mounted && written {
        FlashResult::Success
    } else {
        FlashResult::FailNonRecoverable
    }
}

/// One look at the disk after partitioning: it is taken once it shows at least
/// `num_partitions` partitions (`children` is how many it shows, `None` where it shows none);
/// else the wait ends in a timeout once more than `timeout` seconds have passed; else there is
/// another look.
pub fn part_reread_step(children: Option<usize>, num_partitions: usize, elapsed_secs: u64, timeout: u64) -> (r:
    Result<bool, MigError>)
    ensures
        (children matches Some(n) && n >= num_partitions) ==> r == Ok::<bool, MigError>(true),
        !(children matches Some(n) && n >= num_partitions) && elapsed_secs > timeout ==> r == Err::<bool, MigError>(
            MigError { kind: MigErrorKind::Timeout },
        ),
        !(children matches Some(n) && n >= num_partitions) && elapsed_secs <= timeout ==> r == Ok::<bool, MigError>(
            false,
        ),
{
    match children {
        Some(n) => {
            if n >= num_partitions {
                return Ok(true);
            }
        },
        None => {},
    }
    if elapsed_secs > timeout {
        Err(MigError::from_kind(MigErrorKind::Timeout))
    } else {
        Ok(false)
    }
}

/// The partitions lie in order without overlap, each primary and logical partition starting on
/// the alignment, and the logical ones inside the extended partition.
pub proof fn lemma_layout(b: FsDumpBlocks)
    ensures
        ({
            let s = part_starts(b);
            let a = ALIGNMENT_BLOCKS as int;
            &&& forall|i: int| 0 <= i < 6 ==> #[trigger] s[i] % a == 0
            &&& s[0] + b.boot <= s[1]
            &&& s[1] + b.root_a <= s[2]
            &&& s[2] + b.root_b <= s[3]
            &&& s[3] < s[4]
            &&& s[4] + b.state < s[5]
        }),
{
    let a = 8192int;
    let s = part_starts(b);
    assert forall|x: int| x >= 0 implies align_up(x) >= x && #[trigger] align_up(x) % a == 0 by {
        if x % a != 0 {
            assert((x / a + 1) * a >= x && ((x / a + 1) * a) % a == 0) by (nonlinear_arith)
                requires
                    a == 8192,
                    x >= 0,
            ;
        }
    }
    let e5 = s[4] + b.state;
    assert(s[3] % a == 0);
    assert((s[3] + a) % a == 0) by (nonlinear_arith)
        requires
            s[3] % a == 0,
            a == 8192,
    ;
    if e5 % a != 0 {
        assert((e5 / a + 2) * a > e5 && ((e5 / a + 2) * a) % a == 0) by (nonlinear_arith)
            requires
                a == 8192,
                e5 >= 0,
        ;
    } else {
        assert((e5 + a) % a == 0) by (nonlinear_arith)
            requires
                e5 % a == 0,
                a == 8192,
        ;
    }
    assert(s[0] % a == 0);
}

// Formatting: the partitions of the flashed disk, in order and without the extended
// partition, get the file systems of balena OS, each under its partition name.

/// Which check `mkfs` runs for bad blocks.
#[derive(Debug, Clone, Copy, PartialEq, Eq, Structural)]
pub enum PartCheck {
    NoCheck,
    ReadOnly,
    ReadWrite,
}

/// One partition to format: which of the disk's partitions, its label, and whether it gets a
/// FAT file system (else ext4).
#[derive(Debug)]
pub struct FormatStep {
    pub dev_idx: usize,
    pub label: String,
    pub is_fat: bool,
}

/// The partitions to format, from the `n`-th of the disk on with `p` names given out, as pairs
/// of the disk's partition and the number of the name it gets. With more partitions than names
/// the disk has an extended partition, number 4, which is left out.
pub open spec fn plan_from(indices: Seq<u16>, has_ext: bool, d: int, p: int) -> Seq<(int, int)>
    decreases indices.len() - d,
{
    if d < 0 || d >= indices.len() || p >= 5 {
        Seq::empty()
    } else if indices[d] == 4 && has_ext {
        plan_from(indices, has_ext, d + 1, p)
    } else {
        seq![(d, p)] + plan_from(indices, has_ext, d + 1, p + 1)
    }
}

/// The partitions to format, for a disk whose partitions have the numbers `indices`.
pub open spec fn format_plan(indices: Seq<u16>) -> Seq<(int, int)> {
    plan_from(indices, indices.len() > 5, 0, 0)
}

/// What a step of the plan stands for.
pub open spec fn step_view(s: FormatStep) -> (int, Seq<char>, bool) {
    (s.dev_idx as int, s.label@, s.is_fat)
}

proof fn lemma_plan_from(indices: Seq<u16>, has_ext: bool, d: int, p: int)
    requires
        0 <= d <= indices.len(),
        0 <= p <= 5,
    ensures
        plan_from(indices, has_ext, d, p).len() <= 5 - p,
        forall|k: int| 0 <= k < plan_from(indices, has_ext, d, p).len() ==> {
            let e = #[trigger] plan_from(indices, has_ext, d, p)[k];
            d <= e.0 < indices.len() && e.1 == p + k
        },
    decreases indices.len() - d,
{
    if d < indices.len() && p < 5 {
        if indices[d] == 4 && has_ext {
            lemma_plan_from(indices, has_ext, d + 1, p);
        } else {
            lemma_plan_from(indices, has_ext, d + 1, p + 1);
        }
    }
}

/// The formatting plan of a disk whose partitions have the numbers `indices`: the steps in
/// order, and whether all five partitions of balena OS are among them.
pub fn format_plan_for(indices: &[u16]) -> (r: (Vec<FormatStep>, bool))
    ensures
        r.0@.len() == format_plan(indices@).len(),
        forall|k: int| 0 <= k < r.0@.len() ==> step_view(#[trigger] r.0@[k]) == ({
            let e = format_plan(indices@)[k];
            (e.0, part_names()[e.1], e.1 == 0)
        }),
        r.1 == (format_plan(indices@).len() == 5),
{
    let has_ext = indices.len() > 5;
    let ghost plan = format_plan(indices@);
    let mut steps: Vec<FormatStep> = Vec::new();
    let mut d: usize = 0;
    let mut p: usize = 0;
    proof {
        lemma_plan_from(indices@, has_ext, 0, 0);
    }
    while d < indices.len() && p < 5
        invariant
            has_ext == (indices@.len() > 5),
            d <= indices@.len(),
            p <= 5,
            steps@.len() == p,
            plan == format_plan(indices@),
            plan.len() == p + plan_from(indices@, has_ext, d as int, p as int).len(),
            forall|k: int| 0 <= k < p ==> step_view(#[trigger] steps@[k]) == ({
                let e = plan[k];
                (e.0, part_names()[e.1], e.1 == 0)
            }),
            forall|k: int| 0 <= k < plan_from(indices@, has_ext, d as int, p as int).len() ==> plan[p + k]
                == #[trigger] plan_from(indices@, has_ext, d as int, p as int)[k],
        decreases indices.len() - d,
    {
        proof {
            lemma_plan_from(indices@, has_ext, d as int, p as int);
        }
        if indices[d] == 4 && has_ext {
            d = d + 1;
        } else {
            let label = crate::extract::part_name(p);
            let step = FormatStep { dev_idx: d, label, is_fat: p == 0 };
            proof {
                let rest = plan_from(indices@, has_ext, d + 1, p + 1);
                assert(plan_from(indices@, has_ext, d as int, p as int) == seq![(d as int, p as int)] + rest);
                assert(plan_from(indices@, has_ext, d as int, p as int)[0] == (d as int, p as int));
                assert(plan[p + 0] == plan_from(indices@, has_ext, d as int, p as int)[0]);
                assert forall|k: int| 0 <= k < rest.len() implies plan[p + 1 + k] == #[trigger] rest[k] by {
                    assert(plan_from(indices@, has_ext, d as int, p as int)[k + 1] == rest[k]);
                }
            }
            steps.push(step);
            d = d + 1;
            p = p + 1;
        }
    }
    proof {
        if p < 5 {
            assert(plan_from(indices@, has_ext, d as int, p as int).len() == 0);
        } else {
            lemma_plan_from(indices@, has_ext, d as int, p as int);
        }
    }
    let complete = p == 5;
    (steps, complete)
}

/// The check a partition gets: FAT file systems know no read-write check, they get the
/// read-only one.
pub fn part_check_for(is_fat: bool, check: PartCheck) -> (r: PartCheck)
    ensures
        r == if is_fat && check == PartCheck::ReadWrite { PartCheck::ReadOnly } else { check },
{
    if is_fat && check == PartCheck::ReadWrite {
        PartCheck::ReadOnly
    } else {
        check
    }
}

/// The options that `mkfs` gets for a check.
pub open spec fn check_args(check: PartCheck) -> Seq<Seq<char>> {
    match check {
        PartCheck::NoCheck => Seq::empty(),
        PartCheck::ReadOnly => seq!["-c"@],
        PartCheck::ReadWrite => seq!["-cc"@],
    }
}

/// The options of the ext4 `mkfs` before the label.
pub open spec fn ext_args(direct_io: bool) -> Seq<Seq<char>> {
    seq!["-O"@, "^64bit"@, "-E"@, "lazy_itable_init=0,lazy_journal_init=0"@, "-i"@, "8192"@, "-v"@, "-F"@, "-F"@,
        "-e"@, "remount-ro"@] + if direct_io { seq!["-D"@] } else { Seq::empty() }
}

/// The arguments of `mkfs` for a partition: `mkfs.vfat` gets the label; `mkfs.ext4` its
/// options, direct I/O where asked for, and the label; both then the check and the device.
pub open spec fn mkfs_args_of(is_fat: bool, label: Seq<char>, check: PartCheck, direct_io: bool, dev: Seq<char>) -> Seq<Seq<char>> {
    (if is_fat {
        seq!["-n"@, label]
    } else {
        ext_args(direct_io) + seq!["-L"@, label]
    }) + check_args(check) + seq![dev]
}

fn push_all(v: &mut Vec<String>, items: &[&str])
    ensures
        strings_view(final(v)@) == strings_view(old(v)@) + items@.map_values(|x: &str| x@),
{
    let mut i: usize = 0;
    let ghost start = strings_view(v@);
    while i < items.len()
        invariant
            i <= items@.len(),
            strings_view(v@) == start + items@.take(i as int).map_values(|x: &str| x@),
        decreases items.len() - i,
    {
        let ghost before = v@;
        v.push(to_string(items[i]));
        assert(strings_view(v@) =~= strings_view(before).push(items@[i as int]@));
        assert(items@.take(i + 1).map_values(|x: &str| x@) =~= items@.take(i as int).map_values(|x: &str| x@).push(
            items@[i as int]@,
        ));
        i = i + 1;
    }
    assert(items@.take(items@.len() as int) =~= items@);
}

/// The arguments of `mkfs` for a partition (see `mkfs_args_of`); the command is `mkfs.vfat`
/// for a FAT file system and `mkfs.ext4` otherwise.
pub fn mkfs_args(is_fat: bool, label: &str, check: PartCheck, direct_io: bool, dev: &str) -> (r: Vec<String>)
    ensures
        strings_view(r@) == mkfs_args_of(is_fat, label@, check, direct_io, dev@),
{
    proof {
        reveal_strlit("-n");
        reveal_strlit("-L");
        reveal_strlit("-c");
        reveal_strlit("-cc");
        reveal_strlit("-D");
        reveal_strlit("-O");
        reveal_strlit("^64bit");
        reveal_strlit("-E");
        reveal_strlit("lazy_itable_init=0,lazy_journal_init=0");
        reveal_strlit("-i");
        reveal_strlit("8192");
        reveal_strlit("-v");
        reveal_strlit("-F");
        reveal_strlit("-e");
        reveal_strlit("remount-ro");
    }
    let mut r: Vec<String> = Vec::new();
    if is_fat {
        push_all(&mut r, &["-n", label]);
    } else {
        push_all(
            &mut r,
            &["-O", "^64bit", "-E", "lazy_itable_init=0,lazy_journal_init=0", "-i", "8192", "-v", "-F", "-F", "-e", "remount-ro"],
        );
        if direct_io {
            push_all(&mut r, &["-D"]);
        }
        push_all(&mut r, &["-L", label]);
    }
    match check {
        PartCheck::NoCheck => {},
        PartCheck::ReadOnly => {
            push_all(&mut r, &["-c"]);
        },
        PartCheck::ReadWrite => {
            push_all(&mut r, &["-cc"]);
        },
    }
    push_all(&mut r, &[dev]);
    assert(strings_view(r@) =~= mkfs_args_of(is_fat, label@, check, direct_io, dev@));
    r
}

} // verus!
