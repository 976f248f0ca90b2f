use vstd::prelude::*;
use crate::defs::{FileType, MigError, MigErrorKind};
use crate::file_type::{file_type_matches, is_file_type};
use crate::text::to_string;

verus! {

// A balena OS image is taken apart partition by partition. Its partition tables are master
// boot records: 512 byte blocks with four 16 byte entries from byte 446 on and the signature
// 0x55 0xAA at the end. An extended partition points to the next table, which counts its
// entries from its own block.

/// The block size of the image.
pub const DEF_BLOCK_SIZE: usize = 512;

/// The names of the partitions of a balena OS image, in order.
pub open spec fn part_names() -> Seq<Seq<char>> {
    seq!["resin-boot"@, "resin-rootA"@, "resin-rootB"@, "resin-state"@, "resin-data"@]
}

/// The file system types of the partitions, in order.
pub open spec fn part_fstypes() -> Seq<Seq<char>> {
    seq!["vfat"@, "ext4"@, "ext4"@, "ext4"@, "ext4"@]
}

/// A partition of the image.
#[derive(Debug)]
pub struct Partition {
    pub name: String,
    pub fstype: String,
    pub ptype: u8,
    pub status: u8,
    pub start_lba: u64,
    pub num_sectors: u64,
}

/// What a partition of the image is.
pub struct PartitionView {
    pub name: Seq<char>,
    pub fstype: Seq<char>,
    pub ptype: u8,
    pub status: u8,
    pub start_lba: int,
    pub num_sectors: int,
}

impl View for Partition {
    type V = PartitionView;

    open spec fn view(&self) -> PartitionView {
        PartitionView {
            name: self.name@,
            fstype: self.fstype@,
            ptype: self.ptype,
            status: self.status,
            start_lba: self.start_lba as int,
            num_sectors: self.num_sectors as int,
        }
    }
}

/// The views of a list of partitions.
pub open spec fn parts_view(v: Seq<Partition>) -> Seq<PartitionView> {
    v.map_values(|p: Partition| p@)
}

/// The little-endian 32 bit number at byte `o` of `b`.
pub open spec fn le32(b: Seq<u8>, o: int) -> int {
    b[o] + 256 * b[o + 1] + 65536 * b[o + 2] + 16777216 * b[o + 3]
}

/// Where entry `k` of a table starts.
pub open spec fn entry_at(k: int) -> int {
    446 + 16 * k
}

/// The block carries the signature of a partition table.
pub open spec fn sig_ok(b: Seq<u8>) -> bool {
    b[510] == 0x55 && b[511] == 0xAA
}

/// An entry of the extended partition type (`0x05` or `0x0F`).
pub open spec fn is_extended(ptype: u8) -> bool {
    ptype == 0x0F || ptype == 0x05
}

/// The partitions that the entries of a table from entry `k` on add to a list of `n`
/// partitions, and the start of the next table, if an extended partition points to one. The
/// entries are read up to the first empty one, the first extended one, or five partitions.
pub open spec fn tbl_from(offset: int, b: Seq<u8>, k: int, n: int) -> (Seq<PartitionView>, Option<int>)
    decreases 4 - k,
{
    if k < 0 || k >= 4 || n < 0 || n >= 5 || le32(b, entry_at(k) + 12) == 0 {
        (Seq::empty(), None)
    } else if is_extended(b[entry_at(k) + 4]) {
        (Seq::empty(), Some(offset + le32(b, entry_at(k) + 8)))
    } else {
        let p = PartitionView {
            name: part_names()[n],
            fstype: part_fstypes()[n],
            ptype: b[entry_at(k) + 4],
            status: b[entry_at(k)],
            start_lba: offset + le32(b, entry_at(k) + 8),
            num_sectors: le32(b, entry_at(k) + 12),
        };
        let rest = tbl_from(offset, b, k + 1, n + 1);
        (seq![p] + rest.0, rest.1)
    }
}

/// The starts that reading the table from entry `k` on computes fit in 64 bits.
pub open spec fn tbl_fits(offset: int, b: Seq<u8>, k: int, n: int) -> bool
    decreases 4 - k,
{
    if k < 0 || k >= 4 || n < 0 || n >= 5 || le32(b, entry_at(k) + 12) == 0 {
        true
    } else {
        offset + le32(b, entry_at(k) + 8) <= u64::MAX && (is_extended(b[entry_at(k) + 4]) || tbl_fits(
            offset,
            b,
            k + 1,
            n + 1,
        ))
    }
}

fn le32_exec(b: &[u8], o: usize) -> (r: u64)
    requires
        o + 4 <= b@.len(),
    ensures
        r == le32(b@, o as int),
        r <= 0xFFFF_FFFF,
{
    b[o] as u64 + 256 * (b[o + 1] as u64) + 65536 * (b[o + 2] as u64) + 16777216 * (b[o + 3] as u64)
}

/// The name of the partition at position `n` of an image.
pub fn part_name(n: usize) -> (r: String)
    requires
        n < 5,
    ensures
        r@ == part_names()[n as int],
{
    if n == 0 {
        to_string("resin-boot")
    } else if n == 1 {
        to_string("resin-rootA")
    } else if n == 2 {
        to_string("resin-rootB")
    } else if n == 3 {
        to_string("resin-state")
    } else {
        to_string("resin-data")
    }
}

fn part_fstype(n: usize) -> (r: String)
    requires
        n < 5,
    ensures
        r@ == part_fstypes()[n as int],
{
    if n == 0 {
        to_string("vfat")
    } else {
        to_string("ext4")
    }
}

/// Whether `read_part_tbl` takes a block at `offset` for a list of `count` partitions: a block
/// of the block size whose starts fit in 64 bits where it carries a table.
pub fn part_tbl_fits(offset: u64, block: &[u8], count: usize) -> (r: bool)
    ensures
        r == (block@.len() == DEF_BLOCK_SIZE && (sig_ok(block@) ==> tbl_fits(offset as int, block@, 0, count as int))),
{
    if block.len() != DEF_BLOCK_SIZE {
        return false;
    }
    if !(block[510] == 0x55 && block[511] == 0xAA) {
        return true;
    }
    let mut k: usize = 4;
    let mut fits = true;
    // `fits` is whether the entries from `k` on fit, for the count they are read with
    while k > 0
        invariant
            block@.len() == 512,
            k <= 4,
            fits == tbl_fits(offset as int, block@, k as int, count + k),
        decreases k,
    {
        let j = k - 1;
        let o = 446 + 16 * j;
        let n = count as u128 + j as u128;
        if n >= 5 || le32_exec(block, o + 12) == 0 {
            fits = true;
        } else {
            let start = offset as u128 + le32_exec(block, o + 8) as u128;
            let ext = block[o + 4] == 0x0F || block[o + 4] == 0x05;
            fits = start <= 0xFFFF_FFFF_FFFF_FFFF && (ext || fits);
        }
        k = j;
    }
    fits
}

/// Reads the partition table in `block`, the block at `offset` of the image, into `table`:
/// gives the offset of the next table where an extended partition points to one.
pub fn read_part_tbl(offset: u64, block: &[u8], table: &mut Vec<Partition>) -> (r: Result<Option<u64>, MigError>)
    requires
        block@.len() == DEF_BLOCK_SIZE,
        sig_ok(block@) ==> tbl_fits(offset as int, block@, 0, old(table)@.len() as int),
    ensures
        !sig_ok(block@) ==> r == Err::<Option<u64>, MigError>(MigError { kind: MigErrorKind::InvParam })
            && final(table)@ == old(table)@,
        sig_ok(block@) ==> ({
            let (added, next) = tbl_from(offset as int, block@, 0, old(table)@.len() as int);
            &&& parts_view(final(table)@) == parts_view(old(table)@) + added
            &&& r matches Ok(nx) && match nx {
                Some(o) => next == Some(o as int),
                None => next is None,
            }
        }),
{
    if !(block[510] == 0x55 && block[511] == 0xAA) {
        return Err(MigError::from_kind(MigErrorKind::InvParam));
    }
    let ghost n0 = table@.len() as int;
    let ghost old_view = parts_view(table@);
    let mut k: usize = 0;
    while k < 4
        invariant
            block@.len() == 512,
            sig_ok(block@),
            k <= 4,
            n0 == old(table)@.len(),
            old_view == parts_view(old(table)@),
            table@.len() == n0 + k,
            tbl_fits(offset as int, block@, k as int, n0 + k),
            tbl_from(offset as int, block@, 0, n0) == ({
                let rest = tbl_from(offset as int, block@, k as int, n0 + k);
                (parts_view(table@).skip(n0) + rest.0, rest.1)
            }),
            parts_view(table@).take(n0) == old_view,
        decreases 4 - k,
    {
        let o = 446 + 16 * k;
        let n = table.len();
        let sectors = le32_exec(block, o + 12);
        if n >= 5 || sectors == 0 {
            assert(parts_view(table@) =~= old_view + parts_view(table@).skip(n0));
            return Ok(None);
        }
        let lba = le32_exec(block, o + 8);
        let ptype = block[o + 4];
        if ptype == 0x0F || ptype == 0x05 {
            assert(parts_view(table@) =~= old_view + parts_view(table@).skip(n0));
            return Ok(Some(offset + lba));
        }
        let ghost before = table@;
        let p = Partition {
            name: part_name(n),
            fstype: part_fstype(n),
            ptype,
            status: block[o],
            start_lba: offset + lba,
            num_sectors: sectors,
        };
        table.push(p);
        proof {
            assert(parts_view(table@) =~= parts_view(before).push(table@[n as int]@));
            assert(parts_view(table@).skip(n0) =~= parts_view(before).skip(n0).push(table@[n as int]@));
            assert(parts_view(table@).take(n0) =~= parts_view(before).take(n0));
        }
        k = k + 1;
    }
    assert(parts_view(table@) =~= old_view + parts_view(table@).skip(n0));
    Ok(None)
}

/// The sector counts of the five partitions of an image, in order; another number of
/// partitions is an error, already reported.
pub fn dump_blocks(parts: &Vec<Partition>) -> (r: Result<Vec<u64>, MigError>)
    ensures
        parts@.len() == 5 ==> (r matches Ok(v) && v@.len() == 5 && forall|i: int| 0 <= i < 5 ==> v@[i] == parts@[i].num_sectors),
        parts@.len() != 5 ==> r == Err::<Vec<u64>, MigError>(MigError { kind: MigErrorKind::Displayed }),
{
    if parts.len() != 5 {
        return Err(MigError::displayed());
    }
    let mut v: Vec<u64> = Vec::new();
    let mut i: usize = 0;
    while i < 5
        invariant
            parts@.len() == 5,
            i <= 5,
            v@.len() == i,
            forall|j: int| 0 <= j < i ==> v@[j] == parts@[j].num_sectors,
        decreases 5 - i,
    {
        v.push(parts[i].num_sectors);
        i = i + 1;
    }
    Ok(v)
}

/// An image about to be taken apart: where it is, and whether it is read through gzip.
#[derive(Debug)]
pub struct Extractor {
    pub image_path: String,
    pub gzipped: bool,
}

impl Extractor {
    /// What taking an image apart starts from. The commands it needs must have been found, the
    /// configured image must be a flasher image (`image` is `None` for one that was taken apart
    /// already) and exist, and `file -bz` (its success and trimmed output) must describe it as
    /// a gzipped or a plain disk image; each refusal has been reported.
    pub fn new(cmds_found: bool, image: Option<&str>, found: bool, file_success: bool, file_stdout: &str) -> (r:
        Result<Extractor, MigError>)
        ensures
            !cmds_found || image is None || !found ==> r == Err::<Extractor, MigError>(MigError { kind: MigErrorKind::Displayed }),
            cmds_found && image is Some && found ==> if !file_success || file_stdout@.len() == 0 {
                r == Err::<Extractor, MigError>(MigError { kind: MigErrorKind::InvParam })
            } else if file_type_matches(FileType::GZipOSImage, file_stdout@) {
                r matches Ok(e) && e.image_path@ == image->0@ && e.gzipped
            } else if file_type_matches(FileType::OSImage, file_stdout@) {
                r matches Ok(e) && e.image_path@ == image->0@ && !e.gzipped
            } else {
                r == Err::<Extractor, MigError>(MigError { kind: MigErrorKind::Displayed })
            },
    {
        if !cmds_found {
            return Err(MigError::displayed());
        }
        let path = match image {
            None => {
                return Err(MigError::displayed());
            },
            Some(p) => p,
        };
        if !found {
            return Err(MigError::displayed());
        }
        match is_file_type(FileType::GZipOSImage, file_success, file_stdout) {
            Err(e) => Err(e),
            Ok(true) => Ok(Extractor { image_path: to_string(path), gzipped: true }),
            Ok(false) => match is_file_type(FileType::OSImage, file_success, file_stdout) {
                Err(e) => Err(e),
                Ok(true) => Ok(Extractor { image_path: to_string(path), gzipped: false }),
                Ok(false) => Err(MigError::displayed()),
            },
        }
    }
}

} // verus!
