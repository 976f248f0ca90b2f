use vstd::prelude::*;
use crate::defs::{FileType, MigError, MigErrorKind};
use crate::text::{chars_of, starts_at, starts_at_exec, str_eq};

verus! {

// The type of a file is told by the description that `file -bz` gives of it. Each type has
// patterns for that description: a description that starts with a given text and stays on
// one line (`^text.*$`); one that, in addition, mentions gzip compressed data in parentheses at
// its end (`^text.*\(gzip compressed data.*\)$`); or one that is exactly a given text.

/// What names the gzip compression in a description.
pub open spec fn gzip_mark() -> Seq<char> {
    "(gzip compressed data"@
}

/// `s` holds no line feed from position `i` on.
pub open spec fn one_line_from(s: Seq<char>, i: int) -> bool {
    forall|k: int| i <= k < s.len() ==> s[k] != '\n'
}

/// `s` starts with `p` and stays on one line (`^p.*$`).
pub open spec fn leads(s: Seq<char>, p: Seq<char>) -> bool {
    starts_at(s, 0, p) && one_line_from(s, p.len() as int)
}

/// `s` starts with `p`, stays on one line, and ends in a parenthesis that closes a mention of
/// gzip compressed data (`^p.*\(gzip compressed data.*\)$`).
pub open spec fn leads_gzip(s: Seq<char>, p: Seq<char>) -> bool {
    &&& leads(s, p)
    &&& s.len() > 0
    &&& s.last() == ')'
    &&& exists|k: int| p.len() <= k && k + gzip_mark().len() <= s.len() - 1 && #[trigger] starts_at(s, k, gzip_mark())
}

/// Whether a description of `file -bz` fits a file type.
pub open spec fn file_type_matches(ftype: FileType, s: Seq<char>) -> bool {
    match ftype {
        FileType::GZipOSImage => leads_gzip(s, "DOS/MBR boot sector"@) || leads_gzip(s, "x86 boot sector"@),
        FileType::OSImage => s == "DOS/MBR boot sector"@ || s == "x86 boot sector"@,
        FileType::InitRD => leads_gzip(s, "ASCII cpio archive"@),
        FileType::KernelARMHF => leads(s, "Linux kernel ARM boot executable zImage"@),
        FileType::KernelAMD64 => leads(s, "Linux kernel x86 boot executable bzImage"@) || leads(s, "x86 boot sector"@),
        FileType::KernelI386 => leads(s, "Linux kernel i386 boot executable bzImage"@),
        FileType::KernelAARCH64 => leads(s, "MS-DOS executable"@),
        FileType::Json => leads(s, "ASCII text"@) || leads(s, "JSON data"@),
        FileType::Text => leads(s, "ASCII text"@),
        FileType::DTB => leads(s, "Device Tree Blob"@) || leads(s, "data"@),
        FileType::GZipTar => leads_gzip(s, "POSIX tar archive (GNU)"@),
    }
}

fn one_line_exec(v: &[char], i: usize) -> (r: bool)
    ensures
        r == one_line_from(v@, i as int),
{
    let mut k = i;
    while k < v.len()
        invariant
            i <= k,
            forall|t: int| i <= t < k && t < v@.len() ==> v@[t] != '\n',
        decreases v.len() - k,
    {
        if v[k] == '\n' {
            return false;
        }
        k = k + 1;
    }
    true
}

fn leads_exec(v: &[char], p: &str) -> (r: bool)
    ensures
        r == leads(v@, p@),
{
    let pv = chars_of(p);
    starts_at_exec(v, 0, pv.as_slice()) && one_line_exec(v, pv.len())
}

fn leads_gzip_exec(v: &[char], p: &str) -> (r: bool)
    ensures
        r == leads_gzip(v@, p@),
{
    proof {
        reveal_strlit("(gzip compressed data");
    }
    let pv = chars_of(p);
    let mark = chars_of("(gzip compressed data");
    if !(starts_at_exec(v, 0, pv.as_slice()) && one_line_exec(v, pv.len()) && v.len() > 0 && v[v.len() - 1]
        == ')') {
        return false;
    }
    if v.len() - 1 < mark.len() {
        return false;
    }
    let n = v.len();
    let last = n - 1 - mark.len();
    let mut k = pv.len();
    while k <= last
        invariant
            n == v@.len(),
            leads(v@, p@),
            v@.len() > 0,
            v@.last() == ')',
            mark@ == gzip_mark(),
            last + mark@.len() == v@.len() - 1,
            pv@ == p@,
            pv@.len() <= k,
            forall|j: int| pv@.len() <= j < k ==> !#[trigger] starts_at(v@, j, gzip_mark()),
        decreases last + 1 - k,
    {
        if starts_at_exec(v, k, mark.as_slice()) {
            return true;
        }
        k = k + 1;
    }
    false
}

/// Whether a file is of a type, from the success and trimmed output of `file -bz <file>`: a
/// failed call or an empty description is an error.
pub fn is_file_type(ftype: FileType, success: bool, stdout: &str) -> (r: Result<bool, MigError>)
    ensures
        !success || stdout@.len() == 0 ==> r == Err::<bool, MigError>(MigError { kind: MigErrorKind::InvParam }),
        success && stdout@.len() > 0 ==> r == Ok::<bool, MigError>(file_type_matches(ftype, stdout@)),
{
    if !success || stdout.is_empty() {
        return Err(MigError::from_kind(MigErrorKind::InvParam));
    }
    let v = chars_of(stdout);
    let s = v.as_slice();
    let m = match ftype {
        FileType::GZipOSImage => leads_gzip_exec(s, "DOS/MBR boot sector") || leads_gzip_exec(s, "x86 boot sector"),
        FileType::OSImage => str_eq(stdout, "DOS/MBR boot sector") || str_eq(stdout, "x86 boot sector"),
        FileType::InitRD => leads_gzip_exec(s, "ASCII cpio archive"),
        FileType::KernelARMHF => leads_exec(s, "Linux kernel ARM boot executable zImage"),
        FileType::KernelAMD64 => leads_exec(s, "Linux kernel x86 boot executable bzImage") || leads_exec(
            s,
            "x86 boot sector",
        ),
        FileType::KernelI386 => leads_exec(s, "Linux kernel i386 boot executable bzImage"),
        FileType::KernelAARCH64 => leads_exec(s, "MS-DOS executable"),
        FileType::Json => leads_exec(s, "ASCII text") || leads_exec(s, "JSON data"),
        FileType::Text => leads_exec(s, "ASCII text"),
        FileType::DTB => leads_exec(s, "Device Tree Blob") || leads_exec(s, "data"),
        FileType::GZipTar => leads_gzip_exec(s, "POSIX tar archive (GNU)"),
    };
    Ok(m)
}

/// A file must be of a type: an error, already reported, when it is not.
pub fn expect_type(ftype: FileType, success: bool, stdout: &str) -> (r: Result<(), MigError>)
    ensures
        !success || stdout@.len() == 0 ==> r == Err::<(), MigError>(MigError { kind: MigErrorKind::InvParam }),
        success && stdout@.len() > 0 && file_type_matches(ftype, stdout@) ==> r == Ok::<(), MigError>(()),
        success && stdout@.len() > 0 && !file_type_matches(ftype, stdout@) ==> r == Err::<(), MigError>(
            MigError { kind: MigErrorKind::Displayed },
        ),
{
    match is_file_type(ftype, success, stdout) {
        Err(e) => Err(e),
        Ok(false) => Err(MigError::displayed()),
        Ok(true) => Ok(()),
    }
}

} // verus!
