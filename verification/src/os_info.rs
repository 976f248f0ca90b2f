use vstd::prelude::*;
use crate::defs::{MigError, MigErrorKind, OSArch};
use crate::disk_info::lsblk_list::{lsblk_list, supported_devs};
use crate::disk_info::{LsblkDevice, LsblkDeviceView, LsblkInfo, LsblkPartition};
use crate::ensured_cmds::{cmd_path, ensure_all, opt_strings_view, some_missing, strs_view, EnsuredCmds};
use crate::lsblk_info::partition::dev_path;
use crate::lsblk_info::result_params::opt_view;
use crate::path_info::PathInfo;
use crate::paths::path_join;
use crate::lsblk_info::parse::{lemma_run_ws, run_ws, run_ws_exec};
use crate::lsblk_info::{lemma_run_digits_pub, run_digits};
use crate::num::{parse_u64, parse_uint};
use crate::text::{
    chars_of, digit_char, is_ws, lines, starts_at, starts_at_exec, strings_view, string_from_chars, text_lines,
    to_string, ws_char,
};

verus! {

/// What the first stage learns of the disk it migrates.
#[derive(Debug)]
pub struct DiskInfo {
    pub disk_dev: String,
    pub disk_size: u64,
    pub disk_uuid: String,
    pub root_path: Option<PathInfo>,
    pub boot_path: Option<PathInfo>,
    pub efi_path: Option<PathInfo>,
    pub work_path: Option<PathInfo>,
}

impl DiskInfo {
    /// Nothing known yet.
    pub fn default() -> (r: DiskInfo)
        ensures
            r.disk_dev@.len() == 0,
            r.disk_size == 0,
            r.disk_uuid@.len() == 0,
            r.root_path is None,
            r.boot_path is None,
            r.efi_path is None,
            r.work_path is None,
    {
        DiskInfo {
            disk_dev: String::new(),
            disk_size: 0,
            disk_uuid: String::new(),
            root_path: None,
            boot_path: None,
            efi_path: None,
            work_path: None,
        }
    }
}

/// What the first stage learns of the system; the release and the image are held as the text
/// that names them.
#[derive(Debug)]
pub struct SysInfo {
    pub os_name: Option<String>,
    pub os_release: Option<String>,
    pub os_arch: Option<OSArch>,
    pub efi_boot: Option<bool>,
    pub secure_boot: Option<bool>,
    pub disk_info: Option<DiskInfo>,
    pub image_info: Option<String>,
}

impl SysInfo {
    /// Nothing known yet.
    pub fn default() -> (r: SysInfo)
        ensures
            r.os_name is None,
            r.os_release is None,
            r.os_arch is None,
            r.efi_boot is None,
            r.secure_boot is None,
            r.disk_info is None,
            r.image_info is None,
    {
        SysInfo {
            os_name: None,
            os_release: None,
            os_arch: None,
            efi_boot: None,
            secure_boot: None,
            disk_info: None,
            image_info: None,
        }
    }
}

/// The operating system's name in an `os-release` line (the pattern `^PRETTY_NAME="([^"]+)"$`).
pub open spec fn pretty_name_of(line: Seq<char>) -> Option<Seq<char>> {
    if line.len() > 14 && starts_at(line, 0, "PRETTY_NAME=\""@) && line.last() == '"' && (forall|i: int|
        13 <= i < line.len() - 1 ==> line[i] != '"') {
        Some(line.subrange(13, line.len() - 1))
    } else {
        None
    }
}

/// The name stated by the first line of `ls` that states one.
pub open spec fn first_pretty_name(ls: Seq<Seq<char>>) -> Option<Seq<char>>
    decreases ls.len(),
{
    if ls.len() == 0 {
        None
    } else {
        match pretty_name_of(ls[0]) {
            Some(n) => Some(n),
            None => first_pretty_name(ls.skip(1)),
        }
    }
}

/// The operating system's name from the text of `/etc/os-release`.
pub fn os_name_from_release(text: &str) -> (r: Result<String, MigError>)
    ensures
        match first_pretty_name(text_lines(text@)) {
            Some(n) => r matches Ok(s) && s@ == n,
            None => r == Err::<String, MigError>(MigError { kind: MigErrorKind::NotFound }),
        },
{
    proof {
        reveal_strlit("PRETTY_NAME=\"");
    }
    let ls = lines(text);
    let key = chars_of("PRETTY_NAME=\"");
    let mut i: usize = 0;
    assert(strings_view(ls@).skip(0) =~= strings_view(ls@));
    while i < ls.len()
        invariant
            i <= ls@.len(),
            key@ == "PRETTY_NAME=\""@,
            key@.len() == 13,
            strings_view(ls@) == text_lines(text@),
            first_pretty_name(strings_view(ls@).skip(i as int)) == first_pretty_name(text_lines(text@)),
        decreases ls.len() - i,
    {
        let line = chars_of(ls[i].as_str());
        assert(strings_view(ls@).skip(i as int)[0] == line@);
        assert(strings_view(ls@).skip(i as int).skip(1) =~= strings_view(ls@).skip(i + 1));
        let n = line.len();
        if n > 14 && starts_at_exec(line.as_slice(), 0, key.as_slice()) && line[n - 1] == '"' {
            let mut k: usize = 13;
            let mut ok = true;
            while k < n - 1
                invariant
                    13 <= k <= n - 1,
                    n == line@.len(),
                    ok == (forall|j: int| 13 <= j < k ==> line@[j] != '"'),
                decreases n - 1 - k,
            {
                if line[k] == '"' {
                    ok = false;
                }
                k = k + 1;
            }
            if ok {
                return Ok(string_from_chars(line.as_slice(), 13, n - 1));
            }
        }
        i = i + 1;
    }
    Err(MigError::from_kind(MigErrorKind::NotFound))
}

/// What the operating system information is set up from: the required commands found and the
/// supported disks that `lsblk` lists.
pub open spec fn os_info_result(
    cmds: Seq<Seq<char>>,
    found: Seq<Option<Seq<char>>>,
    lsblk_success: bool,
    lsblk_out: Seq<char>,
) -> Result<Seq<LsblkDeviceView>, MigErrorKind> {
    let empty = Seq::<(Seq<char>, Seq<char>)>::empty();
    if some_missing(empty, cmds, found) {
        Err(MigErrorKind::NotFound)
    } else if cmd_path(ensure_all(empty, cmds, found, cmds.len() as int), "lsblk"@) is None {
        Err(MigErrorKind::InvParam)
    } else if !lsblk_success {
        Err(MigErrorKind::ExecProcess)
    } else {
        match lsblk_list(lsblk_out) {
            Err(k) => Err(k),
            Ok(ds) => Ok(supported_devs(ds)),
        }
    }
}

/// The operating system information of a Linux host: its checked commands and its disks.
#[derive(Debug)]
pub struct LinuxOSInfo {
    pub cmds: EnsuredCmds,
    pub lsblk_info: LsblkInfo,
}

impl LinuxOSInfo {
    /// Sets up from the required commands, what the search for each of them found, and the
    /// success and output of `lsblk` (which must be among the commands found).
    pub fn new(req_cmds: &[&str], found: &[Option<String>], lsblk_success: bool, lsblk_out: &str) -> (r:
        Result<LinuxOSInfo, MigError>)
        requires
            found@.len() == req_cmds@.len(),
        ensures
            match os_info_result(strs_view(req_cmds@), opt_strings_view(found@), lsblk_success, lsblk_out@) {
                Ok(ds) => r matches Ok(info) && info.lsblk_info@ == ds && info.cmds@ == ensure_all(
                    Seq::empty(),
                    strs_view(req_cmds@),
                    opt_strings_view(found@),
                    req_cmds@.len() as int,
                ),
                Err(k) => r == Err::<LinuxOSInfo, MigError>(MigError { kind: k }),
            },
    {
        let mut cmds = EnsuredCmds::new();
        if let Err(e) = cmds.ensure_cmds(req_cmds, found) {
            return Err(e);
        }
        if let Err(e) = cmds.get("lsblk") {
            return Err(e);
        }
        match LsblkInfo::all(lsblk_success, lsblk_out) {
            Ok(lsblk_info) => Ok(LinuxOSInfo { cmds, lsblk_info }),
            Err(e) => Err(e),
        }
    }
}

/// Where a path lies, as the operating system information reports it.
#[derive(Debug)]
pub struct LinuxPathInfo {
    pub abs_path: String,
    pub drive: String,
    pub partition: String,
    pub mountpoint: String,
    pub drive_size: u64,
    pub fs_type: String,
    pub fs_size: u64,
    pub fs_free: u64,
    pub uuid: Option<String>,
    pub part_uuid: Option<String>,
    pub label: Option<String>,
}

fn clone_opt(o: &Option<String>) -> (r: Option<String>)
    ensures
        opt_view(r) == opt_view(*o),
{
    match o {
        Some(s) => Some(to_string(s.as_str())),
        None => None,
    }
}

impl LinuxPathInfo {
    /// The path information of `abs_path` that lies on `partition` of `drive`, with the size and
    /// free space of its file system; the partition must be mounted and typed, the drive sized.
    pub fn from_parts(
        abs_path: &str,
        drive: &LsblkDevice,
        partition: &LsblkPartition,
        fs_space: Result<(u64, u64), MigError>,
    ) -> (r: Result<LinuxPathInfo, MigError>)
        ensures
            fs_space is Err ==> r == Err::<LinuxPathInfo, MigError>(fs_space->Err_0),
            fs_space is Ok && (partition.mountpoint is None || drive.size is None || partition.fstype is None)
                ==> r == Err::<LinuxPathInfo, MigError>(MigError { kind: MigErrorKind::Displayed }),
            fs_space is Ok && !(partition.mountpoint is None || drive.size is None || partition.fstype is None)
                ==> (r matches Ok(pi) && {
                &&& pi.abs_path@ == abs_path@
                &&& pi.drive@ == dev_path(drive.name@)
                &&& pi.partition@ == path_join("/dev"@, partition.name@)
                &&& pi.mountpoint@ == partition@.mountpoint->0
                &&& pi.drive_size == drive.size->0
                &&& pi.fs_type@ == partition@.fstype->0
                &&& pi.fs_size == fs_space->Ok_0.0
                &&& pi.fs_free == fs_space->Ok_0.1
                &&& opt_view(pi.uuid) == partition@.uuid
                &&& opt_view(pi.part_uuid) == partition@.partuuid
                &&& opt_view(pi.label) == partition@.label
            }),
    {
        let (fs_size, fs_free) = match fs_space {
            Ok(s) => s,
            Err(e) => {
                return Err(e);
            },
        };
        let mountpoint = match &partition.mountpoint {
            Some(m) => to_string(m.as_str()),
            None => {
                return Err(MigError::displayed());
            },
        };
        let drive_size = match drive.size {
            Some(s) => s,
            None => {
                return Err(MigError::displayed());
            },
        };
        let fs_type = match &partition.fstype {
            Some(t) => to_string(t.as_str()),
            None => {
                return Err(MigError::displayed());
            },
        };
        Ok(
            LinuxPathInfo {
                abs_path: to_string(abs_path),
                drive: drive.get_path(),
                partition: partition.get_path(),
                mountpoint,
                drive_size,
                fs_type,
                fs_size,
                fs_free,
                uuid: clone_opt(&partition.uuid),
                part_uuid: clone_opt(&partition.partuuid),
                label: clone_opt(&partition.label),
            },
        )
    }

    /// The path.
    pub fn get_path(&self) -> (r: &str)
        ensures
            r@ == self.abs_path@,
    {
        self.abs_path.as_str()
    }

    /// The drive the path lies on.
    pub fn get_drive(&self) -> (r: &str)
        ensures
            r@ == self.drive@,
    {
        self.drive.as_str()
    }

    /// The partition the path lies on.
    pub fn get_partition(&self) -> (r: &str)
        ensures
            r@ == self.partition@,
    {
        self.partition.as_str()
    }

    /// The free space of the file system.
    pub fn get_fs_free(&self) -> (r: u64)
        ensures
            r == self.fs_free,
    {
        self.fs_free
    }
}

/// The drives that `/boot`, `/boot/efi` (where there is one) and `/` lie on must be one: a
/// missing boot or root file system is an invalid state, another drive an invalid layout.
pub fn check_disk_layout(boot_drive: Option<&str>, efi_drive: Option<&str>, root_drive: Option<&str>) -> (r: Result<(), MigError>)
    ensures
        boot_drive is None ==> r == Err::<(), MigError>(MigError { kind: MigErrorKind::InvState }),
        boot_drive is Some && root_drive is None ==> r == Err::<(), MigError>(MigError { kind: MigErrorKind::InvState }),
        boot_drive is Some && root_drive is Some ==> ({
            let root = root_drive->0@;
            if boot_drive->0@ != root || (efi_drive matches Some(e) && e@ != root) {
                r == Err::<(), MigError>(MigError { kind: MigErrorKind::InvParam })
            } else {
                r == Ok::<(), MigError>(())
            }
        }),
{
    let boot = match boot_drive {
        None => {
            return Err(MigError::from_kind(MigErrorKind::InvState));
        },
        Some(b) => b,
    };
    let root = match root_drive {
        None => {
            return Err(MigError::from_kind(MigErrorKind::InvState));
        },
        Some(r) => r,
    };
    if !crate::text::str_eq(boot, root) {
        return Err(MigError::from_kind(MigErrorKind::InvParam));
    }
    match efi_drive {
        Some(e) => {
            if !crate::text::str_eq(e, root) {
                return Err(MigError::from_kind(MigErrorKind::InvParam));
            }
        },
        None => {},
    }
    Ok(())
}

// The second line of `lsblk -b --output=SIZE,UUID <drive>` is read with the pattern
// `^(\d+)(\s+(.*))?$`: a size in digits, then, after whitespace, the UUID.

/// The size digits of a line and what follows them, where the line has that shape.
pub open spec fn disk_line(l: Seq<char>) -> Option<(Seq<char>, Option<Seq<char>>)> {
    let e = run_digits(l, 0);
    if e > 0 && (e == l.len() || is_ws(l[e])) {
        Some((l.take(e), if e < l.len() { Some(l.skip(run_ws(l, e))) } else { None }))
    } else {
        None
    }
}

/// The size and UUID of a drive from `lsblk` output: none where its second line does not have
/// the expected shape; an error where there is no second line.
pub open spec fn disk_attrs_of(out: Seq<char>) -> Result<Option<(Seq<char>, Option<Seq<char>>)>, MigErrorKind> {
    let ls = text_lines(out);
    if ls.len() < 2 {
        Err(MigErrorKind::InvParam)
    } else {
        Ok(disk_line(ls[1]))
    }
}

/// The size digits of a well-formed line make a number (the computation takes no other).
pub open spec fn disk_attrs_fit(out: Seq<char>) -> bool {
    match disk_attrs_of(out) {
        Ok(Some((d, _))) => parse_uint(d, u64::MAX as nat) is Some,
        _ => true,
    }
}

fn disk_line_exec(l: &str) -> (r: Option<(String, Option<String>)>)
    ensures
        match r {
            Some((d, u)) => disk_line(l@) == Some((d@, opt_view(u))),
            None => disk_line(l@) is None,
        },
{
    let v = chars_of(l);
    let mut e: usize = 0;
    while e < v.len() && digit_char(v[e])
        invariant
            e <= v@.len(),
            run_digits(v@, e as int) == run_digits(v@, 0),
        decreases v.len() - e,
    {
        e = e + 1;
    }
    if e > 0 && (e == v.len() || ws_char(v[e])) {
        let d = string_from_chars(v.as_slice(), 0, e);
        assert(v@.subrange(0, e as int) =~= v@.take(e as int));
        if e < v.len() {
            let w = run_ws_exec(v.as_slice(), e);
            proof {
                lemma_run_ws(v@, e as int);
            }
            let u = string_from_chars(v.as_slice(), w, v.len());
            assert(v@.subrange(w as int, v@.len() as int) =~= v@.skip(w as int));
            Some((d, Some(u)))
        } else {
            Some((d, None))
        }
    } else {
        None
    }
}

/// Whether `disk_attrs` takes an output (see `disk_attrs_fit`).
pub fn disk_attrs_check(stdout: &str) -> (r: bool)
    ensures
        r == disk_attrs_fit(stdout@),
{
    let ls = lines(stdout);
    if ls.len() < 2 {
        return true;
    }
    assert(strings_view(ls@)[1] == ls@[1]@);
    match disk_line_exec(ls[1].as_str()) {
        None => true,
        Some((d, _)) => parse_u64(d.as_str()).is_some(),
    }
}

/// The size and UUID of the migrated drive from the result of
/// `lsblk -b --output=SIZE,UUID <drive>` (its success and its trimmed output); a second line
/// of another shape leaves the size 0 and the UUID empty.
pub fn disk_attrs(success: bool, stdout: &str) -> (r: Result<(u64, String), MigError>)
    requires
        success ==> disk_attrs_fit(stdout@),
    ensures
        !success || stdout@.len() == 0 ==> r == Err::<(u64, String), MigError>(MigError { kind: MigErrorKind::ExecProcess }),
        success && stdout@.len() > 0 ==> match disk_attrs_of(stdout@) {
            Err(k) => r == Err::<(u64, String), MigError>(MigError { kind: k }),
            Ok(None) => r matches Ok((n, u)) && n == 0 && u@.len() == 0,
            Ok(Some((d, uuid))) => r matches Ok((n, u)) && parse_uint(d, u64::MAX as nat) == Some(n as nat) && u@ == match uuid {
                Some(x) => x,
                None => Seq::<char>::empty(),
            },
        },
{
    if !success || stdout.is_empty() {
        return Err(MigError::from_kind(MigErrorKind::ExecProcess));
    }
    let ls = lines(stdout);
    if ls.len() < 2 {
        return Err(MigError::from_kind(MigErrorKind::InvParam));
    }
    assert(strings_view(ls@)[1] == ls@[1]@);
    match disk_line_exec(ls[1].as_str()) {
        None => Ok((0, String::new())),
        Some((d, u)) => {
            let n = match parse_u64(d.as_str()) {
                Some(n) => n,
                None => {
                    return Err(MigError::from_kind(MigErrorKind::Upstream));
                },
            };
            match u {
                Some(uuid) => Ok((n, uuid)),
                None => Ok((n, String::new())),
            }
        },
    }
}

} // verus!
