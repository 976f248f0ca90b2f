use vstd::prelude::*;
use crate::boot_manager::{manager_boot_type, BootManager};
use crate::defs::{BootType, DeviceType, MigError, MigErrorKind, OSArch};
use crate::edit::occurs_in;
use crate::lsblk_info::parse::{lemma_run_nonws, lemma_run_ws, run_nonws, run_nonws_exec, run_ws, run_ws_exec};
use crate::text::{
    chars_of, is_ws, split_ws, starts_at, starts_at_exec, str_eq, strings_view, text_words, ws_char,
};

pub mod beaglebone;
pub mod intel_nuc;
pub mod raspberrypi;

use crate::device::beaglebone::{BeagleboardXM, BeagleboneBlack, BeagleboneGreen};
use crate::device::intel_nuc::IntelNuc;
use crate::device::raspberrypi::{RaspberryPi3, RaspberryPi4_64};

verus! {

/// The Raspberry Pi type in a device tree model (the pattern
/// `^Raspberry\s+Pi\s+(\S+)\s+Model\s+(.*)$`): the word after `Pi`.
pub open spec fn rpi_model_type(m: Seq<char>) -> Option<Seq<char>> {
    let a = run_ws(m, 9);
    let b = run_ws(m, a + 2);
    let c = run_nonws(m, b);
    let d = run_ws(m, c);
    let e = run_ws(m, d + 5);
    if starts_at(m, 0, "Raspberry"@) && a > 9 && starts_at(m, a, "Pi"@) && b > a + 2 && c > b && d
        > c && starts_at(m, d, "Model"@) && e > d + 5 && !occurs_in(m.skip(e), seq!['\n']) {
        Some(m.subrange(b, c))
    } else {
        None
    }
}

/// The Beaglebone model in a device tree model (the pattern
/// `^((\S+\s+)*\S+)\s+Beagle(Bone|Board)\s+(\S+)$`): the last word, after a word `BeagleBone` or
/// `BeagleBoard` that follows at least one word, in a text without surrounding whitespace.
pub open spec fn bb_model(m: Seq<char>) -> Option<Seq<char>> {
    let w = text_words(m);
    if m.len() > 0 && !is_ws(m[0]) && !is_ws(m.last()) && w.len() >= 3 && (w[w.len() - 2]
        == "BeagleBone"@ || w[w.len() - 2] == "BeagleBoard"@) {
        Some(w.last())
    } else {
        None
    }
}

/// `s` without leading and trailing NUL characters.
pub open spec fn trim_nul(s: Seq<char>) -> Seq<char>
    decreases s.len(),
{
    if s.len() > 0 && s[0] == '\0' {
        trim_nul(s.skip(1))
    } else if s.len() > 0 && s.last() == '\0' {
        trim_nul(s.drop_last())
    } else {
        s
    }
}

/// The Raspberry Pi the model names: `None` for another device, an error for an unsupported
/// Raspberry Pi.
pub open spec fn rpi_device(m: Seq<char>) -> Result<Option<DeviceType>, MigError> {
    match rpi_model_type(m) {
        None => Ok(None),
        Some(t) => if t == "3"@ {
            Ok(Some(DeviceType::RaspberryPi3))
        } else if t == "4"@ {
            Ok(Some(DeviceType::RaspberryPi4_64))
        } else {
            Err(MigError { kind: MigErrorKind::InvParam })
        },
    }
}

/// The Beaglebone the model names: `None` for another device, an error for an unsupported
/// model.
pub open spec fn bb_device(m: Seq<char>) -> Result<Option<DeviceType>, MigError> {
    match bb_model(m) {
        None => Ok(None),
        Some(w) => {
            let t = trim_nul(w);
            if t == "xM"@ {
                Ok(Some(DeviceType::BeagleboardXM))
            } else if t == "Green"@ {
                Ok(Some(DeviceType::BeagleboneGreen))
            } else if t == "Black"@ {
                Ok(Some(DeviceType::BeagleboneBlack))
            } else {
                Err(MigError { kind: MigErrorKind::InvParam })
            }
        },
    }
}

/// The device type of a machine from its architecture and, on ARM, its device tree model.
pub open spec fn device_type_of(arch: OSArch, model: Seq<char>) -> Result<DeviceType, MigError> {
    match arch {
        OSArch::ARMHF => match rpi_device(model) {
            Err(e) => Err(e),
            Ok(Some(t)) => Ok(t),
            Ok(None) => match bb_device(model) {
                Err(e) => Err(e),
                Ok(Some(t)) => Ok(t),
                Ok(None) => Err(MigError { kind: MigErrorKind::InvState }),
            },
        },
        OSArch::AMD64 => Ok(DeviceType::IntelNuc),
        OSArch::I386 => Err(MigError { kind: MigErrorKind::InvParam }),
    }
}

fn no_newline_from(v: &[char], i: usize) -> (r: bool)
    requires
        i <= v@.len(),
    ensures
        r == !occurs_in(v@.skip(i as int), seq!['\n']),
{
    let mut k = i;
    while k < v.len()
        invariant
            i <= k <= v@.len(),
            forall|j: int| i <= j < k ==> v@[j] != '\n',
        decreases v.len() - k,
    {
        if v[k] == '\n' {
            assert(starts_at(v@.skip(i as int), k - i, seq!['\n'])) by {
                assert(v@.skip(i as int).subrange(k - i, k - i + 1) =~= seq!['\n']);
            }
            return false;
        }
        k = k + 1;
    }
    assert forall|j: int| !#[trigger] starts_at(v@.skip(i as int), j, seq!['\n']) by {
        if 0 <= j && j + 1 <= v@.len() - i && v@.skip(i as int).subrange(j, j + 1) == seq!['\n'] {
            assert(v@.skip(i as int).subrange(j, j + 1)[0] == v@[i + j]);
        }
    }
    true
}

/// Whether the device tree model names a Raspberry Pi, and which.
pub fn is_rpi(model: &str) -> (r: Result<Option<DeviceType>, MigError>)
    ensures
        r == rpi_device(model@),
{
    proof {
        reveal_strlit("Raspberry");
        reveal_strlit("Pi");
        reveal_strlit("Model");
    }
    let m = chars_of(model);
    let n = m.len();
    let ms = m.as_slice();
    let lr = chars_of("Raspberry");
    let lp = chars_of("Pi");
    let lm = chars_of("Model");
    if !starts_at_exec(ms, 0, lr.as_slice()) {
        return Ok(None);
    }
    let a = run_ws_exec(ms, 9);
    proof {
        lemma_run_ws(m@, 9);
    }
    if a == 9 || !starts_at_exec(ms, a, lp.as_slice()) {
        return Ok(None);
    }
    assert(a + 2 <= n);
    let b = run_ws_exec(ms, a + 2);
    proof {
        lemma_run_ws(m@, a + 2);
    }
    if b == a + 2 {
        return Ok(None);
    }
    let c = run_nonws_exec(ms, b);
    proof {
        lemma_run_nonws(m@, b as int);
    }
    if c == b {
        return Ok(None);
    }
    let d = run_ws_exec(ms, c);
    proof {
        lemma_run_ws(m@, c as int);
    }
    if d == c || !starts_at_exec(ms, d, lm.as_slice()) {
        return Ok(None);
    }
    assert(d + 5 <= n);
    let e = run_ws_exec(ms, d + 5);
    proof {
        lemma_run_ws(m@, d + 5);
    }
    if e == d + 5 || !no_newline_from(ms, e) {
        return Ok(None);
    }
    proof {
        reveal_strlit("3");
        reveal_strlit("4");
    }
    assert(rpi_model_type(m@) == Some(m@.subrange(b as int, c as int)));
    if c - b == 1 && m[b] == '3' {
        assert(m@.subrange(b as int, c as int) =~= "3"@);
        Ok(Some(DeviceType::RaspberryPi3))
    } else if c - b == 1 && m[b] == '4' {
        assert(m@.subrange(b as int, c as int) =~= "4"@);
        assert("3"@[0] == '3');
        Ok(Some(DeviceType::RaspberryPi4_64))
    } else {
        proof {
            let sub = m@.subrange(b as int, c as int);
            assert(sub.len() == c - b);
            assert(sub[0] == m@[b as int]);
            assert("3"@ =~= seq!['3']);
            assert("4"@ =~= seq!['4']);
            assert(sub != "3"@);
            assert(sub != "4"@);
        }
        Err(MigError::from_kind(MigErrorKind::InvParam))
    }
}

/// Removes leading and trailing NUL characters.
pub fn trim_nul_exec(s: &[char]) -> (r: Vec<char>)
    ensures
        r@ == trim_nul(s@),
{
    let mut from: usize = 0;
    let mut to: usize = s.len();
    assert(s@.subrange(0, s@.len() as int) =~= s@);
    while from < to && s[from] == '\0'
        invariant
            from <= to == s@.len(),
            trim_nul(s@.subrange(from as int, to as int)) == trim_nul(s@),
        decreases to - from,
    {
        assert(s@.subrange(from as int, to as int).skip(1) =~= s@.subrange(from + 1, to as int));
        from = from + 1;
    }
    while from < to && s[to - 1] == '\0'
        invariant
            from <= to <= s@.len(),
            from < to ==> s@[from as int] != '\0',
            trim_nul(s@.subrange(from as int, to as int)) == trim_nul(s@),
        decreases to - from,
    {
        assert(s@.subrange(from as int, to as int).drop_last() =~= s@.subrange(from as int, to - 1));
        to = to - 1;
    }
    let mut r: Vec<char> = Vec::new();
    let mut k = from;
    while k < to
        invariant
            from <= k <= to <= s@.len(),
            r@ == s@.subrange(from as int, k as int),
        decreases to - k,
    {
        r.push(s[k]);
        assert(s@.subrange(from as int, k + 1) =~= s@.subrange(from as int, k as int).push(s@[k as int]));
        k = k + 1;
    }
    r
}

/// Whether the device tree model names a Beaglebone or Beagleboard, and which.
pub fn is_bb(model: &str) -> (r: Result<Option<DeviceType>, MigError>)
    ensures
        r == bb_device(model@),
{
    let m = chars_of(model);
    if m.len() == 0 || ws_char(m[0]) || ws_char(m[m.len() - 1]) {
        return Ok(None);
    }
    let w = split_ws(model);
    let n = w.len();
    if n < 3 {
        return Ok(None);
    }
    proof {
        assert(strings_view(w@)[n - 2] == w@[n - 2]@);
        assert(strings_view(w@).last() == w@[n - 1]@);
    }
    if !(str_eq(w[n - 2].as_str(), "BeagleBone") || str_eq(w[n - 2].as_str(), "BeagleBoard")) {
        return Ok(None);
    }
    let last = chars_of(w[n - 1].as_str());
    let t = trim_nul_exec(last.as_slice());
    proof {
        reveal_strlit("xM");
        reveal_strlit("Green");
        reveal_strlit("Black");
    }
    if t.len() == 2 && t[0] == 'x' && t[1] == 'M' {
        assert(t@ =~= "xM"@);
        Ok(Some(DeviceType::BeagleboardXM))
    } else if t.len() == 5 && t[0] == 'G' && t[1] == 'r' && t[2] == 'e' && t[3] == 'e' && t[4] == 'n' {
        assert(t@ =~= "Green"@);
        Ok(Some(DeviceType::BeagleboneGreen))
    } else if t.len() == 5 && t[0] == 'B' && t[1] == 'l' && t[2] == 'a' && t[3] == 'c' && t[4] == 'k' {
        assert(t@ =~= "Black"@);
        Ok(Some(DeviceType::BeagleboneBlack))
    } else {
        proof {
            if t@ == "xM"@ {
                assert(t@[0] == 'x' && t@[1] == 'M');
            }
            if t@ == "Green"@ {
                assert(t@[0] == 'G' && t@[1] == 'r' && t@[2] == 'e' && t@[3] == 'e' && t@[4] == 'n');
            }
            if t@ == "Black"@ {
                assert(t@[0] == 'B' && t@[1] == 'l' && t@[2] == 'a' && t@[3] == 'c' && t@[4] == 'k');
            }
        }
        Err(MigError::from_kind(MigErrorKind::InvParam))
    }
}

/// The device type of the machine: on ARM from its device tree model (Raspberry Pi first, then
/// Beaglebone), on x86_64 an Intel NUC.
pub fn get_device_type(arch: OSArch, model: &str) -> (r: Result<DeviceType, MigError>)
    ensures
        r == device_type_of(arch, model@),
{
    match arch {
        OSArch::ARMHF => {
            match is_rpi(model) {
                Err(e) => return Err(e),
                Ok(Some(t)) => return Ok(t),
                Ok(None) => {},
            }
            match is_bb(model) {
                Err(e) => Err(e),
                Ok(Some(t)) => Ok(t),
                Ok(None) => Err(MigError::from_kind(MigErrorKind::InvState)),
            }
        },
        OSArch::AMD64 => Ok(DeviceType::IntelNuc),
        OSArch::I386 => Err(MigError::from_kind(MigErrorKind::InvParam)),
    }
}

/// A device the migrator knows, with its boot manager.
#[derive(Debug)]
pub enum Device {
    BeagleboneGreen(BeagleboneGreen),
    BeagleboneBlack(BeagleboneBlack),
    BeagleboardXM(BeagleboardXM),
    RaspberryPi3(RaspberryPi3),
    RaspberryPi4_64(RaspberryPi4_64),
    IntelNuc(IntelNuc),
}

impl Device {
    /// The device type.
    pub open spec fn device_type(&self) -> DeviceType {
        match self {
            Device::BeagleboneGreen(_) => DeviceType::BeagleboneGreen,
            Device::BeagleboneBlack(_) => DeviceType::BeagleboneBlack,
            Device::BeagleboardXM(_) => DeviceType::BeagleboardXM,
            Device::RaspberryPi3(_) => DeviceType::RaspberryPi3,
            Device::RaspberryPi4_64(_) => DeviceType::RaspberryPi4_64,
            Device::IntelNuc(_) => DeviceType::IntelNuc,
        }
    }

    /// The boot manager of the device.
    pub open spec fn boot_manager(&self) -> BootManager {
        match self {
            Device::BeagleboneGreen(d) => d.boot_manager,
            Device::BeagleboneBlack(d) => d.boot_manager,
            Device::BeagleboardXM(d) => d.boot_manager,
            Device::RaspberryPi3(d) => d.boot_manager,
            Device::RaspberryPi4_64(d) => d.boot_manager,
            Device::IntelNuc(d) => d.boot_manager,
        }
    }

    /// The device type.
    pub fn get_device_type(&self) -> (r: DeviceType)
        ensures
            r == self.device_type(),
    {
        match self {
            Device::BeagleboneGreen(_) => DeviceType::BeagleboneGreen,
            Device::BeagleboneBlack(_) => DeviceType::BeagleboneBlack,
            Device::BeagleboardXM(_) => DeviceType::BeagleboardXM,
            Device::RaspberryPi3(_) => DeviceType::RaspberryPi3,
            Device::RaspberryPi4_64(_) => DeviceType::RaspberryPi4_64,
            Device::IntelNuc(_) => DeviceType::IntelNuc,
        }
    }

    /// The device's slug in balena's device type names.
    pub fn get_device_slug(&self) -> (r: &'static str)
        ensures
            r@ == device_slug(self.device_type()),
    {
        match self {
            Device::BeagleboneGreen(_) => "beaglebone-green",
            Device::BeagleboneBlack(_) => "beaglebone-black",
            Device::BeagleboardXM(_) => "beagleboard-xm",
            Device::RaspberryPi3(_) => "raspberrypi3",
            Device::RaspberryPi4_64(_) => "raspberrypi4-64",
            Device::IntelNuc(_) => "intel-nuc",
        }
    }

    /// The boot type of the device's boot manager.
    pub fn get_boot_type(&self) -> (r: BootType)
        ensures
            r == self.boot_manager().boot_type(),
    {
        match self {
            Device::BeagleboneGreen(d) => d.boot_manager.get_boot_type(),
            Device::BeagleboneBlack(d) => d.boot_manager.get_boot_type(),
            Device::BeagleboardXM(d) => d.boot_manager.get_boot_type(),
            Device::RaspberryPi3(d) => d.boot_manager.get_boot_type(),
            Device::RaspberryPi4_64(d) => d.boot_manager.get_boot_type(),
            Device::IntelNuc(d) => d.boot_manager.get_boot_type(),
        }
    }
}

/// The slug of a device type.
pub open spec fn device_slug(t: DeviceType) -> Seq<char> {
    match t {
        DeviceType::BeagleboneGreen => "beaglebone-green"@,
        DeviceType::BeagleboneBlack => "beaglebone-black"@,
        DeviceType::BeagleboardXM => "beagleboard-xm"@,
        DeviceType::RaspberryPi3 => "raspberrypi3"@,
        DeviceType::RaspberryPi4_64 => "raspberrypi4-64"@,
        DeviceType::IntelNuc => "intel-nuc"@,
    }
}

/// The device of the second stage, from the device and boot types that the first stage
/// recorded.
pub fn from_config(device_type: DeviceType, boot_type: BootType) -> (r: Result<Device, MigError>)
    requires
        boot_type != BootType::MSWBootMgr,
    ensures
        r matches Ok(d) && d.device_type() == device_type && d.boot_manager().boot_type()
            == manager_boot_type(boot_type),
{
    match device_type {
        DeviceType::BeagleboneGreen => Ok(
            Device::BeagleboneGreen(BeagleboneGreen::from_boot_type(boot_type)),
        ),
        DeviceType::BeagleboneBlack => Ok(
            Device::BeagleboneBlack(BeagleboneBlack::from_boot_type(boot_type)),
        ),
        DeviceType::BeagleboardXM => Ok(Device::BeagleboardXM(BeagleboardXM::from_boot_type(boot_type))),
        DeviceType::RaspberryPi3 => Ok(Device::RaspberryPi3(RaspberryPi3::from_boot_type(boot_type))),
        DeviceType::RaspberryPi4_64 => Ok(
            Device::RaspberryPi4_64(RaspberryPi4_64::from_boot_type(boot_type)),
        ),
        DeviceType::IntelNuc => Ok(Device::IntelNuc(IntelNuc::from_boot_type(boot_type))),
    }
}

} // verus!
