use vstd::prelude::*;
use crate::boot_manager::RaspiBootManager;
use crate::defs::{BootType, BALENA_FILE_TAG, MIG_INITRD_NAME, MIG_KERNEL_NAME};
use crate::edit::{
    append_range, cat, contains, kv_replace_all, kv_replace_first, kv_replaced_first, kv_replaced_from,
    leads_with, leads_with_exec, occurs_in, string_of, trim_end_len, trimmed_end,
};
use crate::linux_common::{ascii_lower, lower_char, lower_eq};
use crate::num::{decimal, u64_to_string};
use crate::paths::{extension, path_extension};
use crate::lsblk_info::parse::run_ws;
use crate::text::{
    chars_of, fold_lines, is_ws, lines, push_str, starts_at, strings_view, strip_cr, text_lines, to_string,
};

verus! {

// The files of the Raspberry Pi boot partition: `config.txt` is rewritten so that the firmware
// loads the migration kernel and initramfs, and `cmdline.txt` so that the kernel finds the root
// file system and a console.

/// A `config.txt` line that sets something the migration boot sets itself, and is commented out.
pub open spec fn commented_setting(line: Seq<char>, boot_type: BootType) -> bool {
    leads_with(line, "initramfs"@) || leads_with(line, "kernel"@) || leads_with(line, "enable_uart"@)
        || (boot_type == BootType::Raspi64 && leads_with(line, "arm_64bit"@))
}

/// One line of the new `config.txt`.
pub open spec fn config_line(line: Seq<char>, boot_type: BootType) -> Seq<char> {
    if commented_setting(line, boot_type) {
        "# "@ + line + "\n"@
    } else {
        line + "\n"@
    }
}

/// The old lines of `config.txt`, as they stand in the new one.
pub open spec fn config_body(lines: Seq<Seq<char>>, boot_type: BootType) -> Seq<char>
    decreases lines.len(),
{
    if lines.len() == 0 {
        Seq::empty()
    } else {
        config_body(lines.drop_last(), boot_type) + config_line(lines.last(), boot_type)
    }
}

/// The settings that boot the migration environment.
pub open spec fn migrate_settings(boot_type: BootType) -> Seq<char> {
    (if boot_type == BootType::Raspi64 {
        "arm_64bit=1\n"@
    } else {
        Seq::empty()
    }) + "enable_uart=1\n"@ + "initramfs "@ + MIG_INITRD_NAME@ + " followkernel\n"@ + "kernel "@
        + MIG_KERNEL_NAME@ + "\n"@
}

/// The new `config.txt` made from the old one: a file written by the migrator keeps its tag,
/// another one gets it.
pub open spec fn raspi_config(old: Seq<char>, balena_config: bool, boot_type: BootType) -> Seq<char> {
    (if balena_config {
        Seq::empty()
    } else {
        BALENA_FILE_TAG@ + "\n"@
    }) + config_body(text_lines(old), boot_type) + migrate_settings(boot_type)
}

/// `s` with the parameter `key` set to `value`: an existing one is replaced, else it is added.
pub open spec fn with_param(s: Seq<char>, key: Seq<char>, value: Seq<char>) -> Seq<char> {
    let replaced = kv_replaced_first(s, key, key + value + " "@);
    if occurs_in(replaced, key + value) {
        replaced
    } else {
        replaced + " "@ + key + value
    }
}

/// The new `cmdline.txt` made from the old one: root device and file system type set, consoles
/// replaced by the screen and the serial port, the extra kernel options added.
pub open spec fn raspi_cmdline(
    old: Seq<char>,
    root_cmd: Seq<char>,
    fs_type: Seq<char>,
    kernel_opts: Seq<char>,
) -> Seq<char> {
    let with_root = with_param(trimmed_end(old), "root="@, root_cmd);
    let with_fs = with_param(with_root, "rootfstype="@, fs_type);
    let consoles = kv_replaced_from(with_fs, 0, "console="@, " "@)
        + " console=tty1 console=serial0,115200"@;
    (if kernel_opts.len() == 0 {
        consoles
    } else {
        consoles + " "@ + kernel_opts
    }) + "\n"@
}

proof fn lemma_cat3(a: Seq<char>, b: Seq<char>, c: Seq<char>, d: Seq<char>)
    ensures
        a + (b + c + d) == a + b + c + d,
        a + (b + c) == a + b + c,
{
    assert(a + (b + c + d) =~= a + b + c + d);
    assert(a + (b + c) =~= a + b + c);
}

fn set_param(s: &[char], key: &str, value: &str) -> (r: Vec<char>)
    ensures
        r@ == with_param(s@, key@, value@),
{
    let k = chars_of(key);
    let v = chars_of(value);
    let kv = cat(k.as_slice(), v.as_slice());
    let sp = chars_of(" ");
    let kvs = cat(kv.as_slice(), sp.as_slice());
    let replaced = kv_replace_first(s, k.as_slice(), kvs.as_slice());
    if contains(replaced.as_slice(), kv.as_slice()) {
        replaced
    } else {
        let t = cat(replaced.as_slice(), sp.as_slice());
        cat(t.as_slice(), kv.as_slice())
    }
}

impl RaspiBootManager {
    /// The new `config.txt` from the old text; `balena_config` tells a file that the migrator
    /// wrote before.
    pub fn config_txt(&self, old: &str, balena_config: bool) -> (r: String)
        ensures
            r@ == raspi_config(old@, balena_config, self.boot_type),
    {
        let mut r = String::new();
        if !balena_config {
            push_str(&mut r, BALENA_FILE_TAG);
            push_str(&mut r, "\n");
        }
        let ghost head = r@;
        let ls = lines(old);
        let kinit = chars_of("initramfs");
        let kkernel = chars_of("kernel");
        let kuart = chars_of("enable_uart");
        let k64 = chars_of("arm_64bit");
        let mut i: usize = 0;
        while i < ls.len()
            invariant
                i <= ls@.len(),
                strings_view(ls@) == text_lines(old@),
                kinit@ == "initramfs"@,
                kkernel@ == "kernel"@,
                kuart@ == "enable_uart"@,
                k64@ == "arm_64bit"@,
                r@ == head + config_body(strings_view(ls@).take(i as int), self.boot_type),
            decreases ls.len() - i,
        {
            let line = chars_of(ls[i].as_str());
            let commented = leads_with_exec(line.as_slice(), kinit.as_slice())
                || leads_with_exec(line.as_slice(), kkernel.as_slice())
                || leads_with_exec(line.as_slice(), kuart.as_slice())
                || (self.boot_type == BootType::Raspi64 && leads_with_exec(
                    line.as_slice(),
                    k64.as_slice(),
                ));
            let ghost before = r@;
            if commented {
                push_str(&mut r, "# ");
            }
            push_str(&mut r, ls[i].as_str());
            push_str(&mut r, "\n");
            proof {
                let l = strings_view(ls@)[i as int];
                assert(l == ls@[i as int]@);
                assert(strings_view(ls@).take(i + 1).drop_last() =~= strings_view(ls@).take(
                    i as int,
                ));
                if commented {
                    lemma_cat3(before, "# "@, l, "\n"@);
                } else {
                    lemma_cat3(before, l, "\n"@, Seq::empty());
                }
                lemma_cat3(head, config_body(strings_view(ls@).take(i as int), self.boot_type),
                    config_line(l, self.boot_type), Seq::empty());
            }
            i = i + 1;
        }
        assert(strings_view(ls@).take(ls@.len() as int) =~= strings_view(ls@));
        let ghost body = r@;
        if self.boot_type == BootType::Raspi64 {
            push_str(&mut r, "arm_64bit=1\n");
        }
        let ghost opt = r@;
        push_str(&mut r, "enable_uart=1\n");
        push_str(&mut r, "initramfs ");
        push_str(&mut r, MIG_INITRD_NAME);
        push_str(&mut r, " followkernel\n");
        push_str(&mut r, "kernel ");
        push_str(&mut r, MIG_KERNEL_NAME);
        push_str(&mut r, "\n");
        assert(r@ =~= body + migrate_settings(self.boot_type));
        r
    }

    /// The new `cmdline.txt` from the old text, the root device as the kernel names it, the
    /// root file system type and the extra kernel options.
    pub fn cmdline_txt(&self, old: &str, root_cmd: &str, fs_type: &str, kernel_opts: &str) -> (r:
        String)
        ensures
            r@ == raspi_cmdline(old@, root_cmd@, fs_type@, kernel_opts@),
    {
        let v = chars_of(old);
        let n = trim_end_len(v.as_slice());
        let mut trimmed: Vec<char> = Vec::new();
        append_range(&mut trimmed, v.as_slice(), 0, n);
        assert(trimmed@ =~= v@.take(n as int));
        let with_root = set_param(trimmed.as_slice(), "root=", root_cmd);
        let with_fs = set_param(with_root.as_slice(), "rootfstype=", fs_type);
        let key = chars_of("console=");
        let sp = chars_of(" ");
        let replaced = kv_replace_all(with_fs.as_slice(), key.as_slice(), sp.as_slice());
        let mut r = string_of(replaced.as_slice());
        push_str(&mut r, " console=tty1 console=serial0,115200");
        let opts = chars_of(kernel_opts);
        if opts.len() > 0 {
            push_str(&mut r, " ");
            push_str(&mut r, kernel_opts);
        }
        push_str(&mut r, "\n");
        r
    }
}

/// The size of an optional file, 0 when there is none.
pub open spec fn opt_size(size: Option<u64>) -> int {
    match size {
        Some(n) => n as int,
        None => 0,
    }
}

/// The space the migration files need in the boot directory: the assets and 8 KiB, less what
/// the files of an earlier migration there already take.
pub open spec fn raspi_boot_req(asset_size: u64, kernel_size: Option<u64>, initrd_size: Option<u64>) -> int {
    asset_size + 8192 - opt_size(kernel_size) - opt_size(initrd_size)
}

/// A file of the boot directory that is a device tree (extension `dtb` in any case).
pub open spec fn is_dtb_path(path: Seq<char>) -> bool {
    match path_extension(path) {
        Some(e) => lower_eq(e, "dtb"@),
        None => false,
    }
}

impl RaspiBootManager {
    /// Whether the boot directory, with `fs_free` bytes free, takes the migration files; the
    /// sizes of migration files already there count as free.
    pub fn boot_space_ok(
        asset_size: u64,
        kernel_size: Option<u64>,
        initrd_size: Option<u64>,
        fs_free: u64,
    ) -> (r: bool)
        requires
            asset_size + 8192 <= u64::MAX,
            opt_size(kernel_size) + opt_size(initrd_size) <= asset_size + 8192,
        ensures
            r == (raspi_boot_req(asset_size, kernel_size, initrd_size) < fs_free),
    {
        let mut req = asset_size + 8192;
        if let Some(k) = kernel_size {
            req = req - k;
        }
        if let Some(i) = initrd_size {
            req = req - i;
        }
        req < fs_free
    }

    /// Whether a file of the boot directory is a device tree, which is backed up.
    pub fn is_dtb_file(path: &str) -> (r: bool)
        ensures
            r == is_dtb_path(path@),
    {
        proof {
            reveal_strlit("dtb");
        }
        let v = chars_of(path);
        match extension(v.as_slice()) {
            None => false,
            Some(e) => {
                let d = chars_of("dtb");
                if e.len() != 3 {
                    return false;
                }
                let a = lower_char(e[0]) == d[0] && lower_char(e[1]) == d[1] && lower_char(e[2]) == d[2];
                proof {
                    if a {
                        assert forall|i: int| 0 <= i < e@.len() implies ascii_lower(
                            #[trigger] e@[i],
                        ) == "dtb"@[i] by {
                            if i == 0 {
                            } else if i == 1 {
                            } else {
                            }
                        }
                    } else {
                        assert(!(ascii_lower(e@[0]) == d@[0] && ascii_lower(e@[1]) == d@[1]
                            && ascii_lower(e@[2]) == d@[2]));
                    }
                }
                a
            },
        }
    }

    /// The name a file is backed up under: the name, `-` and the time stamp in seconds.
    pub fn backup_name(name: &str, secs: u64) -> (r: String)
        ensures
            r@ == name@ + "-"@ + decimal(secs as nat),
    {
        let mut r = to_string(name);
        push_str(&mut r, "-");
        let t = u64_to_string(secs);
        push_str(&mut r, t.as_str());
        r
    }
}


/// The lines of a text from position `i` on, found after the partial first line `s[0..i]`,
/// where the first line feed is at `k`.
proof fn lemma_first_line_from(s: Seq<char>, i: int, k: int)
    requires
        0 <= i <= k < s.len(),
        s[k] == '\n',
        forall|j: int| 0 <= j < k ==> s[j] != '\n',
    ensures
        fold_lines(s, i, Seq::empty(), s.take(i)) == fold_lines(s, k + 1, seq![strip_cr(s.take(k))], Seq::empty()),
    decreases k - i,
{
    if i < k {
        assert(s.take(i).push(s[i]) =~= s.take(i + 1));
        lemma_first_line_from(s, i + 1, k);
    } else {
        assert(Seq::<Seq<char>>::empty().push(strip_cr(s.take(k))) =~= seq![strip_cr(s.take(k))]);
    }
}

/// Folding lines keeps the lines found before.
proof fn lemma_fold_lines_keeps(s: Seq<char>, i: int, done: Seq<Seq<char>>, cur: Seq<char>)
    ensures
        fold_lines(s, i, done, cur).len() >= done.len(),
        fold_lines(s, i, done, cur).take(done.len() as int) == done,
    decreases s.len() - i,
{
    if i < 0 || i >= s.len() {
        if cur.len() > 0 {
            assert(done.push(cur).take(done.len() as int) =~= done);
        } else {
            assert(done.take(done.len() as int) =~= done);
        }
    } else if s[i] == '\n' {
        lemma_fold_lines_keeps(s, i + 1, done.push(strip_cr(cur)), Seq::empty());
        let r = fold_lines(s, i + 1, done.push(strip_cr(cur)), Seq::empty());
        assert(r.take(done.len() as int) =~= r.take(done.len() as int + 1).take(done.len() as int));
        assert(done.push(strip_cr(cur)).take(done.len() as int) =~= done);
    } else {
        lemma_fold_lines_keeps(s, i + 1, done, cur.push(s[i]));
    }
}

/// A text that starts with a line `t` (without line feed or trailing carriage return) and a
/// line feed has `t` as its first line.
proof fn lemma_first_line(t: Seq<char>, rest: Seq<char>)
    requires
        forall|j: int| 0 <= j < t.len() ==> t[j] != '\n',
        t.len() == 0 || t.last() != '\r',
    ensures
        text_lines(t + seq!['\n'] + rest).len() > 0,
        text_lines(t + seq!['\n'] + rest)[0] == t,
{
    let s = t + seq!['\n'] + rest;
    let k = t.len() as int;
    assert(s[k] == '\n');
    assert forall|j: int| 0 <= j < k implies s[j] != '\n' by {
        assert(s[j] == t[j]);
    }
    assert(s.take(0) =~= Seq::<char>::empty());
    lemma_first_line_from(s, 0, k);
    assert(s.take(k) =~= t);
    assert(strip_cr(t) == t);
    lemma_fold_lines_keeps(s, k + 1, seq![t], Seq::empty());
    let r = fold_lines(s, k + 1, seq![t], Seq::empty());
    assert(r.take(1)[0] == r[0]);
}

/// A text that starts with `#` does not start with a word that does not.
proof fn lemma_not_leading(t: Seq<char>, w: Seq<char>)
    requires
        t.len() > 0,
        t[0] == '#',
        w.len() > 0,
        w[0] != '#',
    ensures
        !starts_at(t, 0, w),
{
    if starts_at(t, 0, w) {
        assert(t.subrange(0, w.len() as int)[0] == t[0]);
    }
}

/// The old lines of `config.txt` as they stand in the new one, from the first line on.
proof fn lemma_config_body_first(lines: Seq<Seq<char>>, bt: BootType)
    requires
        lines.len() > 0,
    ensures
        config_body(lines, bt) == config_line(lines[0], bt) + config_body(lines.skip(1), bt),
    decreases lines.len(),
{
    if lines.len() == 1 {
        assert(lines.drop_last() =~= Seq::<Seq<char>>::empty());
        assert(lines.skip(1) =~= Seq::<Seq<char>>::empty());
        assert(config_body(lines.drop_last(), bt) == Seq::<char>::empty());
        assert(config_body(lines.skip(1), bt) == Seq::<char>::empty());
        assert(lines.last() == lines[0]);
        assert(config_body(lines, bt) =~= config_line(lines[0], bt) + config_body(lines.skip(1), bt));
    } else {
        lemma_config_body_first(lines.drop_last(), bt);
        assert(lines.drop_last().skip(1) =~= lines.skip(1).drop_last());
        assert(lines.skip(1).last() == lines.last());
        assert(config_body(lines, bt) =~= config_line(lines[0], bt) + config_body(lines.skip(1), bt));
    }
}

/// Whether a text's first line is the migrator's tag (what `is_balena_text` decides).
pub open spec fn tagged(text: Seq<char>) -> bool {
    text_lines(text).len() > 0 && text_lines(text)[0] == BALENA_FILE_TAG@
}

/// The `config.txt` the migrator writes carries its tag exactly as the first line, whether the
/// old one carried it or not, so that it is recognised when the migration is set up again.
pub proof fn lemma_config_tagged(old: Seq<char>, bt: BootType)
    ensures
        tagged(raspi_config(old, tagged(old), bt)),
{
    let t = BALENA_FILE_TAG@;
    reveal_strlit("## created by balena-migrate");
    assert(t.last() != '\r');
    assert forall|j: int| 0 <= j < t.len() implies t[j] != '\n' by {}
    let settings = migrate_settings(bt);
    if tagged(old) {
        let ls = text_lines(old);
        lemma_config_body_first(ls, bt);
        reveal_strlit("initramfs");
        reveal_strlit("kernel");
        reveal_strlit("enable_uart");
        reveal_strlit("arm_64bit");
        assert(t[0] == '#');
        assert(!is_ws(t[0]));
        assert(run_ws(t, 0) == 0);
        lemma_not_leading(t, "initramfs"@);
        lemma_not_leading(t, "kernel"@);
        lemma_not_leading(t, "enable_uart"@);
        lemma_not_leading(t, "arm_64bit"@);
        assert(!commented_setting(t, bt));
        reveal_strlit("\n");
        let rest = config_body(ls.skip(1), bt) + settings;
        assert(raspi_config(old, true, bt) =~= t + seq!['\n'] + rest);
        lemma_first_line(t, rest);
    } else {
        reveal_strlit("\n");
        let rest = config_body(text_lines(old), bt) + settings;
        assert(raspi_config(old, false, bt) =~= t + seq!['\n'] + rest);
        lemma_first_line(t, rest);
    }
}

} // verus!
