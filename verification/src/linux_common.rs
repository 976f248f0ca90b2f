use vstd::prelude::*;
use crate::defs::{MigError, MigErrorKind, OSArch};
use crate::lsblk_info::run_digits;
use crate::lsblk_info::parse::run_nonws;
use crate::num::{decimal, u64_to_string};
use crate::text::{
    chars_of, digit_char, is_digit, is_ws, lines, push_char, push_str, split_ws,
    string_from_chars, strings_view, text_lines, text_words, to_string, ws_char,
};

verus! {

/// `c` with an ASCII upper case letter turned into lower case.
pub open spec fn ascii_lower(c: char) -> char {
    if 'A' <= c && c <= 'Z' {
        ((c as u32) + 32) as char
    } else {
        c
    }
}

/// `s` turned into lower case equals `t`, where `t` is lower case ASCII without the letter `k`
/// (the only ASCII letter that a non-ASCII character, the Kelvin sign, turns into).
pub open spec fn lower_eq(s: Seq<char>, t: Seq<char>) -> bool {
    s.len() == t.len() && forall|i: int| 0 <= i < s.len() ==> ascii_lower(#[trigger] s[i]) == t[i]
}

pub fn lower_char(c: char) -> (r: char)
    ensures
        r == ascii_lower(c),
{
    if 'A' <= c && c <= 'Z' {
        let n = c as u32 + 32;
        assert(n == (c as u32) + 32);
        char_from_u32(n)
    } else {
        c
    }
}

fn char_from_u32(n: u32) -> (c: char)
    requires
        0x61 <= n <= 0x7A,
    ensures
        c == n as char,
{
    let mut c = 'a';
    let mut k: u32 = 0x61;
    while k < n
        invariant
            0x61 <= k <= n <= 0x7A,
            c == k as char,
            c as u32 == k,
        decreases n - k,
    {
        k = k + 1;
        c = if c == 'a' { 'b' } else if c == 'b' { 'c' } else if c == 'c' { 'd' } else if c == 'd' { 'e' }
            else if c == 'e' { 'f' } else if c == 'f' { 'g' } else if c == 'g' { 'h' } else if c == 'h' { 'i' }
            else if c == 'i' { 'j' } else if c == 'j' { 'k' } else if c == 'k' { 'l' } else if c == 'l' { 'm' }
            else if c == 'm' { 'n' } else if c == 'n' { 'o' } else if c == 'o' { 'p' } else if c == 'p' { 'q' }
            else if c == 'q' { 'r' } else if c == 'r' { 's' } else if c == 's' { 't' } else if c == 't' { 'u' }
            else if c == 'u' { 'v' } else if c == 'v' { 'w' } else if c == 'w' { 'x' } else if c == 'x' { 'y' }
            else { 'z' };
    }
    c
}

fn lower_eq_exec(s: &str, t: &str) -> (r: bool)
    ensures
        r == lower_eq(s@, t@),
{
    let a = chars_of(s);
    let b = chars_of(t);
    if a.len() != b.len() {
        return false;
    }
    let mut i: usize = 0;
    while i < a.len()
        invariant
            a@ == s@,
            b@ == t@,
            a@.len() == b@.len(),
            i <= a@.len(),
            forall|k: int| 0 <= k < i ==> ascii_lower(#[trigger] a@[k]) == b@[k],
        decreases a.len() - i,
    {
        if lower_char(a[i]) != b[i] {
            return false;
        }
        i = i + 1;
    }
    true
}

/// The architecture that `uname -m` reports: `x86_64`, `i386` or `armv7l` in any case.
pub open spec fn os_arch_of(out: Seq<char>) -> Option<OSArch> {
    if lower_eq(out, "x86_64"@) {
        Some(OSArch::AMD64)
    } else if lower_eq(out, "i386"@) {
        Some(OSArch::I386)
    } else if lower_eq(out, "armv7l"@) {
        Some(OSArch::ARMHF)
    } else {
        None
    }
}

/// The architecture of the machine from the result of `uname -m` (its success and its trimmed
/// output).
pub fn get_os_arch(success: bool, stdout: &str) -> (r: Result<OSArch, MigError>)
    ensures
        !success ==> r == Err::<OSArch, MigError>(MigError { kind: MigErrorKind::ExecProcess }),
        success ==> match os_arch_of(stdout@) {
            Some(a) => r == Ok::<OSArch, MigError>(a),
            None => r == Err::<OSArch, MigError>(MigError { kind: MigErrorKind::InvParam }),
        },
{
    if !success {
        return Err(MigError::from_kind(MigErrorKind::ExecProcess));
    }
    if lower_eq_exec(stdout, "x86_64") {
        Ok(OSArch::AMD64)
    } else if lower_eq_exec(stdout, "i386") {
        Ok(OSArch::I386)
    } else if lower_eq_exec(stdout, "armv7l") {
        Ok(OSArch::ARMHF)
    } else {
        Err(MigError::from_kind(MigErrorKind::InvParam))
    }
}

/// The places where a command is looked for before `whereis` is asked: `<dir>/<cmd>` for the
/// binary directories, in order.
pub open spec fn bin_candidates(cmd: Seq<char>) -> Seq<Seq<char>> {
    seq!["/bin/"@ + cmd, "/usr/bin/"@ + cmd, "/sbin/"@ + cmd, "/usr/sbin/"@ + cmd]
}

/// The paths to try for a command, in order, before asking `whereis`.
pub fn whereis_candidates(cmd: &str) -> (r: Vec<String>)
    ensures
        strings_view(r@) == bin_candidates(cmd@),
{
    let mut r: Vec<String> = Vec::new();
    let mut a = to_string("/bin/");
    push_str(&mut a, cmd);
    r.push(a);
    let mut b = to_string("/usr/bin/");
    push_str(&mut b, cmd);
    r.push(b);
    let mut c = to_string("/sbin/");
    push_str(&mut c, cmd);
    r.push(c);
    let mut d = to_string("/usr/sbin/");
    push_str(&mut d, cmd);
    r.push(d);
    assert(strings_view(r@) =~= bin_candidates(cmd@));
    r
}

/// Position of the first space at or after `i`, or the length of `s`.
pub open spec fn next_space(s: Seq<char>, i: int) -> int
    decreases s.len() - i,
{
    if i < 0 || i >= s.len() || s[i] == ' ' {
        i
    } else {
        next_space(s, i + 1)
    }
}

proof fn lemma_next_space(s: Seq<char>, i: int)
    requires
        0 <= i <= s.len(),
    ensures
        i <= next_space(s, i) <= s.len(),
        next_space(s, i) < s.len() ==> s[next_space(s, i)] == ' ',
    decreases s.len() - i,
{
    if i < s.len() && s[i] != ' ' {
        lemma_next_space(s, i + 1);
    }
}

fn next_space_exec(v: &[char], i: usize) -> (r: usize)
    requires
        i <= v@.len(),
    ensures
        r == next_space(v@, i as int),
{
    let mut j = i;
    while j < v.len() && v[j] != ' '
        invariant
            i <= j <= v@.len(),
            next_space(v@, j as int) == next_space(v@, i as int),
        decreases v.len() - j,
    {
        j = j + 1;
    }
    j
}

/// The second field, split at single spaces, of the output of `whereis -b <cmd>`.
pub open spec fn whereis_field(out: Seq<char>) -> Option<Seq<char>> {
    let k = next_space(out, 0);
    if k < out.len() {
        Some(out.subrange(k + 1, next_space(out, k + 1)))
    } else {
        None
    }
}

/// The path of a command from the result of `whereis -b <cmd>` (its success and its trimmed
/// output).
pub fn whereis_result(success: bool, stdout: &str) -> (r: Result<String, MigError>)
    ensures
        !success ==> r == Err::<String, MigError>(MigError { kind: MigErrorKind::ExecProcess }),
        success && stdout@.len() == 0 ==> r == Err::<String, MigError>(MigError { kind: MigErrorKind::InvParam }),
        success && stdout@.len() > 0 ==> match whereis_field(stdout@) {
            Some(p) => r matches Ok(s) && s@ == p,
            None => r == Err::<String, MigError>(MigError { kind: MigErrorKind::NotFound }),
        },
{
    if !success {
        return Err(MigError::from_kind(MigErrorKind::ExecProcess));
    }
    if stdout.is_empty() {
        return Err(MigError::from_kind(MigErrorKind::InvParam));
    }
    let v = chars_of(stdout);
    let k = next_space_exec(v.as_slice(), 0);
    proof {
        lemma_next_space(v@, 0);
    }
    if k < v.len() {
        let e = next_space_exec(v.as_slice(), k + 1);
        proof {
            lemma_next_space(v@, k + 1);
        }
        Ok(string_from_chars(v.as_slice(), k + 1, e))
    } else {
        Err(MigError::from_kind(MigErrorKind::NotFound))
    }
}

/// The line `SecureBoot <state>` of `mokutil --sb-state` output: `Some(true)` for `enabled`,
/// `Some(false)` for `disabled`, `None` for any other line.
pub open spec fn sb_line(l: Seq<char>) -> Option<bool> {
    let prefix = "SecureBoot"@;
    if l.len() > prefix.len() && l.take(prefix.len() as int) == prefix && is_ws(l[prefix.len() as int]) {
        let rest = l.skip(run_ws_from(l, prefix.len() as int));
        if rest == "enabled"@ {
            Some(true)
        } else if rest == "disabled"@ {
            Some(false)
        } else {
            None
        }
    } else {
        None
    }
}

/// End of the run of whitespace that starts at `i`.
pub open spec fn run_ws_from(s: Seq<char>, i: int) -> int
    decreases s.len() - i,
{
    if i < 0 || i >= s.len() || !is_ws(s[i]) {
        i
    } else {
        run_ws_from(s, i + 1)
    }
}

proof fn lemma_run_ws_from(s: Seq<char>, i: int)
    requires
        0 <= i <= s.len(),
    ensures
        i <= run_ws_from(s, i) <= s.len(),
    decreases s.len() - i,
{
    if i < s.len() && is_ws(s[i]) {
        lemma_run_ws_from(s, i + 1);
    }
}

/// The first line of `ls` from index `i` on that states the secure boot state.
pub open spec fn first_sb_state(ls: Seq<Seq<char>>, i: int) -> Option<bool>
    decreases ls.len() - i,
{
    if i < 0 || i >= ls.len() {
        None
    } else {
        match sb_line(ls[i]) {
            Some(b) => Some(b),
            None => first_sb_state(ls, i + 1),
        }
    }
}

fn sb_line_exec(l: &str) -> (r: Option<bool>)
    ensures
        r == sb_line(l@),
{
    let v = chars_of(l);
    let p = chars_of("SecureBoot");
    proof {
        reveal_strlit("SecureBoot");
    }
    if v.len() > p.len() && crate::text::starts_at_exec(v.as_slice(), 0, p.as_slice()) && ws_char(v[p.len()]) {
        assert(v@.subrange(0, p@.len() as int) =~= v@.take(p@.len() as int));
        let mut j = p.len();
        while j < v.len() && ws_char(v[j])
            invariant
                p@.len() <= j <= v@.len(),
                run_ws_from(v@, j as int) == run_ws_from(v@, p@.len() as int),
            decreases v.len() - j,
        {
            j = j + 1;
        }
        let rest = string_from_chars(v.as_slice(), j, v.len());
        assert(v@.subrange(j as int, v@.len() as int) =~= v@.skip(j as int));
        if crate::text::str_eq(rest.as_str(), "enabled") {
            Some(true)
        } else if crate::text::str_eq(rest.as_str(), "disabled") {
            Some(false)
        } else {
            None
        }
    } else {
        proof {
            if v@.len() > p@.len() && v@.take(p@.len() as int) == p@ {
                assert(v@.subrange(0, p@.len() as int) =~= v@.take(p@.len() as int));
            }
        }
        None
    }
}

/// Whether secure boot is enabled, from the output of `mokutil --sb-state`: the first line
/// that states it decides; output without such a line is an error.
pub fn secure_boot_state(stdout: &str) -> (r: Result<bool, MigError>)
    ensures
        match first_sb_state(text_lines(stdout@), 0) {
            Some(b) => r == Ok::<bool, MigError>(b),
            None => r == Err::<bool, MigError>(MigError { kind: MigErrorKind::InvParam }),
        },
{
    let ls = lines(stdout);
    let ghost lv = strings_view(ls@);
    let mut i: usize = 0;
    while i < ls.len()
        invariant
            i <= ls@.len(),
            lv == strings_view(ls@),
            lv == text_lines(stdout@),
            first_sb_state(lv, 0) == first_sb_state(lv, i as int),
        decreases ls.len() - i,
    {
        assert(lv[i as int] == ls@[i as int]@);
        match sb_line_exec(ls[i].as_str()) {
            Some(b) => {
                return Ok(b);
            },
            None => {},
        }
        i = i + 1;
    }
    Err(MigError::from_kind(MigErrorKind::InvParam))
}

/// Whether secure boot is enabled: never without an EFI firmware directory or without
/// `mokutil`; otherwise what `mokutil --sb-state` reports.
pub fn is_secure_boot(efi_dir_exists: bool, mokutil_found: bool, mokutil_stdout: &str) -> (r: Result<bool, MigError>)
    ensures
        !efi_dir_exists || !mokutil_found ==> r == Ok::<bool, MigError>(false),
        efi_dir_exists && mokutil_found ==> match first_sb_state(text_lines(mokutil_stdout@), 0) {
            Some(b) => r == Ok::<bool, MigError>(b),
            None => r == Err::<bool, MigError>(MigError { kind: MigErrorKind::InvParam }),
        },
{
    if !efi_dir_exists || !mokutil_found {
        return Ok(false);
    }
    secure_boot_state(mokutil_stdout)
}


/// A `df` size field (`^(\d+)K?$`): its digits, when it has that shape.
pub open spec fn size_field_digits(w: Seq<char>) -> Option<Seq<char>> {
    let e = run_digits(w, 0);
    if e > 0 && (e == w.len() || (e + 1 == w.len() && w[e] == 'K')) {
        Some(w.take(e))
    } else {
        None
    }
}

/// The value in KiB of a `df` size field: `InvParam` when it does not have the shape of one,
/// `Upstream` when its digits are not a number in range.
pub open spec fn size_field(w: Seq<char>) -> Result<nat, MigErrorKind> {
    match size_field_digits(w) {
        None => Err(MigErrorKind::InvParam),
        Some(d) => match crate::num::parse_uint(d, u64::MAX as nat) {
            Some(n) => Ok(n),
            None => Err(MigErrorKind::Upstream),
        },
    }
}

/// The two size fields of the output of `df --block-size=K --output=size,used <path>`:
/// exactly two lines, the second with exactly two words.
pub open spec fn df_fields(out: Seq<char>) -> Option<(Seq<char>, Seq<char>)> {
    let ls = text_lines(out);
    if out.len() > 0 && ls.len() == 2 && text_words(ls[1]).len() == 2 {
        Some((text_words(ls[1])[0], text_words(ls[1])[1]))
    } else {
        None
    }
}

/// The inputs on which the computation of the space panics: a size that does not fit in
/// bytes, or more used than there is.
pub open spec fn fs_space_overflows(out: Seq<char>) -> bool {
    match df_fields(out) {
        None => false,
        Some((a, b)) => match size_field(a) {
            Err(_) => false,
            Ok(n) => n * 1024 > u64::MAX || match size_field(b) {
                Err(_) => false,
                Ok(m) => m * 1024 > u64::MAX || m > n,
            },
        },
    }
}

fn size_field_exec(w: &str) -> (r: Result<u64, MigError>)
    ensures
        match r {
            Ok(n) => size_field(w@) == Ok::<nat, MigErrorKind>(n as nat),
            Err(e) => size_field(w@) == Err::<nat, MigErrorKind>(e.kind),
        },
{
    let v = chars_of(w);
    let mut e: usize = 0;
    while e < v.len() && digit_char(v[e])
        invariant
            e <= v@.len(),
            run_digits(v@, e as int) == run_digits(v@, 0),
        decreases v.len() - e,
    {
        e = e + 1;
    }
    if e > 0 && (e == v.len() || (e + 1 == v.len() && v[e] == 'K')) {
        let digits = string_from_chars(v.as_slice(), 0, e);
        assert(v@.subrange(0, e as int) =~= v@.take(e as int));
        match crate::num::parse_u64(digits.as_str()) {
            Some(n) => Ok(n),
            None => Err(MigError::from_kind(MigErrorKind::Upstream)),
        }
    } else {
        Err(MigError::from_kind(MigErrorKind::InvParam))
    }
}

/// Whether the sizes of a `df` output can be computed: no size in bytes beyond `u64`, and no
/// more used than there is (`fs_space_from_df` takes only such output).
pub fn df_space_fits(stdout: &str) -> (r: bool)
    ensures
        r == !fs_space_overflows(stdout@),
{
    if stdout.is_empty() {
        return true;
    }
    let ls = lines(stdout);
    if ls.len() != 2 {
        return true;
    }
    let words = split_ws(ls[1].as_str());
    assert(strings_view(ls@)[1] == ls@[1]@);
    if words.len() != 2 {
        return true;
    }
    assert(strings_view(words@)[0] == words@[0]@ && strings_view(words@)[1] == words@[1]@);
    let n = match size_field_exec(words[0].as_str()) {
        Err(_) => {
            return true;
        },
        Ok(n) => n,
    };
    if n > u64::MAX / 1024 {
        return false;
    }
    match size_field_exec(words[1].as_str()) {
        Err(_) => true,
        Ok(m) => m <= u64::MAX / 1024 && m <= n,
    }
}

/// The size and the free space, in bytes, of a file system from the result of
/// `df --block-size=K --output=size,used <path>` (its success and its trimmed output).
pub fn fs_space_from_df(success: bool, stdout: &str) -> (r: Result<(u64, u64), MigError>)
    requires
        success ==> !fs_space_overflows(stdout@),
    ensures
        !success || df_fields(stdout@) is None ==> r == Err::<(u64, u64), MigError>(MigError { kind: MigErrorKind::InvParam }),
        success && df_fields(stdout@) is Some ==> ({
            let (a, b) = df_fields(stdout@)->0;
            match (size_field(a), size_field(b)) {
                (Err(k), _) => r == Err::<(u64, u64), MigError>(MigError { kind: k }),
                (Ok(_), Err(k)) => r == Err::<(u64, u64), MigError>(MigError { kind: k }),
                (Ok(n), Ok(m)) => r matches Ok((size, free)) && size as nat == n * 1024 && free as nat == (n - m) * 1024,
            }
        }),
{
    if !success || stdout.is_empty() {
        return Err(MigError::from_kind(MigErrorKind::InvParam));
    }
    let ls = lines(stdout);
    if ls.len() != 2 {
        return Err(MigError::from_kind(MigErrorKind::InvParam));
    }
    let words = split_ws(ls[1].as_str());
    assert(strings_view(ls@)[1] == ls@[1]@);
    if words.len() != 2 {
        return Err(MigError::from_kind(MigErrorKind::InvParam));
    }
    assert(strings_view(words@)[0] == words@[0]@ && strings_view(words@)[1] == words@[1]@);
    let size_k = size_field_exec(words[0].as_str())?;
    let size = size_k * 1024;
    let used_k = size_field_exec(words[1].as_str())?;
    let used = used_k * 1024;
    Ok((size, size - used))
}

/// The mount point in the output of `df <device>`: the sixth word of its second line.
pub open spec fn df_mountpoint_of(out: Seq<char>) -> Result<Option<Seq<char>>, MigErrorKind> {
    let ls = text_lines(out);
    if ls.len() < 2 {
        Ok(None)
    } else if text_words(ls[1]).len() > 5 {
        Ok(Some(text_words(ls[1])[5]))
    } else {
        Err(MigErrorKind::InvState)
    }
}

/// Where a device is mounted, from the result of `df <device>` (its success and its output):
/// `None` when `df` lists no mount.
pub fn df_mountpoint(success: bool, stdout: &str) -> (r: Result<Option<String>, MigError>)
    ensures
        !success ==> r == Err::<Option<String>, MigError>(MigError { kind: MigErrorKind::InvState }),
        success ==> match df_mountpoint_of(stdout@) {
            Ok(None) => r == Ok::<Option<String>, MigError>(None),
            Ok(Some(m)) => r matches Ok(Some(s)) && s@ == m,
            Err(k) => r == Err::<Option<String>, MigError>(MigError { kind: k }),
        },
{
    if !success {
        return Err(MigError::from_kind(MigErrorKind::InvState));
    }
    let ls = lines(stdout);
    if ls.len() < 2 {
        return Ok(None);
    }
    assert(strings_view(ls@)[1] == ls@[1]@);
    let words = split_ws(ls[1].as_str());
    if words.len() > 5 {
        assert(strings_view(words@)[5] == words@[5]@);
        Ok(Some(words[5].clone()))
    } else {
        Err(MigError::from_kind(MigErrorKind::InvState))
    }
}


/// `c` matches the pattern character `p` when case is ignored, as the case-insensitive patterns
/// of the migrator match: ASCII letters in either case, and the long s and the Kelvin sign for
/// `s` and `k`.
pub open spec fn ci_char(c: char, p: char) -> bool {
    c == p || ('a' <= p && p <= 'z' && c as u32 == (p as u32) - 32)
        || (p == 's' && c as u32 == 0x17F) || (p == 'k' && c as u32 == 0x212A)
}

/// `s` holds `pat` at position `i`, case ignored.
pub open spec fn ci_at(s: Seq<char>, i: int, pat: Seq<char>) -> bool {
    0 <= i && i + pat.len() <= s.len() && forall|k: int| 0 <= k < pat.len() ==> ci_char(#[trigger] s[i + k], pat[k])
}

fn ci_char_exec(c: char, p: char) -> (r: bool)
    requires
        p == '=' || ('a' <= p && p <= 'z'),
    ensures
        r == ci_char(c, p),
{
    let n = c as u32;
    let m = p as u32;
    n == m || ('a' <= p && p <= 'z' && n + 32 == m) || (p == 's' && n == 0x17F) || (p == 'k' && n == 0x212A)
}

fn ci_at_exec(v: &[char], i: usize, pat: &[char]) -> (r: bool)
    requires
        forall|k: int| 0 <= k < pat@.len() ==> pat@[k] == '=' || ('a' <= #[trigger] pat@[k] && pat@[k] <= 'z'),
    ensures
        r == ci_at(v@, i as int, pat@),
{
    if i > v.len() || pat.len() > v.len() - i {
        return false;
    }
    let mut k: usize = 0;
    while k < pat.len()
        invariant
            i + pat@.len() <= v@.len(),
            v@.len() == v.len(),
            k <= pat@.len(),
            forall|k: int| 0 <= k < pat@.len() ==> pat@[k] == '=' || ('a' <= #[trigger] pat@[k] && pat@[k] <= 'z'),
            forall|j: int| 0 <= j < k ==> ci_char(#[trigger] v@[i + j], pat@[j]),
        decreases pat.len() - k,
    {
        if !ci_char_exec(v[i + k], pat[k]) {
            return false;
        }
        k = k + 1;
    }
    true
}

/// The pattern `\s<key>(\S+)\s` matches at `p` (case ignored): whitespace, the key, a non-empty
/// run of non-whitespace, and then a whitespace character.
pub open spec fn param_at(s: Seq<char>, p: int, key: Seq<char>) -> bool {
    let st = p + 1 + key.len();
    0 <= p < s.len() && is_ws(s[p]) && ci_at(s, p + 1, key) && st < run_nonws(s, st) && run_nonws(s, st) < s.len()
}

/// The leftmost match of `\s<key>(\S+)\s` at or after `p`, if any.
pub open spec fn first_param(s: Seq<char>, p: int, key: Seq<char>) -> Option<int>
    decreases s.len() - p,
{
    if p < 0 || p >= s.len() {
        None
    } else if param_at(s, p, key) {
        Some(p)
    } else {
        first_param(s, p + 1, key)
    }
}

/// The value of the first `<key>` parameter of a kernel command line, found as the pattern
/// `\s<key>(\S+)\s` finds it (case ignored).
pub open spec fn cmdline_param(s: Seq<char>, key: Seq<char>) -> Option<Seq<char>> {
    match first_param(s, 0, key) {
        Some(p) => Some(s.subrange(p + 1 + key.len(), run_nonws(s, p + 1 + key.len()))),
        None => None,
    }
}

fn cmdline_param_exec(v: &[char], key: &[char]) -> (r: Option<String>)
    requires
        forall|k: int| 0 <= k < key@.len() ==> key@[k] == '=' || ('a' <= #[trigger] key@[k] && key@[k] <= 'z'),
    ensures
        match r {
            Some(x) => cmdline_param(v@, key@) == Some(x@),
            None => cmdline_param(v@, key@).is_none(),
        },
{
    let mut p: usize = 0;
    while p < v.len()
        invariant
            p <= v@.len(),
            forall|k: int| 0 <= k < key@.len() ==> key@[k] == '=' || ('a' <= #[trigger] key@[k] && key@[k] <= 'z'),
            first_param(v@, 0, key@) == first_param(v@, p as int, key@),
        decreases v.len() - p,
    {
        if ws_char(v[p]) && ci_at_exec(v, p + 1, key) {
            let st = p + 1 + key.len();
            let mut e = st;
            while e < v.len() && !ws_char(v[e])
                invariant
                    st <= e <= v@.len(),
                    run_nonws(v@, e as int) == run_nonws(v@, st as int),
                decreases v.len() - e,
            {
                e = e + 1;
            }
            if st < e && e < v.len() {
                assert(param_at(v@, p as int, key@));
                return Some(string_from_chars(v, st, e));
            }
        }
        p = p + 1;
    }
    None
}

/// The root device path named by a `root=` value: `PARTUUID=<id>` and `UUID=<id>` (case
/// ignored) name links under `/dev/disk`, anything else is a device path.
pub open spec fn root_device_path(d: Seq<char>) -> Seq<char> {
    if d.len() > 9 && ci_at(d, 0, "partuuid="@) {
        "/dev/disk/by-partuuid/"@ + d.skip(9)
    } else if d.len() > 5 && ci_at(d, 0, "uuid="@) {
        "/dev/disk/by-uuid/"@ + d.skip(5)
    } else {
        d
    }
}

/// The root device and root file system type named on a kernel command line (the text of
/// `/proc/cmdline`). The device is given as named, before any `/dev/disk` link is resolved.
pub fn get_kernel_root_info(cmd_line: &str) -> (r: Result<(String, Option<String>), MigError>)
    ensures
        match cmdline_param(cmd_line@, "root="@) {
            None => r == Err::<(String, Option<String>), MigError>(MigError { kind: MigErrorKind::NotFound }),
            Some(d) => r matches Ok((dev, fstype)) && dev@ == root_device_path(d)
                && crate::lsblk_info::result_params::opt_view(fstype) == cmdline_param(cmd_line@, "rootfstype="@),
        },
{
    let v = chars_of(cmd_line);
    let root_key = chars_of("root=");
    let fstype_key = chars_of("rootfstype=");
    let partuuid_key = chars_of("partuuid=");
    let uuid_key = chars_of("uuid=");
    proof {
        reveal_strlit("root=");
        reveal_strlit("rootfstype=");
        reveal_strlit("partuuid=");
        reveal_strlit("uuid=");
    }
    let root_dev = match cmdline_param_exec(v.as_slice(), root_key.as_slice()) {
        Some(d) => d,
        None => {
            return Err(MigError::from_kind(MigErrorKind::NotFound));
        },
    };
    let d = chars_of(root_dev.as_str());
    let device = if d.len() > 9 && ci_at_exec(d.as_slice(), 0, partuuid_key.as_slice()) {
        let mut p = to_string("/dev/disk/by-partuuid/");
        let id = string_from_chars(d.as_slice(), 9, d.len());
        push_str(&mut p, id.as_str());
        assert(d@.subrange(9, d@.len() as int) =~= d@.skip(9));
        p
    } else if d.len() > 5 && ci_at_exec(d.as_slice(), 0, uuid_key.as_slice()) {
        let mut p = to_string("/dev/disk/by-uuid/");
        let id = string_from_chars(d.as_slice(), 5, d.len());
        push_str(&mut p, id.as_str());
        assert(d@.subrange(5, d@.len() as int) =~= d@.skip(5));
        p
    } else {
        root_dev
    };
    let fstype = cmdline_param_exec(v.as_slice(), fstype_key.as_slice());
    Ok((device, fstype))
}

/// A drive name `/dev/[hs]d[a-z]`, whose partitions are numbered directly after the name.
pub open spec fn is_sd_drive(s: Seq<char>) -> bool {
    s.len() == 8 && s.take(5) == "/dev/"@ && (s[5] == 'h' || s[5] == 's') && s[6] == 'd' && 'a' <= s[7] && s[7] <= 'z'
}

/// `s` from `i` on is a non-empty run of decimal digits.
pub open spec fn digits_to_end(s: Seq<char>, i: int) -> bool {
    i < s.len() && run_digits(s, i) == s.len()
}

/// A drive name `/dev/nvme<d>n<d>` or `/dev/mmcblk<d>`, whose partitions are numbered after a `p`.
pub open spec fn is_p_drive(s: Seq<char>) -> bool {
    ||| (s.len() > 9 && s.take(9) == "/dev/nvme"@ && {
        let e = run_digits(s, 9);
        e > 9 && e < s.len() && s[e] == 'n' && digits_to_end(s, e + 1)
    })
    ||| (s.len() > 11 && s.take(11) == "/dev/mmcblk"@ && digits_to_end(s, 11))
}

/// The device path of partition `n` of a drive, or `None` for a drive name of another shape.
pub open spec fn partition_of_drive(drive: Seq<char>, n: nat) -> Option<Seq<char>> {
    if is_sd_drive(drive) {
        Some(drive + decimal(n))
    } else if is_p_drive(drive) {
        Some(drive + seq!['p'] + decimal(n))
    } else {
        None
    }
}

pub fn digits_to_end_exec(v: &[char], i: usize) -> (r: bool)
    requires
        i <= v@.len(),
    ensures
        r == digits_to_end(v@, i as int),
{
    let mut e = i;
    while e < v.len() && digit_char(v[e])
        invariant
            i <= e <= v@.len(),
            run_digits(v@, e as int) == run_digits(v@, i as int),
        decreases v.len() - e,
    {
        e = e + 1;
    }
    i < v.len() && e == v.len()
}

pub fn run_digits_exec(v: &[char], i: usize) -> (r: usize)
    requires
        i <= v@.len(),
    ensures
        r == run_digits(v@, i as int),
        i <= r <= v@.len(),
{
    let mut e = i;
    while e < v.len() && digit_char(v[e])
        invariant
            i <= e <= v@.len(),
            run_digits(v@, e as int) == run_digits(v@, i as int),
        decreases v.len() - e,
    {
        e = e + 1;
    }
    e
}

pub fn starts_with_lit(v: &[char], lit: &str) -> (r: bool)
    ensures
        r == (v@.len() >= lit@.len() && v@.take(lit@.len() as int) == lit@),
{
    let p = chars_of(lit);
    let r = crate::text::starts_at_exec(v, 0, p.as_slice());
    proof {
        if v@.len() >= p@.len() {
            assert(v@.subrange(0, p@.len() as int) =~= v@.take(p@.len() as int));
        }
    }
    r
}

/// The device path of partition `part_num` of the drive `drive`: the number follows a name
/// `/dev/[hs]d[a-z]` directly and follows `p` after a name `/dev/nvme<d>n<d>` or `/dev/mmcblk<d>`.
pub fn drive_to_partition(drive: &str, part_num: u64) -> (r: Result<String, MigError>)
    ensures
        match partition_of_drive(drive@, part_num as nat) {
            Some(p) => r matches Ok(s) && s@ == p,
            None => r == Err::<String, MigError>(MigError { kind: MigErrorKind::InvParam }),
        },
{
    let v = chars_of(drive);
    proof {
        reveal_strlit("/dev/");
        reveal_strlit("/dev/nvme");
        reveal_strlit("/dev/mmcblk");
    }
    let sd = v.len() == 8 && starts_with_lit(v.as_slice(), "/dev/") && (v[5] == 'h' || v[5] == 's') && v[6] == 'd'
        && 'a' <= v[7] && v[7] <= 'z';
    let nvme = v.len() > 9 && starts_with_lit(v.as_slice(), "/dev/nvme") && {
        let e = run_digits_exec(v.as_slice(), 9);
        e > 9 && e < v.len() && v[e] == 'n' && digits_to_end_exec(v.as_slice(), e + 1)
    };
    let mmc = v.len() > 11 && starts_with_lit(v.as_slice(), "/dev/mmcblk") && digits_to_end_exec(v.as_slice(), 11);
    if sd {
        let mut r = to_string(drive);
        let n = u64_to_string(part_num);
        push_str(&mut r, n.as_str());
        Ok(r)
    } else if nvme || mmc {
        let mut r = to_string(drive);
        push_char(&mut r, 'p');
        let n = u64_to_string(part_num);
        push_str(&mut r, n.as_str());
        Ok(r)
    } else {
        Err(MigError::from_kind(MigErrorKind::InvParam))
    }
}

/// `s` from `e` on is `p` followed by a non-empty run of decimal digits.
pub open spec fn p_digits(s: Seq<char>, e: int) -> bool {
    0 <= e < s.len() && s[e] == 'p' && digits_to_end(s, e + 1)
}

/// Where the digits that start at `st` end when the pattern `\d+(p?\d+)$` takes the longest run
/// that leaves a partition suffix: the whole run before `p<digits>`, or all but its last digit
/// at the end of the name.
pub open spec fn split_run(s: Seq<char>, st: int) -> Option<int> {
    let e = run_digits(s, st);
    if e > st && p_digits(s, e) {
        Some(e)
    } else if e == s.len() && e - st >= 2 {
        Some(e - 1)
    } else {
        None
    }
}

/// The length of the drive part of a partition device path, as the pattern
/// `^(/dev/([hs]d[a-z]|nvme\d+n\d+|mmcblk\d+))(p?\d+)$` splits it.
pub open spec fn drive_len(s: Seq<char>) -> Option<int> {
    if s.len() >= 8 && s.take(5) == "/dev/"@ && (s[5] == 'h' || s[5] == 's') && s[6] == 'd' && 'a' <= s[7]
        && s[7] <= 'z' {
        if digits_to_end(s, 8) || p_digits(s, 8) {
            Some(8)
        } else {
            None
        }
    } else if s.len() > 9 && s.take(9) == "/dev/nvme"@ {
        let e = run_digits(s, 9);
        if e > 9 && e < s.len() && s[e] == 'n' {
            split_run(s, e + 1)
        } else {
            None
        }
    } else if s.len() > 11 && s.take(11) == "/dev/mmcblk"@ {
        split_run(s, 11)
    } else {
        None
    }
}

fn p_digits_exec(v: &[char], e: usize) -> (r: bool)
    requires
        e <= v@.len(),
    ensures
        r == p_digits(v@, e as int),
{
    e < v.len() && v[e] == 'p' && digits_to_end_exec(v, e + 1)
}

fn split_run_exec(v: &[char], st: usize) -> (r: Option<usize>)
    requires
        st <= v@.len(),
    ensures
        match r {
            Some(k) => split_run(v@, st as int) == Some(k as int),
            None => split_run(v@, st as int).is_none(),
        },
{
    let e = run_digits_exec(v, st);
    if e > st && p_digits_exec(v, e) {
        Some(e)
    } else if e == v.len() && e - st >= 2 {
        Some(e - 1)
    } else {
        None
    }
}

/// The drive of a partition device path (already resolved from any `/dev/disk` link): the name
/// without its partition number.
pub fn drive_from_partition(partition: &str) -> (r: Result<String, MigError>)
    ensures
        match drive_len(partition@) {
            Some(k) => r matches Ok(s) && s@ == partition@.take(k),
            None => r == Err::<String, MigError>(MigError { kind: MigErrorKind::InvParam }),
        },
{
    let v = chars_of(partition);
    proof {
        reveal_strlit("/dev/");
        reveal_strlit("/dev/nvme");
        reveal_strlit("/dev/mmcblk");
    }
    let k: Option<usize> = if v.len() >= 8 && starts_with_lit(v.as_slice(), "/dev/") && (v[5] == 'h' || v[5] == 's')
        && v[6] == 'd' && 'a' <= v[7] && v[7] <= 'z' {
        if digits_to_end_exec(v.as_slice(), 8) || p_digits_exec(v.as_slice(), 8) {
            Some(8)
        } else {
            None
        }
    } else if v.len() > 9 && starts_with_lit(v.as_slice(), "/dev/nvme") {
        let e = run_digits_exec(v.as_slice(), 9);
        if e > 9 && e < v.len() && v[e] == 'n' {
            split_run_exec(v.as_slice(), e + 1)
        } else {
            None
        }
    } else if v.len() > 11 && starts_with_lit(v.as_slice(), "/dev/mmcblk") {
        split_run_exec(v.as_slice(), 11)
    } else {
        None
    };
    match k {
        Some(k) => {
            proof {
                lemma_drive_len_bound(v@);
            }
            assert(v@.subrange(0, k as int) =~= v@.take(k as int));
            Ok(string_from_chars(v.as_slice(), 0, k))
        },
        None => Err(MigError::from_kind(MigErrorKind::InvParam)),
    }
}

proof fn lemma_drive_len_bound(s: Seq<char>)
    ensures
        drive_len(s) matches Some(k) ==> 0 <= k <= s.len(),
{
    if s.len() > 9 && s.take(9) == "/dev/nvme"@ {
        crate::lsblk_info::lemma_run_digits_pub(s, 9);
        let e = run_digits(s, 9);
        if e > 9 && e < s.len() && s[e] == 'n' {
            crate::lsblk_info::lemma_run_digits_pub(s, e + 1);
        }
    }
    if s.len() > 11 {
        crate::lsblk_info::lemma_run_digits_pub(s, 11);
    }
}

proof fn lemma_decimal_ascii(n: nat)
    ensures
        decimal(n).len() > 0,
        forall|i: int| 0 <= i < decimal(n).len() ==> '0' <= #[trigger] decimal(n)[i] <= '9',
    decreases n,
{
    if n >= 10 {
        lemma_decimal_ascii(n / 10);
        let d = decimal(n / 10);
        assert forall|i: int| 0 <= i < decimal(n).len() implies '0' <= #[trigger] decimal(n)[i] <= '9' by {
            if i < d.len() {
                assert(decimal(n)[i] == d[i]);
            }
        }
    }
}

/// In `s`, every character from `i` up to `e` is a digit and the one at `e` (if any) is not:
/// the run of digits from `i` ends at `e`.
proof fn lemma_run_digits_to(s: Seq<char>, i: int, e: int)
    requires
        0 <= i <= e <= s.len(),
        forall|k: int| i <= k < e ==> is_digit(#[trigger] s[k]),
        e < s.len() ==> !is_digit(s[e]),
    ensures
        run_digits(s, i) == e,
    decreases e - i,
{
    if i < e {
        lemma_run_digits_to(s, i + 1, e);
    }
}

/// The drive of the path of partition `n` of a drive is that drive again.
pub proof fn lemma_partition_drive_round_trip(drive: Seq<char>, n: nat)
    requires
        partition_of_drive(drive, n) is Some,
    ensures
        drive_len(partition_of_drive(drive, n)->0) == Some(drive.len() as int),
        partition_of_drive(drive, n)->0.take(drive.len() as int) == drive,
{
    reveal_strlit("/dev/");
    reveal_strlit("/dev/nvme");
    reveal_strlit("/dev/mmcblk");
    let p = partition_of_drive(drive, n)->0;
    let dec = decimal(n);
    lemma_decimal_ascii(n);
    assert(p.take(drive.len() as int) =~= drive);
    if is_sd_drive(drive) {
        assert(p =~= drive + dec);
        assert(p.take(5) =~= drive.take(5));
        assert forall|k: int| 8 <= k < p.len() implies is_digit(#[trigger] p[k]) by {
            assert(p[k] == dec[k - 8]);
        }
        lemma_run_digits_to(p, 8, p.len() as int);
        assert(digits_to_end(p, 8));
    } else {
        assert(is_p_drive(drive));
        assert(p =~= drive + seq!['p'] + dec);
        let dl = drive.len() as int;
        assert(p[dl] == 'p');
        assert forall|k: int| dl + 1 <= k < p.len() implies is_digit(#[trigger] p[k]) by {
            assert(p[k] == dec[k - dl - 1]);
        }
        lemma_run_digits_to(p, dl + 1, p.len() as int);
        assert(p_digits(p, dl));
        assert(p.take(5) =~= drive.take(5));
        if drive.len() > 9 && drive.take(9) == "/dev/nvme"@ {
            assert(p.take(9) =~= drive.take(9));
            let e = run_digits(drive, 9);
            crate::lsblk_info::lemma_run_digits_pub(drive, 9);
            assert forall|k: int| 9 <= k < e implies is_digit(#[trigger] p[k]) by {
                assert(p[k] == drive[k]);
            }
            assert(p[e] == drive[e]);
            lemma_run_digits_to(p, 9, e);
            crate::lsblk_info::lemma_run_digits_pub(drive, e + 1);
            assert forall|k: int| e + 1 <= k < dl implies is_digit(#[trigger] p[k]) by {
                assert(p[k] == drive[k]);
            }
            lemma_run_digits_to(p, e + 1, dl);
        } else {
            assert(drive.take(11) == "/dev/mmcblk"@);
            assert(p.take(9) =~= drive.take(9));
            assert(p.take(11) =~= drive.take(11));
            assert(drive.take(9) != "/dev/nvme"@) by {
                assert(drive.take(9)[5] == 'm');
                assert("/dev/nvme"@[5] == 'n');
            }
            crate::lsblk_info::lemma_run_digits_pub(drive, 11);
            assert forall|k: int| 11 <= k < dl implies is_digit(#[trigger] p[k]) by {
                assert(p[k] == drive[k]);
            }
            lemma_run_digits_to(p, 11, dl);
        }
    }
}

} // verus!
