use vstd::prelude::*;
use crate::edit::{occurs_in, replace_all, replaced};
use crate::lsblk_info::parse::{
    lemma_next_quote, lemma_run_nonws, lemma_run_ws, next_quote, next_quote_exec, run_nonws,
    run_nonws_exec, run_ws, run_ws_exec,
};
use crate::lsblk_info::result_params::opt_view;
use crate::num::{decimal, u64_to_string};
use crate::text::{
    chars_of, lines, push_str, starts_at, starts_at_exec, str_eq, string_from_chars, strings_view,
    text_lines, to_string,
};

verus! {

// The wifi networks of the host are read from the `network={ ... }` blocks of the
// wpa_supplicant configuration and from connman's `settings` files.

/// A blank line or a comment (the pattern `^(\s*#.*|\s*)$`).
pub open spec fn skip_line(l: Seq<char>) -> bool {
    let k = run_ws(l, 0);
    k == l.len() || (l[k] == '#' && !occurs_in(l.skip(k + 1), seq!['\n']))
}

/// The start of a network block (the pattern `^\s*network\s*=\s*\{\s*$`).
pub open spec fn net_start(l: Seq<char>) -> bool {
    let a = run_ws(l, 0);
    let b = run_ws(l, a + 7);
    let c = run_ws(l, b + 1);
    starts_at(l, a, "network"@) && b < l.len() && l[b] == '=' && c < l.len() && l[c] == '{' && run_ws(
        l,
        c + 1,
    ) == l.len()
}

/// The end of a network block (the pattern `^\s*\}\s*$`).
pub open spec fn net_end(l: Seq<char>) -> bool {
    let a = run_ws(l, 0);
    a < l.len() && l[a] == '}' && run_ws(l, a + 1) == l.len()
}

/// With a parameter name ending at `e`, the quoted value that follows (`\s*=\s*"([^"]+)"\s*$`).
pub open spec fn quoted_rest(l: Seq<char>, e: int) -> Option<Seq<char>> {
    let a = run_ws(l, e);
    let b = run_ws(l, a + 1);
    let c = next_quote(l, b + 1);
    if a < l.len() && l[a] == '=' && b < l.len() && l[b] == '"' && c < l.len() && c > b + 1 && run_ws(
        l,
        c + 1,
    ) == l.len() {
        Some(l.subrange(b + 1, c))
    } else {
        None
    }
}

/// With a parameter name ending at `e`, the plain value that follows (`\s*=\s*(\S+)\s*$`).
pub open spec fn plain_rest(l: Seq<char>, e: int) -> Option<Seq<char>> {
    let a = run_ws(l, e);
    let b = run_ws(l, a + 1);
    let c = run_nonws(l, b);
    if a < l.len() && l[a] == '=' && c > b && run_ws(l, c) == l.len() {
        Some(l.subrange(b, c))
    } else {
        None
    }
}

/// The longest parameter name starting at `s` and ending at or before `e` that is followed by
/// a value of the given form, with that value.
pub open spec fn longest_param(l: Seq<char>, s: int, e: int, quoted: bool) -> Option<(Seq<char>, Seq<char>)>
    decreases e - s,
{
    if e <= s {
        None
    } else {
        match if quoted {
            quoted_rest(l, e)
        } else {
            plain_rest(l, e)
        } {
            Some(v) => Some((l.subrange(s, e), v)),
            None => longest_param(l, s, e - 1, quoted),
        }
    }
}

/// The parameter a line sets, with a quoted value (`^\s*(\S+)\s*=\s*"([^"]+)"\s*$`) or a plain
/// one (`^\s*(\S+)\s*=\s*(\S+)\s*$`).
pub open spec fn line_param(l: Seq<char>, quoted: bool) -> Option<(Seq<char>, Seq<char>)> {
    let s = run_ws(l, 0);
    longest_param(l, s, run_nonws(l, s), quoted)
}

/// A wifi network: its name and its passphrase.
pub type WifiView = (Seq<char>, Option<Seq<char>>);

/// `wifis` with a network added: only one that passes the filter (an empty filter passes all)
/// and whose name is not listed yet.
pub open spec fn add_wifi(wifis: Seq<WifiView>, filter: Seq<Seq<char>>, ssid: Seq<char>, psk: Option<Seq<char>>) -> Seq<WifiView> {
    if (filter.len() == 0 || filter.contains(ssid)) && !(exists|i: int| 0 <= i < wifis.len() && (#[trigger] wifis[i]).0 == ssid) {
        wifis.push((ssid, psk))
    } else {
        wifis
    }
}

/// Where the reading of a wpa_supplicant configuration stands.
pub struct WpaScan {
    pub wifis: Seq<WifiView>,
    pub in_network: bool,
    pub ssid: Option<Seq<char>>,
    pub psk: Option<Seq<char>>,
}

/// A line sets `ssid` or `psk` to a value.
pub open spec fn set_param(st: WpaScan, p: (Seq<char>, Seq<char>)) -> WpaScan {
    if p.0 == "ssid"@ {
        WpaScan { ssid: Some(p.1), ..st }
    } else if p.0 == "psk"@ {
        WpaScan { psk: Some(p.1), ..st }
    } else {
        st
    }
}

/// Reads one line of a wpa_supplicant configuration.
pub open spec fn wpa_step(st: WpaScan, l: Seq<char>, filter: Seq<Seq<char>>) -> WpaScan {
    if skip_line(l) {
        st
    } else if !st.in_network {
        if net_start(l) {
            WpaScan { in_network: true, ..st }
        } else {
            st
        }
    } else if net_end(l) {
        WpaScan {
            wifis: match st.ssid {
                Some(s) => add_wifi(st.wifis, filter, s, st.psk),
                None => st.wifis,
            },
            in_network: false,
            ssid: None,
            psk: None,
        }
    } else {
        match line_param(l, true) {
            Some(p) => set_param(st, p),
            None => match line_param(l, false) {
                Some(p) => set_param(st, p),
                None => st,
            },
        }
    }
}

/// Reads the first `n` lines.
pub open spec fn wpa_fold(ls: Seq<Seq<char>>, n: int, filter: Seq<Seq<char>>, wifis: Seq<WifiView>) -> WpaScan
    decreases n,
{
    if n <= 0 {
        WpaScan { wifis, in_network: false, ssid: None, psk: None }
    } else {
        wpa_step(wpa_fold(ls, n - 1, filter, wifis), ls[n - 1], filter)
    }
}

/// The networks after reading a wpa_supplicant configuration into `wifis`.
pub open spec fn wpa_networks(text: Seq<char>, filter: Seq<Seq<char>>, wifis: Seq<WifiView>) -> Seq<WifiView> {
    let ls = text_lines(text);
    wpa_fold(ls, ls.len() as int, filter, wifis).wifis
}

/// Reads one line of a connman settings file: the name and passphrase so far.
pub open spec fn connman_step(st: (Seq<char>, Option<Seq<char>>), l: Seq<char>) -> (Seq<char>, Option<Seq<char>>) {
    if skip_line(l) {
        st
    } else {
        match line_param(l, false) {
            Some(p) => if p.0 == "Name"@ {
                (p.1, st.1)
            } else if p.0 == "Passphrase"@ {
                (st.0, Some(p.1))
            } else {
                st
            },
            None => st,
        }
    }
}

/// The name and passphrase after the first `n` lines.
pub open spec fn connman_fold(ls: Seq<Seq<char>>, n: int) -> (Seq<char>, Option<Seq<char>>)
    decreases n,
{
    if n <= 0 {
        (Seq::empty(), None)
    } else {
        connman_step(connman_fold(ls, n - 1), ls[n - 1])
    }
}

/// The network a connman settings file describes, if it names one.
pub open spec fn connman_network(text: Seq<char>) -> Option<WifiView> {
    let ls = text_lines(text);
    let r = connman_fold(ls, ls.len() as int);
    if r.0.len() > 0 {
        Some(r)
    } else {
        None
    }
}

/// The networks after adding those of connman's settings files, in order.
pub open spec fn connman_networks(files: Seq<Seq<char>>, filter: Seq<Seq<char>>, wifis: Seq<WifiView>) -> Seq<WifiView>
    decreases files.len(),
{
    if files.len() == 0 {
        wifis
    } else {
        let before = connman_networks(files.drop_last(), filter, wifis);
        match connman_network(files.last()) {
            Some(w) => add_wifi(before, filter, w.0, w.1),
            None => before,
        }
    }
}

/// A wifi network to migrate.
#[derive(Debug)]
pub struct WifiConfig {
    pub ssid: String,
    pub psk: Option<String>,
}

impl View for WifiConfig {
    type V = WifiView;

    open spec fn view(&self) -> WifiView {
        (self.ssid@, opt_view(self.psk))
    }
}

/// The views of a list of networks.
pub open spec fn wifis_view(v: Seq<WifiConfig>) -> Seq<WifiView> {
    v.map_values(|w: WifiConfig| w@)
}

fn skip_line_exec(l: &[char]) -> (r: bool)
    ensures
        r == skip_line(l@),
{
    let k = run_ws_exec(l, 0);
    proof {
        lemma_run_ws(l@, 0);
    }
    if k == l.len() {
        return true;
    }
    if l[k] != '#' {
        return false;
    }
    let mut j = k + 1;
    while j < l.len()
        invariant
            k + 1 <= j <= l@.len(),
            k == run_ws(l@, 0),
            k < l@.len(),
            l@[k as int] == '#',
            forall|t: int| k + 1 <= t < j ==> l@[t] != '\n',
        decreases l.len() - j,
    {
        if l[j] == '\n' {
            assert(starts_at(l@.skip(k + 1), j - k - 1, seq!['\n'])) by {
                assert(l@.skip(k + 1).subrange(j - k - 1, j - k) =~= seq!['\n']);
            }
            return false;
        }
        j = j + 1;
    }
    assert forall|t: int| !#[trigger] starts_at(l@.skip(k + 1), t, seq!['\n']) by {
        if 0 <= t && t + 1 <= l@.len() - k - 1 && l@.skip(k + 1).subrange(t, t + 1) == seq!['\n'] {
            assert(l@.skip(k + 1).subrange(t, t + 1)[0] == l@[k + 1 + t]);
        }
    }
    true
}

fn net_start_exec(l: &[char], kw: &[char]) -> (r: bool)
    requires
        kw@ == "network"@,
    ensures
        r == net_start(l@),
{
    proof {
        reveal_strlit("network");
    }
    let n = l.len();
    let a = run_ws_exec(l, 0);
    if !starts_at_exec(l, a, kw) {
        return false;
    }
    assert(a + 7 <= n);
    let b = run_ws_exec(l, a + 7);
    proof {
        lemma_run_ws(l@, a + 7);
    }
    if !(b < n && l[b] == '=') {
        return false;
    }
    let c = run_ws_exec(l, b + 1);
    proof {
        lemma_run_ws(l@, b + 1);
    }
    if !(c < n && l[c] == '{') {
        return false;
    }
    run_ws_exec(l, c + 1) == n
}

fn net_end_exec(l: &[char]) -> (r: bool)
    ensures
        r == net_end(l@),
{
    let a = run_ws_exec(l, 0);
    proof {
        lemma_run_ws(l@, 0);
    }
    a < l.len() && l[a] == '}' && run_ws_exec(l, a + 1) == l.len()
}

fn rest_exec(l: &[char], e: usize, quoted: bool) -> (r: Option<(usize, usize)>)
    requires
        e <= l@.len(),
    ensures
        match r {
            Some((b, c)) => b <= c <= l@.len() && (if quoted {
                quoted_rest(l@, e as int)
            } else {
                plain_rest(l@, e as int)
            }) == Some(l@.subrange(b as int, c as int)),
            None => (if quoted {
                quoted_rest(l@, e as int)
            } else {
                plain_rest(l@, e as int)
            }) is None,
        },
{
    let n = l.len();
    let a = run_ws_exec(l, e);
    proof {
        lemma_run_ws(l@, e as int);
    }
    if !(a < n && l[a] == '=') {
        return None;
    }
    let b = run_ws_exec(l, a + 1);
    proof {
        lemma_run_ws(l@, a + 1);
    }
    if quoted {
        if !(b < n && l[b] == '"') {
            return None;
        }
        let c = next_quote_exec(l, b + 1);
        proof {
            lemma_next_quote(l@, b + 1);
        }
        if c < n && c > b + 1 && run_ws_exec(l, c + 1) == n {
            Some((b + 1, c))
        } else {
            None
        }
    } else {
        let c = run_nonws_exec(l, b);
        proof {
            lemma_run_nonws(l@, b as int);
        }
        if c > b && run_ws_exec(l, c) == n {
            Some((b, c))
        } else {
            None
        }
    }
}

fn line_param_exec(l: &[char], quoted: bool) -> (r: Option<(String, String)>)
    ensures
        match r {
            Some((p, v)) => line_param(l@, quoted) == Some((p@, v@)),
            None => line_param(l@, quoted) is None,
        },
{
    let s = run_ws_exec(l, 0);
    proof {
        lemma_run_ws(l@, 0);
    }
    let end = run_nonws_exec(l, s);
    proof {
        lemma_run_nonws(l@, s as int);
    }
    let mut e = end;
    while e > s
        invariant
            s <= e <= end <= l@.len(),
            s == run_ws(l@, 0),
            end == run_nonws(l@, s as int),
            longest_param(l@, s as int, e as int, quoted) == line_param(l@, quoted),
        decreases e,
    {
        match rest_exec(l, e, quoted) {
            Some((b, c)) => {
                let name = string_from_chars(l, s, e);
                let value = string_from_chars(l, b, c);
                return Some((name, value));
            },
            None => {},
        }
        e = e - 1;
    }
    None
}

impl WifiConfig {
    /// The name of the network.
    pub fn get_ssid(&self) -> (r: &str)
        ensures
            r@ == self.ssid@,
    {
        self.ssid.as_str()
    }

    /// Adds a network to the list unless the filter excludes it or a network of that name is
    /// listed already.
    pub fn add_to(wifis: &mut Vec<WifiConfig>, filter: &Vec<String>, wifi: WifiConfig)
        ensures
            wifis_view(final(wifis)@) == add_wifi(wifis_view(old(wifis)@), strings_view(filter@), wifi.ssid@, opt_view(wifi.psk)),
    {
        let ghost fv = strings_view(filter@);
        let mut valid = filter.len() == 0;
        if !valid {
            let mut k: usize = 0;
            let mut found = false;
            while k < filter.len() && !found
                invariant
                    fv == strings_view(filter@),
                    k <= filter@.len(),
                    found ==> k < filter@.len() && fv[k as int] == wifi.ssid@,
                    forall|t: int| 0 <= t < k ==> fv[t] != wifi.ssid@,
                decreases filter.len() - k, if found { 0int } else { 1int },
            {
                if str_eq(filter[k].as_str(), wifi.ssid.as_str()) {
                    assert(fv[k as int] == wifi.ssid@);
                    found = true;
                } else {
                    k = k + 1;
                }
            }
            proof {
                if found {
                    assert(fv.contains(wifi.ssid@));
                } else {
                    assert(!fv.contains(wifi.ssid@));
                }
            }
            valid = found;
        }
        if !valid {
            return;
        }
        let ghost wv = wifis_view(wifis@);
        let mut j: usize = 0;
        while j < wifis.len()
            invariant
                wv == wifis_view(wifis@),
                j <= wifis@.len(),
                forall|t: int| 0 <= t < j ==> wv[t].0 != wifi.ssid@,
            decreases wifis.len() - j,
        {
            if str_eq(wifis[j].ssid.as_str(), wifi.ssid.as_str()) {
                assert(wv[j as int].0 == wifi.ssid@);
                return;
            }
            j = j + 1;
        }
        let ghost w = wifi@;
        wifis.push(wifi);
        assert(wifis_view(wifis@) =~= wv.push(w));
    }
}

/// The NetworkManager connection file written for a migrated network.
pub const NWMGR_CONTENT: &'static str = r##"## created by balena-migrate
[connection]
id="__FILE_NAME__"
type=wifi

[wifi]
hidden=true
mode=infrastructure
ssid="__SSID__"

[ipv4]
method=auto

[ipv6]
addr-gen-mode=stable-privacy
method=auto
"##;

/// The security section of a connection file for a network with a passphrase.
pub const NWMGR_CONTENT_PSK: &'static str = r##"[wifi-security]
auth-alg=open
key-mgmt=wpa-psk
psk="__PSK__"
"##;

/// The connection file for a network, stored under `file_name`.
pub open spec fn nwmgr_content(ssid: Seq<char>, psk: Option<Seq<char>>, file_name: Seq<char>) -> Seq<char> {
    let base = replaced(replaced(NWMGR_CONTENT@, "__SSID__"@, ssid), "__FILE_NAME__"@, file_name);
    match psk {
        Some(p) => base + replaced(NWMGR_CONTENT_PSK@, "__PSK__"@, p),
        None => base,
    }
}

fn apply_param(ssid: &mut Option<String>, psk: &mut Option<String>, p: (String, String))
    ensures
        ({
            let st = WpaScan { wifis: Seq::empty(), in_network: true, ssid: opt_view(*old(ssid)), psk: opt_view(*old(psk)) };
            let st2 = set_param(st, (p.0@, p.1@));
            opt_view(*final(ssid)) == st2.ssid && opt_view(*final(psk)) == st2.psk
        }),
{
    let (name, value) = p;
    if str_eq(name.as_str(), "ssid") {
        *ssid = Some(value);
    } else if str_eq(name.as_str(), "psk") {
        *psk = Some(value);
    }
}

impl WifiConfig {
    /// Adds the networks of a wpa_supplicant configuration (its text) to the list.
    pub fn from_wpa(wifis: &mut Vec<WifiConfig>, ssid_filter: &Vec<String>, text: &str)
        ensures
            wifis_view(final(wifis)@) == wpa_networks(text@, strings_view(ssid_filter@), wifis_view(old(wifis)@)),
    {
        let ls = lines(text);
        let ghost lsv = strings_view(ls@);
        let ghost fv = strings_view(ssid_filter@);
        let ghost w0 = wifis_view(wifis@);
        let kw = chars_of("network");
        let mut in_network = false;
        let mut ssid: Option<String> = None;
        let mut psk: Option<String> = None;
        let mut i: usize = 0;
        while i < ls.len()
            invariant
                lsv == strings_view(ls@),
                lsv == text_lines(text@),
                fv == strings_view(ssid_filter@),
                kw@ == "network"@,
                i <= ls@.len(),
                wpa_fold(lsv, i as int, fv, w0) == (WpaScan {
                    wifis: wifis_view(wifis@),
                    in_network,
                    ssid: opt_view(ssid),
                    psk: opt_view(psk),
                }),
            decreases ls.len() - i,
        {
            let l = chars_of(ls[i].as_str());
            assert(lsv[i as int] == l@);
            if skip_line_exec(l.as_slice()) {
            } else if !in_network {
                if net_start_exec(l.as_slice(), kw.as_slice()) {
                    in_network = true;
                }
            } else if net_end_exec(l.as_slice()) {
                match ssid {
                    Some(s) => {
                        let p = psk;
                        WifiConfig::add_to(wifis, ssid_filter, WifiConfig { ssid: s, psk: p });
                    },
                    None => {},
                }
                in_network = false;
                ssid = None;
                psk = None;
            } else {
                match line_param_exec(l.as_slice(), true) {
                    Some(p) => apply_param(&mut ssid, &mut psk, p),
                    None => match line_param_exec(l.as_slice(), false) {
                        Some(p) => apply_param(&mut ssid, &mut psk, p),
                        None => {},
                    },
                }
            }
            i = i + 1;
        }
    }

    /// The network a connman settings file (its text) describes, if it names one.
    pub fn parse_conmgr_file(text: &str) -> (r: Option<WifiConfig>)
        ensures
            match r {
                Some(w) => connman_network(text@) == Some(w@),
                None => connman_network(text@) is None,
            },
    {
        let ls = lines(text);
        let ghost lsv = strings_view(ls@);
        let mut ssid = String::new();
        let mut psk: Option<String> = None;
        let mut i: usize = 0;
        while i < ls.len()
            invariant
                lsv == strings_view(ls@),
                lsv == text_lines(text@),
                i <= ls@.len(),
                connman_fold(lsv, i as int) == (ssid@, opt_view(psk)),
            decreases ls.len() - i,
        {
            let l = chars_of(ls[i].as_str());
            assert(lsv[i as int] == l@);
            if !skip_line_exec(l.as_slice()) {
                match line_param_exec(l.as_slice(), false) {
                    Some((name, value)) => {
                        if str_eq(name.as_str(), "Name") {
                            ssid = value;
                        } else if str_eq(name.as_str(), "Passphrase") {
                            psk = Some(value);
                        }
                    },
                    None => {},
                }
            }
            i = i + 1;
        }
        let c = chars_of(ssid.as_str());
        if c.len() > 0 {
            Some(WifiConfig { ssid, psk })
        } else {
            None
        }
    }

    /// The networks to migrate: those of the wpa_supplicant configuration (its text, where there
    /// is one), then those of connman's settings files (their texts, in the order the directory
    /// lists them), each passing the filter and named once.
    pub fn scan(ssid_filter: &Vec<String>, wpa_text: Option<&str>, connman_files: &Vec<String>) -> (r: Vec<WifiConfig>)
        ensures
            wifis_view(r@) == connman_networks(
                strings_view(connman_files@),
                strings_view(ssid_filter@),
                match wpa_text {
                    Some(t) => wpa_networks(t@, strings_view(ssid_filter@), Seq::empty()),
                    None => Seq::empty(),
                },
            ),
    {
        let mut list: Vec<WifiConfig> = Vec::new();
        assert(wifis_view(list@) =~= Seq::<WifiView>::empty());
        match wpa_text {
            Some(t) => WifiConfig::from_wpa(&mut list, ssid_filter, t),
            None => {},
        }
        let ghost start = wifis_view(list@);
        let ghost files = strings_view(connman_files@);
        let mut k: usize = 0;
        while k < connman_files.len()
            invariant
                files == strings_view(connman_files@),
                k <= connman_files@.len(),
                wifis_view(list@) == connman_networks(files.take(k as int), strings_view(ssid_filter@), start),
            decreases connman_files.len() - k,
        {
            assert(files.take(k + 1).drop_last() =~= files.take(k as int));
            assert(files.take(k + 1).last() == connman_files@[k as int]@);
            match WifiConfig::parse_conmgr_file(connman_files[k].as_str()) {
                Some(w) => WifiConfig::add_to(&mut list, ssid_filter, w),
                None => {},
            }
            k = k + 1;
        }
        assert(files.take(files.len() as int) =~= files);
        list
    }

    /// The NetworkManager connection file for the network, stored under `file_name`.
    pub fn nwmgr_file_content(&self, file_name: &str) -> (r: String)
        ensures
            r@ == nwmgr_content(self.ssid@, opt_view(self.psk), file_name@),
    {
        proof {
            reveal_strlit("__SSID__");
            reveal_strlit("__FILE_NAME__");
            reveal_strlit("__PSK__");
        }
        let c = replace_all(NWMGR_CONTENT, "__SSID__", self.ssid.as_str());
        let mut c = replace_all(c.as_str(), "__FILE_NAME__", file_name);
        match &self.psk {
            Some(p) => {
                let s = replace_all(NWMGR_CONTENT_PSK, "__PSK__", p.as_str());
                push_str(&mut c, s.as_str());
            },
            None => {},
        }
        c
    }

    /// The name of the connection file with the given number.
    pub fn nwmgr_file_name(index: u64) -> (r: String)
        ensures
            r@ == "resin-wifi-"@ + decimal(index as nat),
    {
        let mut r = to_string("resin-wifi-");
        let n = u64_to_string(index);
        push_str(&mut r, n.as_str());
        r
    }
}

/// No network is listed twice, and with a non-empty filter every network passes it.
pub open spec fn wifis_ok(ws: Seq<WifiView>, filter: Seq<Seq<char>>) -> bool {
    &&& forall|i: int, j: int| 0 <= i < j < ws.len() ==> (#[trigger] ws[i]).0 != (#[trigger] ws[j]).0
    &&& forall|i: int| 0 <= i < ws.len() ==> (filter.len() == 0 || filter.contains((#[trigger] ws[i]).0))
}

proof fn lemma_add_wifi_ok(ws: Seq<WifiView>, filter: Seq<Seq<char>>, ssid: Seq<char>, psk: Option<Seq<char>>)
    requires
        wifis_ok(ws, filter),
    ensures
        wifis_ok(add_wifi(ws, filter, ssid, psk), filter),
{
    let r = add_wifi(ws, filter, ssid, psk);
    if r != ws {
        assert forall|i: int, j: int| 0 <= i < j < r.len() implies (#[trigger] r[i]).0 != (#[trigger] r[j]).0 by {
            if j == ws.len() {
                assert(r[i] == ws[i]);
            } else {
                assert(r[i] == ws[i] && r[j] == ws[j]);
            }
        }
        assert forall|i: int| 0 <= i < r.len() implies (filter.len() == 0 || filter.contains((#[trigger] r[i]).0)) by {
            if i < ws.len() {
                assert(r[i] == ws[i]);
            }
        }
    }
}

proof fn lemma_wpa_fold_ok(ls: Seq<Seq<char>>, n: int, filter: Seq<Seq<char>>, w0: Seq<WifiView>)
    requires
        wifis_ok(w0, filter),
    ensures
        wifis_ok(wpa_fold(ls, n, filter, w0).wifis, filter),
    decreases n,
{
    if n > 0 {
        lemma_wpa_fold_ok(ls, n - 1, filter, w0);
        let st = wpa_fold(ls, n - 1, filter, w0);
        if let Some(s) = st.ssid {
            lemma_add_wifi_ok(st.wifis, filter, s, st.psk);
        }
    }
}

proof fn lemma_connman_ok(files: Seq<Seq<char>>, filter: Seq<Seq<char>>, w0: Seq<WifiView>)
    requires
        wifis_ok(w0, filter),
    ensures
        wifis_ok(connman_networks(files, filter, w0), filter),
    decreases files.len(),
{
    if files.len() > 0 {
        lemma_connman_ok(files.drop_last(), filter, w0);
        let before = connman_networks(files.drop_last(), filter, w0);
        if let Some(w) = connman_network(files.last()) {
            lemma_add_wifi_ok(before, filter, w.0, w.1);
        }
    }
}

/// The networks a scan finds are each listed once and, where a filter is given, all named in
/// it.
pub proof fn lemma_scan_ok(filter: Seq<Seq<char>>, wpa_text: Option<Seq<char>>, connman_files: Seq<Seq<char>>)
    ensures
        wifis_ok(
            connman_networks(
                connman_files,
                filter,
                match wpa_text {
                    Some(t) => wpa_networks(t, filter, Seq::empty()),
                    None => Seq::empty(),
                },
            ),
            filter,
        ),
{
    let start = match wpa_text {
        Some(t) => {
            let ls = text_lines(t);
            lemma_wpa_fold_ok(ls, ls.len() as int, filter, Seq::empty());
            wpa_networks(t, filter, Seq::empty())
        },
        None => Seq::empty(),
    };
    lemma_connman_ok(connman_files, filter, start);
}

/// A network of this name is listed.
pub open spec fn has_ssid(ws: Seq<WifiView>, ssid: Seq<char>) -> bool {
    exists|i: int| 0 <= i < ws.len() && (#[trigger] ws[i]).0 == ssid
}

/// Line `n` of a wpa_supplicant configuration closes a network block that named `ssid`.
pub open spec fn wpa_closes(ls: Seq<Seq<char>>, n: int, ssid: Seq<char>) -> bool {
    let st = wpa_fold(ls, n, Seq::empty(), Seq::empty());
    &&& 0 <= n < ls.len()
    &&& st.in_network
    &&& !skip_line(ls[n])
    &&& net_end(ls[n])
    &&& st.ssid == Some(ssid)
}

/// A network block of the wpa_supplicant configuration `text` names `ssid`.
pub open spec fn wpa_found(text: Seq<char>, ssid: Seq<char>) -> bool {
    exists|n: int| #[trigger] wpa_closes(text_lines(text), n, ssid)
}

proof fn lemma_add_wifi_has(ws: Seq<WifiView>, filter: Seq<Seq<char>>, ssid: Seq<char>, psk: Option<Seq<char>>)
    ensures
        forall|x: Seq<char>| has_ssid(ws, x) ==> has_ssid(add_wifi(ws, filter, ssid, psk), x),
        filter.len() == 0 ==> has_ssid(add_wifi(ws, filter, ssid, psk), ssid),
{
    let r = add_wifi(ws, filter, ssid, psk);
    assert forall|x: Seq<char>| has_ssid(ws, x) implies has_ssid(r, x) by {
        let i = choose|i: int| 0 <= i < ws.len() && (#[trigger] ws[i]).0 == x;
        assert(r[i] == ws[i]);
    }
    if filter.len() == 0 && r != ws {
        assert(r[ws.len() as int].0 == ssid);
    }
}

/// The bookkeeping of a wpa_supplicant configuration (in a block, its name so far) does not
/// depend on the list that the networks are added to.
proof fn lemma_wpa_fold_state(ls: Seq<Seq<char>>, n: int, filter: Seq<Seq<char>>, w0: Seq<WifiView>)
    ensures
        wpa_fold(ls, n, filter, w0).in_network == wpa_fold(ls, n, Seq::empty(), Seq::empty()).in_network,
        wpa_fold(ls, n, filter, w0).ssid == wpa_fold(ls, n, Seq::empty(), Seq::empty()).ssid,
        wpa_fold(ls, n, filter, w0).psk == wpa_fold(ls, n, Seq::empty(), Seq::empty()).psk,
    decreases n,
{
    if n > 0 {
        lemma_wpa_fold_state(ls, n - 1, filter, w0);
    }
}

proof fn lemma_wpa_fold_keeps(ls: Seq<Seq<char>>, n: int, m: int, w0: Seq<WifiView>, x: Seq<char>)
    requires
        n <= m,
        has_ssid(wpa_fold(ls, n, Seq::empty(), w0).wifis, x),
    ensures
        has_ssid(wpa_fold(ls, m, Seq::empty(), w0).wifis, x),
    decreases m - n,
{
    if n < m {
        lemma_wpa_fold_keeps(ls, n, m - 1, w0, x);
        if m > 0 {
            let st = wpa_fold(ls, m - 1, Seq::empty(), w0);
            if let Some(s) = st.ssid {
                lemma_add_wifi_has(st.wifis, Seq::empty(), s, st.psk);
            }
        } else {
            assert(n <= 0);
        }
    }
}

proof fn lemma_connman_keeps(files: Seq<Seq<char>>, filter: Seq<Seq<char>>, w0: Seq<WifiView>, x: Seq<char>)
    requires
        has_ssid(w0, x),
    ensures
        has_ssid(connman_networks(files, filter, w0), x),
    decreases files.len(),
{
    if files.len() > 0 {
        lemma_connman_keeps(files.drop_last(), filter, w0, x);
        let before = connman_networks(files.drop_last(), filter, w0);
        if let Some(w) = connman_network(files.last()) {
            lemma_add_wifi_has(before, filter, w.0, w.1);
        }
    }
}

proof fn lemma_connman_found(files: Seq<Seq<char>>, w0: Seq<WifiView>, k: int)
    requires
        0 <= k < files.len(),
        connman_network(files[k]) is Some,
    ensures
        has_ssid(connman_networks(files, Seq::empty(), w0), (connman_network(files[k])->0).0),
    decreases files.len(),
{
    let before = connman_networks(files.drop_last(), Seq::empty(), w0);
    if k == files.len() - 1 {
        let w = connman_network(files.last())->0;
        lemma_add_wifi_has(before, Seq::empty(), w.0, w.1);
    } else {
        assert(files.drop_last()[k] == files[k]);
        lemma_connman_found(files.drop_last(), w0, k);
        if let Some(w) = connman_network(files.last()) {
            lemma_add_wifi_has(before, Seq::empty(), w.0, w.1);
        }
    }
}

/// With an empty filter a scan takes every network it finds: each network block of the
/// wpa_supplicant configuration that names a network, and each connman settings file that
/// names one, has its network listed.
pub proof fn lemma_scan_takes_all(wpa_text: Option<Seq<char>>, connman_files: Seq<Seq<char>>)
    ensures
        ({
            let start = match wpa_text {
                Some(t) => wpa_networks(t, Seq::empty(), Seq::empty()),
                None => Seq::empty(),
            };
            let r = connman_networks(connman_files, Seq::empty(), start);
            &&& forall|ssid: Seq<char>| #![trigger wpa_found(wpa_text->0, ssid)]
                wpa_text is Some && wpa_found(wpa_text->0, ssid) ==> has_ssid(r, ssid)
            &&& forall|k: int| 0 <= k < connman_files.len() && (#[trigger] connman_network(connman_files[k])) is Some
                ==> has_ssid(r, (connman_network(connman_files[k])->0).0)
        }),
{
    let start = match wpa_text {
        Some(t) => wpa_networks(t, Seq::empty(), Seq::empty()),
        None => Seq::empty(),
    };
    let r = connman_networks(connman_files, Seq::empty(), start);
    assert forall|ssid: Seq<char>| #![trigger wpa_found(wpa_text->0, ssid)]
        wpa_text is Some && wpa_found(wpa_text->0, ssid) implies has_ssid(r, ssid) by {
        let t = wpa_text->0;
        let ls = text_lines(t);
        let n = choose|n: int| #[trigger] wpa_closes(ls, n, ssid);
        let st = wpa_fold(ls, n, Seq::empty(), Seq::empty());
        lemma_add_wifi_has(st.wifis, Seq::empty(), ssid, st.psk);
        assert(has_ssid(wpa_fold(ls, n + 1, Seq::empty(), Seq::empty()).wifis, ssid));
        lemma_wpa_fold_keeps(ls, n + 1, ls.len() as int, Seq::empty(), ssid);
        lemma_connman_keeps(connman_files, Seq::empty(), start, ssid);
    }
    assert forall|k: int| 0 <= k < connman_files.len() && (#[trigger] connman_network(connman_files[k])) is Some
        implies has_ssid(r, (connman_network(connman_files[k])->0).0) by {
        lemma_connman_found(connman_files, start, k);
    }
}

/// Connection files of distinct numbers have distinct names, so that writing one never
/// replaces another.
pub proof fn lemma_nwmgr_names_distinct(i: u64, j: u64)
    requires
        i != j,
    ensures
        "resin-wifi-"@ + decimal(i as nat) != "resin-wifi-"@ + decimal(j as nat),
{
    crate::num::lemma_decimal_injective(i as nat, j as nat);
    let p = "resin-wifi-"@;
    if p + decimal(i as nat) == p + decimal(j as nat) {
        assert((p + decimal(i as nat)).skip(p.len() as int) =~= decimal(i as nat));
        assert((p + decimal(j as nat)).skip(p.len() as int) =~= decimal(j as nat));
    }
}

} // verus!
