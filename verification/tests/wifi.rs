use balena_migrate::wifi_config::WifiConfig;

const WPA: &str = r#"ctrl_interface=DIR=/var/run/wpa_supplicant GROUP=netdev
update_config=1
country=DE

network={
    ssid="Home Net"
    psk="secret 1"
    key_mgmt=WPA-PSK
}

# network={
#    ssid="commented"
# }
network = {
	ssid="Open"
}
network={
    ssid="Home Net"
    psk="other"
}
network={
    ssid=Plain
    psk=0123456789abcdef
}
"#;

fn names(ws: &[WifiConfig]) -> Vec<(String, Option<String>)> {
    ws.iter().map(|w| (w.get_ssid().to_string(), w.psk.clone())).collect()
}

#[test]
fn wpa_supplicant_networks() {
    let mut wifis = Vec::new();
    WifiConfig::from_wpa(&mut wifis, &Vec::new(), WPA);
    assert_eq!(
        names(&wifis),
        vec![
            (String::from("Home Net"), Some(String::from("secret 1"))),
            (String::from("Open"), None),
            (String::from("Plain"), Some(String::from("0123456789abcdef"))),
        ]
    );
}

#[test]
fn wpa_supplicant_networks_filtered() {
    let mut wifis = Vec::new();
    WifiConfig::from_wpa(&mut wifis, &vec![String::from("Open"), String::from("Elsewhere")], WPA);
    assert_eq!(names(&wifis), vec![(String::from("Open"), None)]);
}

#[test]
fn connman_settings_file() {
    let text = "[service_wifi_abc_managed_psk]\nType=wifi\nName=Cafe\nPassphrase=latte42\nAutoConnect=true\n";
    let w = WifiConfig::parse_conmgr_file(text).unwrap();
    assert_eq!(w.get_ssid(), "Cafe");
    assert_eq!(w.psk, Some(String::from("latte42")));
    let open = WifiConfig::parse_conmgr_file("[x]\nName = Library\n").unwrap();
    assert_eq!(open.get_ssid(), "Library");
    assert_eq!(open.psk, None);
    assert!(WifiConfig::parse_conmgr_file("[x]\nPassphrase=p\n").is_none());
}

#[test]
fn scan_combines_sources_without_duplicates() {
    let files = vec![
        String::from("Name=Cafe\nPassphrase=latte42\n"),
        String::from("Name=Open\nPassphrase=changed\n"),
        String::from("Type=ethernet\n"),
    ];
    let all = WifiConfig::scan(&Vec::new(), Some(WPA), &files);
    assert_eq!(
        names(&all),
        vec![
            (String::from("Home Net"), Some(String::from("secret 1"))),
            (String::from("Open"), None),
            (String::from("Plain"), Some(String::from("0123456789abcdef"))),
            (String::from("Cafe"), Some(String::from("latte42"))),
        ]
    );
    let only_connman = WifiConfig::scan(&vec![String::from("Cafe")], None, &files);
    assert_eq!(names(&only_connman), vec![(String::from("Cafe"), Some(String::from("latte42")))]);
}

#[test]
fn add_to_skips_filtered_and_known_networks() {
    let mut wifis = Vec::new();
    let filter = vec![String::from("A"), String::from("B")];
    WifiConfig::add_to(&mut wifis, &filter, WifiConfig { ssid: String::from("A"), psk: None });
    WifiConfig::add_to(&mut wifis, &filter, WifiConfig { ssid: String::from("C"), psk: None });
    WifiConfig::add_to(&mut wifis, &filter, WifiConfig { ssid: String::from("A"), psk: Some(String::from("x")) });
    assert_eq!(names(&wifis), vec![(String::from("A"), None)]);
}

#[test]
fn network_manager_files() {
    assert_eq!(WifiConfig::nwmgr_file_name(0), "resin-wifi-0");
    assert_eq!(WifiConfig::nwmgr_file_name(12), "resin-wifi-12");
    let w = WifiConfig { ssid: String::from("Cafe"), psk: Some(String::from("latte42")) };
    assert_eq!(
        w.nwmgr_file_content("resin-wifi-1"),
        "## created by balena-migrate\n[connection]\nid=\"resin-wifi-1\"\ntype=wifi\n\n[wifi]\nhidden=true\n\
         mode=infrastructure\nssid=\"Cafe\"\n\n[ipv4]\nmethod=auto\n\n[ipv6]\naddr-gen-mode=stable-privacy\n\
         method=auto\n[wifi-security]\nauth-alg=open\nkey-mgmt=wpa-psk\npsk=\"latte42\"\n"
    );
    let open = WifiConfig { ssid: String::from("Open"), psk: None };
    assert!(open.nwmgr_file_content("f").ends_with("method=auto\n"));
    assert!(!open.nwmgr_file_content("f").contains("wifi-security"));
}

#[test]
fn connection_file_names_differ() {
    let names: Vec<String> = (0..25).map(WifiConfig::nwmgr_file_name).collect();
    for i in 0..names.len() {
        for j in 0..names.len() {
            assert_eq!(i == j, names[i] == names[j]);
        }
    }
}

#[test]
fn scan_without_filter_takes_every_network_found() {
    let files = vec![String::from("Name=Cafe\n"), String::from("Name=Library\nPassphrase=quiet\n")];
    let all = WifiConfig::scan(&Vec::new(), Some(WPA), &files);
    let ssids: Vec<&str> = all.iter().map(|w| w.get_ssid()).collect();
    for found in ["Home Net", "Open", "Plain", "Cafe", "Library"] {
        assert!(ssids.contains(&found), "{} is missing", found);
    }
    assert_eq!(ssids.len(), 5);
}
