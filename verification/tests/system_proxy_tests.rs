use fast_lane::system_proxy::{
    choose_network_service, gnome_disable_args, gnome_enable_args, networksetup_disable_args,
    networksetup_enable_args, winhttp_import_args, ProxyState, SavedProxy,
};

fn strings(v: &[&str]) -> Vec<String> {
    v.iter().map(|s| s.to_string()).collect()
}

#[test]
fn fastlane_state() {
    let s = ProxyState::for_fastlane(1080);
    assert!(s.enabled);
    assert_eq!(s.server, "127.0.0.1:1080");
    assert_eq!(s.override_list, "localhost;127.*;10.*;172.16.*;192.168.*");
    let v = s.registry_values();
    assert_eq!(v.proxy_enable, 1);
    assert_eq!(v.proxy_server.as_deref(), Some("127.0.0.1:1080"));
    assert_eq!(v.proxy_override.as_deref(), Some("localhost;127.*;10.*;172.16.*;192.168.*"));
}

#[test]
fn turned_off_state_writes_only_switch() {
    let v = ProxyState::turned_off().registry_values();
    assert_eq!(v.proxy_enable, 0);
    assert_eq!(v.proxy_server, None);
    assert_eq!(v.proxy_override, None);
}

#[test]
fn first_found_setting_is_kept() {
    let mut saved = SavedProxy::new();
    assert!(saved.original().is_none());
    saved.remember(None);
    assert!(saved.original().is_none());
    let first = ProxyState { enabled: true, server: "corp:3128".to_string(), override_list: String::new() };
    saved.remember(Some(first));
    saved.remember(Some(ProxyState::for_fastlane(1080)));
    saved.remember(None);
    let kept = saved.original().unwrap();
    assert_eq!(kept.server, "corp:3128");
    assert!(kept.enabled);
}

#[test]
fn gnome_args() {
    assert_eq!(
        gnome_enable_args(1080),
        vec![
            strings(&["set", "org.gnome.system.proxy", "mode", "'manual'"]),
            strings(&["set", "org.gnome.system.proxy.http", "host", "'127.0.0.1'"]),
            strings(&["set", "org.gnome.system.proxy.http", "port", "1080"]),
            strings(&["set", "org.gnome.system.proxy.https", "host", "'127.0.0.1'"]),
            strings(&["set", "org.gnome.system.proxy.https", "port", "1080"]),
        ]
    );
    assert_eq!(gnome_disable_args(), vec![strings(&["set", "org.gnome.system.proxy", "mode", "'none'"])]);
}

#[test]
fn networksetup_args() {
    assert_eq!(
        networksetup_enable_args("Wi-Fi", 1080),
        vec![
            strings(&["-setwebproxy", "Wi-Fi", "127.0.0.1", "1080"]),
            strings(&["-setsecurewebproxy", "Wi-Fi", "127.0.0.1", "1080"]),
        ]
    );
    assert_eq!(
        networksetup_disable_args("Ethernet"),
        vec![strings(&["-setwebproxystate", "Ethernet", "off"]), strings(&["-setsecurewebproxystate", "Ethernet", "off"])]
    );
    assert_eq!(winhttp_import_args(), strings(&["/c", "netsh", "winhttp", "import", "proxy", "source=ie"]));
}

#[test]
fn network_service_choice() {
    let listing = "An asterisk (*) denotes that a network service is disabled.\nUSB 10/100/1000 LAN\n*Wi-Fi\nThunderbolt Ethernet Slot 1  \r\nWi-Fi\n";
    assert_eq!(choose_network_service(listing), "Thunderbolt Ethernet Slot 1");
    assert_eq!(choose_network_service("Bluetooth PAN\nEthernet disabled\n"), "Wi-Fi");
    assert_eq!(choose_network_service(""), "Wi-Fi");
    assert_eq!(choose_network_service("  Wi-Fi  "), "Wi-Fi");
    assert_eq!(choose_network_service("Home Ethernet\u{3000}"), "Home Ethernet");
}

#[test]
fn restore_writes_every_value() {
    let original = ProxyState { enabled: false, server: String::new(), override_list: String::new() };
    let v = original.restore_values();
    assert_eq!(v.proxy_enable, 0);
    assert_eq!(v.proxy_server.as_deref(), Some(""));
    assert_eq!(v.proxy_override.as_deref(), Some(""));
}

#[test]
fn switch_off_restores_first_found_setting() {
    let mut saved = SavedProxy::new();
    let v = saved.switch_off_values();
    assert_eq!((v.proxy_enable, v.proxy_server, v.proxy_override), (0, None, None));
    saved.remember(Some(ProxyState { enabled: true, server: "corp:3128".to_string(), override_list: "<local>".to_string() }));
    saved.remember(Some(ProxyState::for_fastlane(1080)));
    let v = saved.switch_off_values();
    assert_eq!(v.proxy_enable, 1);
    assert_eq!(v.proxy_server.as_deref(), Some("corp:3128"));
    assert_eq!(v.proxy_override.as_deref(), Some("<local>"));
}
