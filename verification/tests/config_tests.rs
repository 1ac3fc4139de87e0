use fast_lane::config::{
    default_add_x_forwarded_for, field_names, find_missing_fields, plan_from_keys, plan_load, table_keys, Config,
    LoadPlan, StoredConfig,
};

fn strings(v: &[&str]) -> Vec<String> {
    v.iter().map(|s| s.to_string()).collect()
}

#[test]
fn default_config_values() {
    let c = Config::default();
    assert_eq!(c.proxy_addr, "127.0.0.1");
    assert_eq!(c.proxy_port, 1080);
    assert_eq!(c.cache_ttl_secs, 300);
    assert_eq!(c.background_refresh_interval_secs, 0);
    assert_eq!(c.speed_test_timeout_secs, 2);
    assert_eq!(
        c.accelerated_domains,
        strings(&["github.com", "raw.githubusercontent.com", "crates.io", "static.crates.io", "httpbin.org"])
    );
    assert!(!c.add_x_forwarded_for);
    assert!(!default_add_x_forwarded_for());
}

#[test]
fn proxy_address_joins_addr_and_port() {
    let c = Config::default();
    assert_eq!(c.proxy_address(), "127.0.0.1:1080");
    let mut d = Config::default();
    d.proxy_addr = "0.0.0.0".to_string();
    d.proxy_port = 0;
    assert_eq!(d.proxy_address(), "0.0.0.0:0");
    d.proxy_port = 65535;
    assert_eq!(d.proxy_address(), "0.0.0.0:65535");
}

#[test]
fn apply_defaults_keeps_config() {
    let mut c = Config::default();
    c.proxy_port = 8080;
    c.add_x_forwarded_for = true;
    c.apply_defaults(&Config::default());
    assert_eq!(c.proxy_port, 8080);
    assert!(c.add_x_forwarded_for);
}

#[test]
fn missing_fields_in_default_order() {
    let parsed = strings(&["proxy_port", "proxy_addr"]);
    let defaults = strings(&["proxy_addr", "cache_ttl_secs", "proxy_port", "add_x_forwarded_for"]);
    assert_eq!(find_missing_fields(&parsed, &defaults), strings(&["cache_ttl_secs", "add_x_forwarded_for"]));
    assert!(find_missing_fields(&defaults, &defaults).is_empty());
}

#[test]
fn table_keys_of_toml() {
    let mut keys = table_keys("proxy_port = 1080\nproxy_addr = \"127.0.0.1\"\n").unwrap();
    keys.sort();
    assert_eq!(keys, strings(&["proxy_addr", "proxy_port"]));
    assert!(table_keys("this is = = not toml").is_none());
    assert_eq!(table_keys("").unwrap(), Vec::<String>::new());
}

const COMPLETE: &str = "proxy_addr = \"127.0.0.1\"\nproxy_port = 1080\ncache_ttl_secs = 300\nbackground_refresh_interval_secs = 0\nspeed_test_timeout_secs = 2\naccelerated_domains = [\"github.com\"]\nadd_x_forwarded_for = false\n";

#[test]
fn field_names_of_config() {
    assert_eq!(
        field_names(),
        strings(&[
            "proxy_addr",
            "proxy_port",
            "cache_ttl_secs",
            "background_refresh_interval_secs",
            "speed_test_timeout_secs",
            "accelerated_domains",
            "add_x_forwarded_for",
        ])
    );
}

#[test]
fn plan_without_file_creates_default() {
    assert!(matches!(plan_load(None), LoadPlan::CreateDefault));
}

#[test]
fn plan_for_complete_file_parses() {
    assert!(matches!(plan_load(Some(COMPLETE)), LoadPlan::Parse));
}

#[test]
fn plan_for_incomplete_file_completes() {
    let text = COMPLETE.replace("cache_ttl_secs = 300\n", "").replace("add_x_forwarded_for = false\n", "");
    match plan_load(Some(&text)) {
        LoadPlan::CompleteAndSave(m) => assert_eq!(m, strings(&["cache_ttl_secs", "add_x_forwarded_for"])),
        other => panic!("unexpected plan {:?}", other),
    }
}

#[test]
fn plan_for_broken_file_recovers() {
    assert!(matches!(plan_load(Some("[[[broken")), LoadPlan::ParseOrReset));
    assert!(matches!(plan_from_keys(None), LoadPlan::ParseOrReset));
}

#[test]
fn plan_from_keys_decides() {
    assert!(matches!(plan_from_keys(Some(field_names())), LoadPlan::Parse));
    match plan_from_keys(Some(strings(&["proxy_port", "extra"]))) {
        LoadPlan::CompleteAndSave(m) => assert_eq!(
            m,
            strings(&[
                "proxy_addr",
                "cache_ttl_secs",
                "background_refresh_interval_secs",
                "speed_test_timeout_secs",
                "accelerated_domains",
                "add_x_forwarded_for",
            ])
        ),
        other => panic!("unexpected plan {:?}", other),
    }
}

#[test]
fn stored_config_is_completed_from_defaults() {
    let stored = StoredConfig {
        proxy_addr: Some("0.0.0.0".to_string()),
        proxy_port: Some(8080),
        cache_ttl_secs: None,
        background_refresh_interval_secs: Some(60),
        speed_test_timeout_secs: None,
        accelerated_domains: None,
        add_x_forwarded_for: None,
    };
    let c = stored.complete(&Config::default());
    assert_eq!(c.proxy_addr, "0.0.0.0");
    assert_eq!(c.proxy_port, 8080);
    assert_eq!(c.cache_ttl_secs, 300);
    assert_eq!(c.background_refresh_interval_secs, 60);
    assert_eq!(c.speed_test_timeout_secs, 2);
    assert_eq!(c.accelerated_domains, Config::default().accelerated_domains);
    assert!(!c.add_x_forwarded_for);
}
