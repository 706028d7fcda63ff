use frpc_manager::config::{Auth, FrpcConfig, Switches, WebServer};
use frpc_manager::download::{progress_pct, DownloadTracker};
use frpc_manager::state::{Inner, SettingsMap};
use frpc_manager::types::AuthType;
use serde_json::Value;

fn empty_config() -> FrpcConfig {
    FrpcConfig {
        server_addr: String::new(),
        server_port: 7000,
        auth: Auth {
            method: AuthType::Token,
            token: String::new(),
        },
        web_server: WebServer {
            addr: String::new(),
            port: 0,
            user: String::new(),
            password: String::new(),
        },
        proxies: Vec::new(),
        switch: Switches {
            auth: false,
            web_server: false,
        },
    }
}

#[test]
fn settings_store_and_replace_values_by_key() {
    let mut s = SettingsMap::new();
    assert!(s.get_setting("theme").is_none());
    s.set_setting("theme".to_string(), Value::String("dark".to_string()));
    s.set_setting("count".to_string(), Value::Bool(true));
    assert_eq!(
        s.get_setting("theme"),
        Some(Value::String("dark".to_string()))
    );
    assert_eq!(s.get_setting("count"), Some(Value::Bool(true)));
    // Setting an existing key replaces, it does not duplicate.
    s.set_setting("theme".to_string(), Value::String("light".to_string()));
    assert_eq!(
        s.get_setting("theme"),
        Some(Value::String("light".to_string()))
    );
    assert_eq!(s.entries.len(), 2);
}

#[test]
fn settings_remove_reports_presence() {
    let mut s = SettingsMap::new();
    s.set_setting("a".to_string(), Value::Null);
    assert!(s.remove_setting("a"));
    assert!(s.get_setting("a").is_none());
    assert!(!s.remove_setting("a"));
}

#[test]
fn state_loads_from_the_store_only_once() {
    let mut inner = Inner::new(empty_config());
    assert!(!inner.loaded);

    let mut cfg = empty_config();
    cfg.server_addr = "first.example".to_string();
    let mut settings = SettingsMap::new();
    settings.set_setting("k".to_string(), Value::Bool(true));
    inner.install_loaded(cfg, Vec::new(), None, settings);
    assert!(inner.loaded);
    assert_eq!(inner.config.server_addr, "first.example");

    // A second load must not clobber the state.
    let mut cfg2 = empty_config();
    cfg2.server_addr = "second.example".to_string();
    inner.install_loaded(cfg2, Vec::new(), None, SettingsMap::new());
    assert_eq!(inner.config.server_addr, "first.example");
    assert_eq!(inner.settings.get_setting("k"), Some(Value::Bool(true)));
}

#[test]
fn progress_is_floored_and_saturated() {
    assert_eq!(progress_pct(0, 100), 0);
    assert_eq!(progress_pct(49, 100), 49);
    assert_eq!(progress_pct(999, 1000), 99);
    assert_eq!(progress_pct(100, 100), 100);
    // An over-delivering stream cannot wrap the percentage.
    assert_eq!(progress_pct(1000, 100), 255);
}

#[test]
fn reporter_publishes_only_changes() {
    let mut t = DownloadTracker::new();
    assert_eq!(t.observe(0, 1000), None);
    assert_eq!(t.observe(499, 1000), Some(49));
    assert_eq!(t.observe(501, 1000), Some(50));
    assert_eq!(t.observe(505, 1000), None);
    assert_eq!(t.observe(1000, 1000), Some(100));
    assert_eq!(t.observe(1000, 1000), None);
}
