use frpc_manager::config::{Auth, FrpcConfig, Switches, WebServer};
use frpc_manager::proxy::{
    default_proxy_id, get_proxy, remove_proxy, save_proxy, to_proxy_export, HttpProxy,
    HttpsProxy, HttpSwitch, Proxy, ProxyCommon, ProxyExport,
};
use frpc_manager::types::{AuthType, DomainType};

fn common(id: &str, name: &str, enable: bool, port: u16) -> ProxyCommon {
    ProxyCommon {
        id: id.to_string(),
        name: name.to_string(),
        enable,
        local_ip: "127.0.0.1".to_string(),
        local_port: port,
    }
}

fn http_proxy(id: &str, name: &str, enable: bool) -> Proxy {
    Proxy::Http(HttpProxy {
        common: common(id, name, enable, 8080),
        subdomain: "sub".to_string(),
        custom_domains: vec!["a.example".to_string()],
        locations: vec!["/".to_string()],
        http_user: "u".to_string(),
        http_password: "p".to_string(),
        switch: HttpSwitch {
            domain: DomainType::Sub,
            auth: true,
        },
    })
}

fn https_proxy(id: &str, name: &str, enable: bool) -> Proxy {
    Proxy::Https(HttpsProxy {
        common: common(id, name, enable, 8443),
    })
}

fn config(proxies: Vec<Proxy>, auth_on: bool, web_on: bool) -> FrpcConfig {
    FrpcConfig {
        server_addr: "frps.example".to_string(),
        server_port: 7000,
        auth: Auth {
            method: AuthType::Token,
            token: "SECRET-REDACTED".to_string(),
        },
        web_server: WebServer {
            addr: "127.0.0.1".to_string(),
            port: 7400,
            user: "admin".to_string(),
            password: String::new(),
        },
        proxies,
        switch: Switches {
            auth: auth_on,
            web_server: web_on,
        },
    }
}

#[test]
fn export_keeps_only_enabled_proxies_in_order() {
    let cfg = config(
        vec![
            http_proxy("1", "one", true),
            https_proxy("2", "two", false),
            https_proxy("3", "three", true),
        ],
        false,
        false,
    );
    let out = cfg.to_export();
    assert_eq!(out.proxies.len(), 2);
    match &out.proxies[0] {
        ProxyExport::Http(h) => {
            assert_eq!(h.common.name, "one");
            assert_eq!(h.common.local_port, 8080);
            assert_eq!(h.subdomain, "sub");
            assert_eq!(h.custom_domains, vec!["a.example".to_string()]);
        }
        ProxyExport::Https(_) => panic!("first export row must be the http proxy"),
    }
    match &out.proxies[1] {
        ProxyExport::Https(h) => assert_eq!(h.common.name, "three"),
        ProxyExport::Http(_) => panic!("second export row must be the https proxy"),
    }
}

#[test]
fn export_attaches_auth_only_when_switched_on() {
    let on = config(Vec::new(), true, false).to_export();
    assert_eq!(on.auth.as_ref().map(|a| a.token.as_str()), Some("SECRET-REDACTED"));
    let off = config(Vec::new(), false, false).to_export();
    assert!(off.auth.is_none());
}

#[test]
fn export_drops_empty_web_credentials() {
    // user is non-empty, password is empty: only the user survives, and
    // only while the web switch is on.
    let on = config(Vec::new(), false, true).to_export();
    assert_eq!(on.web_server.user.as_deref(), Some("admin"));
    assert_eq!(on.web_server.password, None);
    assert_eq!(on.web_server.addr, "127.0.0.1");
    assert_eq!(on.web_server.port, 7400);
    let off = config(Vec::new(), false, false).to_export();
    assert_eq!(off.web_server.user, None);
    assert_eq!(off.web_server.password, None);
}

#[test]
fn save_server_config_preserves_the_proxy_list() {
    let mut cfg = config(vec![http_proxy("1", "one", true)], false, false);
    let incoming = config(Vec::new(), true, true);
    frpc_manager::config::save_server_config(&mut cfg, incoming);
    assert_eq!(cfg.server_addr, "frps.example");
    assert!(cfg.switch.auth);
    assert_eq!(cfg.proxies.len(), 1);
}

#[test]
fn save_proxy_inserts_then_replaces_by_id() {
    let mut proxies: Vec<Proxy> = Vec::new();
    save_proxy(&mut proxies, http_proxy("1", "one", true));
    save_proxy(&mut proxies, https_proxy("2", "two", true));
    assert_eq!(proxies.len(), 2);
    // Same id again: replaced in place, not appended.
    save_proxy(&mut proxies, https_proxy("1", "renamed", false));
    assert_eq!(proxies.len(), 2);
    match &proxies[0] {
        Proxy::Https(h) => assert_eq!(h.common.name, "renamed"),
        Proxy::Http(_) => panic!("the row with id 1 must have been replaced"),
    }
}

#[test]
fn remove_proxy_reports_whether_something_was_dropped() {
    let mut proxies = vec![http_proxy("1", "one", true), https_proxy("2", "two", true)];
    assert!(remove_proxy(&mut proxies, "1"));
    assert_eq!(proxies.len(), 1);
    assert!(!remove_proxy(&mut proxies, "1"));
    assert_eq!(proxies.len(), 1);
}

#[test]
fn get_proxy_finds_the_first_by_name() {
    let proxies = vec![http_proxy("1", "one", true), https_proxy("2", "two", true)];
    let found = get_proxy(&proxies, "two").expect("name is present");
    match found {
        Proxy::Https(h) => assert_eq!(h.common.id, "2"),
        Proxy::Http(_) => panic!("wrong proxy returned"),
    }
    assert!(get_proxy(&proxies, "nope").is_none());
}

#[test]
fn blank_ids_are_replaced_with_fresh_uuids() {
    assert_eq!(default_proxy_id(Some("keep-me".to_string())), "keep-me");
    let fresh = default_proxy_id(Some("   ".to_string()));
    assert_eq!(fresh.chars().count(), 36);
    let fresh2 = default_proxy_id(None);
    assert_eq!(fresh2.chars().count(), 36);
}
