use frpc_manager::proxy::{HttpsProxy, Proxy, ProxyCommon};
use frpc_manager::text::{contains_ic, ends_with_ic, u64_to_dec};

#[test]
fn decimal_rendering_has_no_leading_zeros() {
    assert_eq!(u64_to_dec(0), "0");
    assert_eq!(u64_to_dec(7), "7");
    assert_eq!(u64_to_dec(10), "10");
    assert_eq!(u64_to_dec(123456789), "123456789");
    assert_eq!(u64_to_dec(u64::MAX), "18446744073709551615");
}

#[test]
fn case_insensitive_search_folds_ascii_only() {
    assert!(contains_ic("Frp_Linux_AMD64", "linux_amd64"));
    assert!(contains_ic("abc", ""));
    assert!(!contains_ic("ab", "abc"));
    assert!(ends_with_ic("archive.TAR.GZ", ".tar.gz"));
    assert!(!ends_with_ic("archive.tar", ".tar.gz"));
    // Non-ASCII characters are compared verbatim.
    assert!(contains_ic("naïve-frp", "ï"));
    assert!(!contains_ic("naive-frp", "ï"));
}

#[test]
fn common_accessors_reach_both_proxy_kinds() {
    let mut p = Proxy::Https(HttpsProxy {
        common: ProxyCommon {
            id: "1".to_string(),
            name: "old".to_string(),
            enable: false,
            local_ip: "127.0.0.1".to_string(),
            local_port: 80,
        },
    });
    assert_eq!(p.common().name, "old");
    let c = p.common_mut();
    c.name = "new".to_string();
    c.enable = true;
    assert_eq!(p.common().name, "new");
    assert!(p.common().enable);
}
