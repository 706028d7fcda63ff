use frpc_manager::archive::{
    archive_stem, extract_archive_to, frpc_name, is_tgz, is_zip, ArchiveKind,
};
use frpc_manager::errors::AppError;
use frpc_manager::version::ActiveFrp;
use frpc_manager::version_service::{
    activate_record, apply_version_update, build_version, clear_active_if_matches,
    find_version_index, format_size, pick_asset_by_name, select_asset, should_stop_running,
    AssetInfo,
};

fn asset(name: &str, size: u64) -> AssetInfo {
    AssetInfo {
        id: 9,
        name: name.to_string(),
        size,
        url: format!("https://example.test/{name}"),
        download_count: Some(5),
        created_at: "2023-11-05T12:00:00Z".to_string(),
    }
}

#[test]
fn format_size_matches_known_values() {
    assert_eq!(format_size(0), "0 B");
    assert_eq!(format_size(1), "1 B");
    assert_eq!(format_size(512), "512 B");
    assert_eq!(format_size(1023), "1023 B");
    assert_eq!(format_size(1024), "1.00 KB");
    assert_eq!(format_size(1536), "1.50 KB");
    assert_eq!(format_size(10240), "10.0 KB");
    assert_eq!(format_size(102400), "100 KB");
    assert_eq!(format_size(1048576), "1.00 MB");
    assert_eq!(format_size(9033228), "8.61 MB");
    assert_eq!(format_size(1 << 30), "1.00 GB");
    assert_eq!(format_size(u64::MAX), "16384 PB");
}

#[test]
fn platform_assets_are_picked_case_insensitively() {
    assert!(pick_asset_by_name("frp_0.52.3_linux_amd64.tar.gz", "linux", "x86_64"));
    assert!(pick_asset_by_name("FRP_0.52.3_LINUX_ARM64.tar.gz", "linux", "aarch64"));
    assert!(pick_asset_by_name("frp_0.52.3_darwin_arm64.tar.gz", "macos", "aarch64"));
    assert!(pick_asset_by_name("frp_0.52.3_windows_amd64.zip", "windows", "x86_64"));
    // Wrong platform, missing project tag, unknown OS.
    assert!(!pick_asset_by_name("frp_0.52.3_linux_amd64.tar.gz", "windows", "x86_64"));
    assert!(!pick_asset_by_name("other_linux_amd64.tar.gz", "linux", "x86_64"));
    assert!(!pick_asset_by_name("frp_0.52.3_linux_amd64.tar.gz", "plan9", "x86_64"));
}

#[test]
fn select_asset_takes_the_first_match() {
    let assets = vec![
        asset("frp_windows_amd64.zip", 1),
        asset("frp_linux_amd64.tar.gz", 2),
        asset("frp_linux_amd64_v2.tar.gz", 3),
    ];
    assert_eq!(select_asset(&assets, "linux", "x86_64"), Some(1));
    assert_eq!(select_asset(&assets, "macos", "aarch64"), None);
}

#[test]
fn build_version_fills_the_row() {
    let a = asset("frp_linux_amd64.tar.gz", 9033228);
    let version = "v0.52.3".to_string();
    let active_name = "frp_linux_amd64.tar.gz".to_string();
    let row = build_version(&version, &a, true, Some(&active_name));
    assert_eq!(row.id, 9);
    assert_eq!(row.name, "frp_linux_amd64.tar.gz");
    assert_eq!(row.size, "8.61 MB");
    assert_eq!(row.version, "v0.52.3");
    assert_eq!(row.created_at, "2023-11-05");
    assert_eq!(row.count, 5);
    assert!(row.exist);
    assert!(row.active);

    let other = "something-else".to_string();
    let row2 = build_version(&version, &a, false, Some(&other));
    assert!(!row2.active);
    assert!(!row2.exist);
    let mut no_count = asset("x_frp_linux_amd64.zip", 10);
    no_count.download_count = None;
    let row3 = build_version(&version, &no_count, false, None);
    assert_eq!(row3.count, 0);
}

#[test]
fn activating_one_version_deactivates_the_rest() {
    let v = "v1".to_string();
    let mut versions = vec![
        build_version(&v, &asset("a.tar.gz", 1), true, None),
        build_version(&v, &asset("b.tar.gz", 1), true, None),
        build_version(&v, &asset("c.tar.gz", 1), true, None),
    ];
    apply_version_update(&mut versions, "b.tar.gz", None, Some(true));
    let flags: Vec<bool> = versions.iter().map(|r| r.active).collect();
    assert_eq!(flags, vec![false, true, false]);

    apply_version_update(&mut versions, "c.tar.gz", None, Some(true));
    let flags: Vec<bool> = versions.iter().map(|r| r.active).collect();
    assert_eq!(flags, vec![false, false, true]);

    apply_version_update(&mut versions, "c.tar.gz", None, Some(false));
    assert!(!versions[2].active);

    apply_version_update(&mut versions, "a.tar.gz", Some(false), None);
    assert!(!versions[0].exist);
    // Unknown names change nothing.
    apply_version_update(&mut versions, "zzz", Some(true), Some(true));
    assert!(!versions[0].exist);
    assert!(versions.iter().all(|r| !r.active));
    assert_eq!(find_version_index(&versions, "b.tar.gz"), Some(1));
    assert_eq!(find_version_index(&versions, "zzz"), None);
}

#[test]
fn activation_records_carry_their_paths() {
    let name = "frp_linux_amd64.tar.gz".to_string();
    let rec = activate_record(
        &name,
        "/data/downloads/frp_linux_amd64.tar.gz".to_string(),
        "/data/downloads/frp_linux_amd64".to_string(),
        "/data/downloads/frp_linux_amd64/frpc".to_string(),
    );
    assert_eq!(rec.name, name);
    assert_eq!(rec.exe_path, "/data/downloads/frp_linux_amd64/frpc");
    // The timestamp comes from the clock; it is carried as given.
    let _stamp: &str = &rec.activated_at;
}

#[test]
fn clearing_the_active_record_needs_a_matching_name() {
    let rec = ActiveFrp {
        name: "a.tar.gz".to_string(),
        archive_path: String::new(),
        unpack_dir: String::new(),
        exe_path: String::new(),
        activated_at: String::new(),
    };
    let mut active = Some(rec);
    assert!(!clear_active_if_matches(&mut active, "other"));
    assert!(active.is_some());
    assert!(clear_active_if_matches(&mut active, "a.tar.gz"));
    assert!(active.is_none());
    assert!(!clear_active_if_matches(&mut active, "a.tar.gz"));
}

#[test]
fn stop_guard_fires_only_for_the_running_active_version() {
    let rec = ActiveFrp {
        name: "a.tar.gz".to_string(),
        archive_path: String::new(),
        unpack_dir: String::new(),
        exe_path: String::new(),
        activated_at: String::new(),
    };
    let active = Some(rec);
    assert!(should_stop_running(&active, true, "a.tar.gz"));
    assert!(!should_stop_running(&active, false, "a.tar.gz"));
    assert!(!should_stop_running(&active, true, "b.tar.gz"));
    assert!(!should_stop_running(&None, true, "a.tar.gz"));
}

#[test]
fn archive_kinds_are_detected_from_the_name() {
    assert!(is_zip("frp.ZIP"));
    assert!(is_zip("frp.zip"));
    assert!(!is_zip(".zip"));
    assert!(!is_zip("frp.tar.gz"));
    assert!(is_tgz("frp.tar.gz"));
    assert!(is_tgz("frp.TGZ"));
    assert!(!is_tgz("frp.zip"));

    assert_eq!(extract_archive_to("a.zip"), Ok(ArchiveKind::Zip));
    assert_eq!(extract_archive_to("a.tar.gz"), Ok(ArchiveKind::TarGz));
    match extract_archive_to("a.rar") {
        Err(AppError::Other(m)) => {
            assert_eq!(m, "unsupported archive (only .zip / .tar.gz / .tgz)")
        }
        other => panic!("expected a refusal, got {other:?}"),
    }
}

#[test]
fn archive_stems_drop_the_right_suffix() {
    assert_eq!(archive_stem("frp_linux.tar.gz"), "frp_linux");
    assert_eq!(archive_stem("frp_linux.TGZ"), "frp_linux");
    assert_eq!(archive_stem("frp_windows.zip"), "frp_windows");
    assert_eq!(archive_stem("a.b.c"), "a.b");
    assert_eq!(archive_stem("noext"), "noext");
}

#[test]
fn error_messages_carry_their_prefix() {
    assert_eq!(
        AppError::Store("missing".to_string()).message(),
        "Store error: missing"
    );
    assert_eq!(AppError::Io("eof".to_string()).message(), "IO error: eof");
    assert_eq!(AppError::Http("404".to_string()).message(), "HTTP error: 404");
    assert_eq!(AppError::Zip("bad".to_string()).message(), "Zip error: bad");
    assert_eq!(AppError::Toml("bad".to_string()).message(), "TOML error: bad");
    assert_eq!(
        AppError::Serde("bad".to_string()).message(),
        "Serde error: bad"
    );
    assert_eq!(AppError::Other("x".to_string()).message(), "Other: x");
}

#[test]
fn unpack_dir_sits_next_to_the_download() {
    assert_eq!(
        frpc_manager::archive::unpack_dir_for("/data", "frp_linux.tar.gz"),
        "/data/downloads/frp_linux"
    );
}

#[test]
fn executable_name_differs_per_platform() {
    assert_eq!(frpc_name(true), "frpc.exe");
    assert_eq!(frpc_name(false), "frpc");
}
