use mclauncher_core::text::{is_white_space, trim};
use mclauncher_core::{
    contains, decimal_string, detect_dev_mode, detect_installed_info, detect_services,
    dev_mode_error_after_enable, dev_mode_view, find_best_for_family, installed_details_text,
    installed_packages_info, join_strings, needs_manual_start, plan_download,
    populate_list_maps, query_service_info, required_services, search_query,
    selected_version_index, service_start_type_text, service_state_text, services_view,
    set_disabled_services_manual, starts_with, str_eq, to_wide, version_matches, version_row,
    DevModeInfo, DownloadPlan, GameDirectories, InstalledInfo, PackageRecord, PackageType,
    Preferences, ServiceChangeError, ServiceFixAttempt, ServiceQuery, ServiceStatusInfo, Version,
    VersionType,
};

fn version(name: &str, vt: VersionType, pt: PackageType, is_new: bool) -> Version {
    Version::new_from_db(
        "u".to_string(),
        name.to_string(),
        vt,
        is_new,
        pt,
        vec!["http://dl/1".to_string()],
        &GameDirectories { entries: Vec::new() },
    )
}

fn complete_queries(start_type: u32) -> Vec<ServiceQuery> {
    (0..required_services().len()).map(|_| ServiceQuery::Complete(4, start_type)).collect()
}

#[test]
fn state_and_start_texts() {
    let states = [
        (1, "Stopped"),
        (2, "Start pending"),
        (3, "Stop pending"),
        (4, "Running"),
        (5, "Continue pending"),
        (6, "Pause pending"),
        (7, "Paused"),
        (0, "Unknown"),
        (8, "Unknown"),
    ];
    for (s, t) in states {
        assert_eq!(service_state_text(s), t);
    }
    let starts = [(0, "Boot"), (1, "System"), (2, "Automatic"), (3, "Manual"), (4, "Disabled"), (5, "Unknown")];
    for (s, t) in starts {
        assert_eq!(service_start_type_text(s), t);
    }
}

#[test]
fn required_services_table() {
    let reqs = required_services();
    assert_eq!(reqs.len(), 15);
    assert_eq!(reqs[0].name, "AppXSVC");
    assert_eq!(reqs[0].display, "AppX Deployment Service");
    assert_eq!(reqs[14].name, "GamingServices");
    assert_eq!(reqs[7].display, "Windows Update");
}

#[test]
fn service_info_from_each_query_outcome() {
    let req = required_services()[1];
    let missing = query_service_info(&req, &ServiceQuery::OpenFailed("no such service".to_string()));
    assert_eq!(missing.display, "Client License Service");
    assert_eq!(missing.state, "Missing");
    assert_eq!(missing.start_type, "Unknown");
    assert_eq!(missing.error.as_deref(), Some("OpenService failed: no such service"));
    let status = query_service_info(&req, &ServiceQuery::StatusFailed("denied".to_string()));
    assert_eq!(status.state, "Unknown");
    assert_eq!(status.error.as_deref(), Some("Status query failed: denied"));
    let no_config = query_service_info(&req, &ServiceQuery::ConfigUnavailable(1));
    assert_eq!(no_config.state, "Stopped");
    assert_eq!(no_config.error.as_deref(), Some("Config query failed"));
    let bad_config = query_service_info(&req, &ServiceQuery::ConfigFailed(4, "x".to_string()));
    assert_eq!(bad_config.state, "Running");
    assert_eq!(bad_config.error.as_deref(), Some("Config query failed: x"));
    let ok = query_service_info(&req, &ServiceQuery::Complete(4, 4));
    assert_eq!(ok.state, "Running");
    assert_eq!(ok.start_type, "Disabled");
    assert!(ok.is_disabled);
    assert!(ok.error.is_none());
    assert!(needs_manual_start(&ok));
    assert!(!needs_manual_start(&bad_config));
}

#[test]
fn services_when_the_manager_cannot_be_opened() {
    let (services, err) = detect_services(Err("access denied".to_string()));
    assert_eq!(err.as_deref(), Some("OpenSCManager failed: access denied"));
    assert_eq!(services.len(), 15);
    for s in &services {
        assert_eq!(s.state, "Unknown");
        assert_eq!(s.start_type, "Unknown");
        assert_eq!(s.error.as_deref(), Some("OpenSCManager failed: access denied"));
    }
    assert_eq!(services[2].display, "Microsoft Store Install Service");
}

#[test]
fn services_from_queries() {
    let (services, err) = detect_services(Ok(complete_queries(3)));
    assert!(err.is_none());
    assert!(services.iter().all(|s| s.start_type == "Manual" && !s.is_disabled));
    assert_eq!(services[3].display, "Windows License Manager Service");
}

#[test]
fn fix_errors_are_joined_by_lines() {
    let mut attempts: Vec<ServiceFixAttempt> = complete_queries(3)
        .into_iter()
        .map(|q| ServiceFixAttempt { query: q, change: None })
        .collect();
    assert_eq!(set_disabled_services_manual(Ok(attempts.clone())), None);
    attempts[0] = ServiceFixAttempt {
        query: ServiceQuery::Complete(1, 4),
        change: Some(Err(ServiceChangeError::ChangeFailed("denied".to_string()))),
    };
    attempts[2] = ServiceFixAttempt {
        query: ServiceQuery::OpenFailed("gone".to_string()),
        change: None,
    };
    attempts[3] = ServiceFixAttempt {
        query: ServiceQuery::Complete(1, 4),
        change: Some(Ok(())),
    };
    attempts[4] = ServiceFixAttempt {
        query: ServiceQuery::Complete(1, 4),
        change: Some(Err(ServiceChangeError::OpenFailed("busy".to_string()))),
    };
    assert_eq!(
        set_disabled_services_manual(Ok(attempts)).as_deref(),
        Some(
            "AppXSVC: ChangeServiceConfig failed: denied\nInstallService: OpenService failed: gone\nStateRepository: OpenService failed: busy"
        )
    );
    assert_eq!(
        set_disabled_services_manual(Err("no".to_string())).as_deref(),
        Some("OpenSCManager failed: no")
    );
}

fn status(display: &str, state: &str, disabled: bool, error: Option<&str>) -> ServiceStatusInfo {
    ServiceStatusInfo {
        display: display.to_string(),
        state: state.to_string(),
        start_type: if disabled { "Disabled".to_string() } else { "Manual".to_string() },
        is_disabled: disabled,
        error: error.map(|e| e.to_string()),
    }
}

#[test]
fn services_panel() {
    let services = vec![
        status("A", "Running", false, None),
        status("B", "Stopped", true, None),
        status("C", "Unknown", false, Some("bad")),
    ];
    let view = services_view(&services, None);
    assert_eq!(view.summary, "Required services disabled: 1/3");
    assert!(view.show_fix);
    assert_eq!(view.rows[0], ("A".to_string(), "Running".to_string(), "Manual".to_string()));
    assert_eq!(view.rows[2], ("C".to_string(), "Error".to_string(), "-".to_string()));
    let ok: Vec<ServiceStatusInfo> = (0..15).map(|_| status("S", "Running", false, None)).collect();
    let view = services_view(&ok, None);
    assert_eq!(view.summary, "Required services: OK (15/15)");
    assert!(!view.show_fix);
    assert_eq!(services_view(&Vec::new(), None).summary, "Required services: none");
    let e = "boom".to_string();
    assert_eq!(services_view(&services, Some(&e)).summary, "Required services: error (boom)");
}

#[test]
fn developer_mode_detection() {
    let on = detect_dev_mode(Ok(Some(1)));
    assert!(on.enabled && on.error.is_none());
    assert!(!detect_dev_mode(Ok(Some(2))).enabled);
    assert!(!detect_dev_mode(Ok(None)).enabled);
    let failed = detect_dev_mode(Err("denied".to_string()));
    assert!(!failed.enabled);
    assert_eq!(failed.error.as_deref(), Some("Registry read failed: denied"));
}

#[test]
fn developer_mode_after_enabling() {
    let on = DevModeInfo { enabled: true, error: Some("ignored".to_string()) };
    assert_eq!(dev_mode_error_after_enable(on, Err("w".to_string())), None);
    let off = DevModeInfo { enabled: false, error: None };
    assert_eq!(dev_mode_error_after_enable(off.clone(), Err("w".to_string())).as_deref(), Some("w"));
    assert_eq!(dev_mode_error_after_enable(off, Ok(())), None);
    let unread = DevModeInfo { enabled: false, error: Some("r".to_string()) };
    assert_eq!(dev_mode_error_after_enable(unread, Err("w".to_string())).as_deref(), Some("r"));
}

#[test]
fn developer_mode_status_bar() {
    let v = dev_mode_view(true, &Some("e".to_string()));
    assert_eq!(v.label, "Dev Mode: Unknown");
    assert!(v.button_visible && v.button_enabled);
    let v = dev_mode_view(true, &None);
    assert_eq!(v.label, "Dev Mode: On");
    assert!(!v.button_visible);
    let v = dev_mode_view(false, &None);
    assert_eq!(v.label, "Dev Mode: Off");
    assert!(v.button_visible);
}

fn pkg(major: u16, minor: u16, build: u16, revision: u16, path: Option<&str>) -> PackageRecord {
    PackageRecord { major, minor, build, revision, install_path: path.map(|p| p.to_string()) }
}

#[test]
fn best_package_is_the_highest_version_first_on_ties() {
    let family = "Microsoft.MinecraftUWP_8wekyb3d8bbwe";
    assert_eq!(find_best_for_family(family, &Vec::new()), None);
    let packages = vec![
        pkg(1, 20, 0, 1, Some("C:\\a")),
        pkg(1, 21, 2, 0, None),
        pkg(1, 21, 2, 0, Some("C:\\c")),
        pkg(1, 9, 65535, 65535, Some("C:\\d")),
    ];
    let best = find_best_for_family(family, &packages).unwrap();
    assert_eq!(best.0, (1u64 << 48) | (21u64 << 32) | (2u64 << 16));
    assert_eq!(best.1, "1.21.2.0");
    assert_eq!(best.2, family);
    assert_eq!(best.3, "Unknown");
}

#[test]
fn installed_summary_and_details() {
    let release = Some((1u64, "1.21.2.0".to_string(), "Fam".to_string(), "C:\\g".to_string()));
    let info = installed_packages_info(&release, &None);
    assert_eq!(info.summary, "Installed: Release 1.21.2.0 (registered) | Preview not installed");
    assert_eq!(
        info.details,
        "Release\n  Status: registered\n  Version: 1.21.2.0\n  Package family: Fam\n  Install path: C:\\g\n\nPreview\n  Status: not installed\n"
    );
    let info = installed_packages_info(&None, &release);
    assert_eq!(info.summary, "Installed: Release not installed | Preview 1.21.2.0 (registered)");
    assert_eq!(
        info.details,
        "Release\n  Status: not installed\n\nPreview\n  Status: registered\n  Version: 1.21.2.0\n  Package family: Fam\n  Install path: C:\\g\n"
    );
}

#[test]
fn installed_info_on_error() {
    let info = detect_installed_info(Err("class not registered".to_string()));
    assert_eq!(info.summary, "Installed: (error)");
    assert_eq!(info.details, "Failed to query installed packages: class not registered");
    let ok = InstalledInfo { summary: "s".to_string(), details: "d".to_string() };
    assert_eq!(detect_installed_info(Ok(ok)).details, "d");
    assert_eq!(installed_details_text(&String::new()), "No installed packages detected.");
    assert_eq!(installed_details_text(&"x".to_string()), "x");
}

#[test]
fn search_text_is_trimmed_and_lowercased() {
    assert_eq!(search_query("  HeLLo World \t"), "hello world");
    assert_eq!(search_query("\u{3000}ÄB\u{85}"), "äb");
    assert_eq!(search_query("   "), "");
}

#[test]
fn lists_by_type_and_query() {
    let versions = vec![
        version("1.20.0", VersionType::Release, PackageType::Gdk, false),
        version("1.21.0-Beta", VersionType::Beta, PackageType::Uwp, true),
        version("1.21.50", VersionType::Preview, PackageType::Gdk, false),
        version("1.21.1", VersionType::Release, PackageType::Uwp, false),
        Version::new_imported("Mine".to_string(), "d".to_string(), PackageType::Uwp),
    ];
    let all = populate_list_maps(&versions, "");
    assert_eq!(all.release, vec![0, 3]);
    assert_eq!(all.beta, vec![1]);
    assert_eq!(all.preview, vec![2]);
    assert_eq!(all.imported, vec![4]);
    let q = search_query(" 1.21 ");
    let some = populate_list_maps(&versions, &q);
    assert_eq!(some.release, vec![3]);
    assert_eq!(some.beta, vec![1]);
    assert_eq!(some.preview, vec![2]);
    assert!(some.imported.is_empty());
    let beta = populate_list_maps(&versions, &search_query("BETA"));
    assert_eq!(beta.beta, vec![1]);
    assert!(beta.release.is_empty());
    assert!(version_matches(&versions[4], "mine"));
    assert!(!version_matches(&versions[4], "Mine"));
}

#[test]
fn rows_and_selection() {
    let v = version("1.2", VersionType::Preview, PackageType::Gdk, true);
    assert_eq!(version_row(&v), vec!["1.2", "GDK", "yes", "Preview"]);
    let w = version("1.3", VersionType::Release, PackageType::Uwp, false);
    assert_eq!(version_row(&w), vec!["1.3", "UWP", "", "Release"]);
    let map = vec![4, 7];
    assert_eq!(selected_version_index(&map, Some(1)), Some(7));
    assert_eq!(selected_version_index(&map, Some(2)), None);
    assert_eq!(selected_version_index(&map, None), None);
}

#[test]
fn download_plans() {
    let versions = vec![
        version("1.2", VersionType::Release, PackageType::Uwp, false),
        version("1.3", VersionType::Preview, PackageType::Gdk, false),
    ];
    assert!(matches!(plan_download(None, &versions), DownloadPlan::NothingSelected));
    assert!(matches!(plan_download(Some(2), &versions), DownloadPlan::VersionNotFound));
    assert!(matches!(plan_download(Some(0), &versions), DownloadPlan::TokenRequired));
    match plan_download(Some(1), &versions) {
        DownloadPlan::Start { index, output, status } => {
            assert_eq!(index, 1);
            assert_eq!(output, "Minecraft-Preview-1.3.msixvc");
            assert_eq!(status, "Downloading to Minecraft-Preview-1.3.msixvc...");
        }
        other => panic!("unexpected plan {:?}", other),
    }
}

#[test]
fn wide_strings_are_utf16_with_a_terminator() {
    assert_eq!(to_wide(""), vec![0]);
    assert_eq!(to_wide("AppXSVC"), "AppXSVC".encode_utf16().chain([0]).collect::<Vec<u16>>());
    assert_eq!(to_wide("aé😀"), vec![0x61, 0xe9, 0xD83D, 0xDE00, 0]);
}

#[test]
fn text_helpers() {
    assert_eq!(decimal_string(0), "0");
    assert_eq!(decimal_string(1234567890), "1234567890");
    assert_eq!(decimal_string(u64::MAX), u64::MAX.to_string());
    assert!(contains("hello", "ell"));
    assert!(contains("hello", ""));
    assert!(!contains("hello", "hellos"));
    assert!(!contains("", "a"));
    assert!(starts_with("http://tlu/x", "http://tlu/"));
    assert!(!starts_with("http", "https"));
    assert!(str_eq("ü", "ü"));
    assert!(!str_eq("a", "ab"));
    let lines = vec!["a".to_string(), "b".to_string(), "c".to_string()];
    assert_eq!(join_strings(&lines, "\n"), "a\nb\nc");
    assert_eq!(join_strings(&Vec::new(), "\n"), "");
}

#[test]
fn default_preferences() {
    let p = Preferences::default();
    assert!(!p.show_installed_only);
    assert!(p.delete_appx_after_download);
    assert!(p.versions_api_uwp.is_empty());
    assert!(p.versions_api_gdk.is_empty());
    assert!(!p.has_previously_used_gdk);
    assert!(!p.show_legacy_beta_tab);
}

#[test]
fn trim_drops_unicode_white_space_at_both_ends_only() {
    assert_eq!(trim("\u{2028}\u{a0} a \u{2003}b\u{205f}\n"), "a \u{2003}b");
    assert_eq!(trim("\u{200b}x"), "\u{200b}x");
    assert_eq!(trim(" \t\r\n"), "");
    assert_eq!(trim(""), "");
    assert!(is_white_space('\u{3000}'));
    assert!(!is_white_space('\u{200b}'));
    assert!(!is_white_space('x'));
}
